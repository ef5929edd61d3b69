//! The MySQL execution target: the queries a request runs, in order.
use vstd::prelude::*;

use crate::http_executor::query::{query_specs, SQLQuery, SQLQueryWrapper, SqlQuerySpec};

verus! {

/// Runs SQL queries for a request against the one configured MySQL backend.
#[derive(Debug)]
pub struct MySQLExecute {
    /// If no query is marked to be included in the response the response's body will be empty.
    /// NOTE: queries are executed sequentially.
    queries: Vec<SQLQuery>,
}

impl View for MySQLExecute {
    type V = Seq<SqlQuerySpec>;

    closed spec fn view(&self) -> Seq<SqlQuerySpec> {
        query_specs(self.queries@)
    }
}

impl MySQLExecute {
    pub fn new(queries: Vec<SQLQuery>) -> (r: Self)
        ensures
            r@ == query_specs(queries@),
    {
        MySQLExecute { queries }
    }

    /// The executor's name.
    pub fn name(&self) -> (r: &'static str)
        ensures
            r@ == "mysql"@,
    {
        "mysql"
    }

    pub fn queries(&self) -> (r: &Vec<SQLQuery>)
        ensures
            query_specs(r@) == self@,
    {
        &self.queries
    }

    /// The queries, handed over.
    pub fn into_queries(self) -> (r: Vec<SQLQuery>)
        ensures
            query_specs(r@) == self@,
    {
        self.queries
    }
}

impl From<SQLQueryWrapper> for MySQLExecute {
    /// A single query is split on `;` into one query per non-empty statement,
    /// each keeping the query's options; a list of queries is taken as it is.
    fn from(value: SQLQueryWrapper) -> (r: Self)
        ensures
            r@ == value@.queries(),
    {
        let (_database, queries) = value.into_parts();
        MySQLExecute { queries }
    }
}

/// The conversion's result is stated by `from`'s own `ensures`, over views; the
/// generic `from_spec` protocol is not used for this type.
impl vstd::std_specs::convert::FromSpecImpl<SQLQueryWrapper> for MySQLExecute {
    open spec fn obeys_from_spec() -> bool {
        false
    }

    open spec fn from_spec(v: SQLQueryWrapper) -> Self {
        arbitrary()
    }
}

} // verus!
