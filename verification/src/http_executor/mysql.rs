//! The MySQL HTTP executor: the queries an endpoint runs, in order.
use vstd::prelude::*;

use crate::http_executor::query::{
    databases_equal, queries_equal, query_specs, SQLQuery, SQLQueryWrapper, SqlQuerySpec, WrapperSpec,
};

verus! {

/// The mathematical value of an executor: its database and its queries.
pub struct ExecutorSpec {
    pub database: Option<Seq<char>>,
    pub queries: Seq<SqlQuerySpec>,
}

/// Runs SQL queries for an HTTP endpoint.
#[derive(Clone, Debug)]
pub struct MySQLExecutor {
    database: Option<String>,
    /// If no query is marked to be included in the response the response's body will be empty.
    /// NOTE: queries are executed sequentially.
    queries: Vec<SQLQuery>,
}

impl View for MySQLExecutor {
    type V = ExecutorSpec;

    closed spec fn view(&self) -> ExecutorSpec {
        ExecutorSpec { database: self.database.deep_view(), queries: query_specs(self.queries@) }
    }
}

/// Two executors are equal when their databases and their queries are.
impl PartialEq for MySQLExecutor {
    fn eq(&self, other: &Self) -> (r: bool) {
        databases_equal(&self.database, &other.database) && queries_equal(&self.queries, &other.queries)
    }
}

impl vstd::std_specs::cmp::PartialEqSpecImpl for MySQLExecutor {
    open spec fn obeys_eq_spec() -> bool {
        true
    }

    open spec fn eq_spec(&self, other: &Self) -> bool {
        self@ == other@
    }
}

/// The executor that a configured wrapper describes.
pub open spec fn executor_of(w: WrapperSpec) -> ExecutorSpec {
    ExecutorSpec { database: w.database(), queries: w.queries() }
}

impl MySQLExecutor {
    pub fn new(database: Option<String>, queries: Vec<SQLQuery>) -> (r: Self)
        ensures
            r@ == (ExecutorSpec { database: database.deep_view(), queries: query_specs(queries@) }),
    {
        MySQLExecutor { database, queries }
    }

    /// The executor's name.
    pub fn name(&self) -> (r: &'static str)
        ensures
            r@ == "mysql"@,
    {
        "mysql"
    }

    pub fn database(&self) -> (r: &Option<String>)
        ensures
            r.deep_view() == self@.database,
    {
        &self.database
    }

    pub fn queries(&self) -> (r: &Vec<SQLQuery>)
        ensures
            query_specs(r@) == self@.queries,
    {
        &self.queries
    }

    /// The queries, handed over.
    pub fn into_queries(self) -> (r: Vec<SQLQuery>)
        ensures
            query_specs(r@) == self@.queries,
    {
        self.queries
    }
}

impl From<SQLQueryWrapper> for MySQLExecutor {
    /// A single query is split on `;` into one query per non-empty statement,
    /// each keeping the query's options; a list of queries is taken as it is.
    fn from(value: SQLQueryWrapper) -> (r: Self)
        ensures
            r@ == executor_of(value@),
    {
        let (database, queries) = value.into_parts();
        MySQLExecutor { database, queries }
    }
}

/// The conversion's result is stated by `from`'s own `ensures`, over views; the
/// generic `from_spec` protocol is not used for this type.
impl vstd::std_specs::convert::FromSpecImpl<SQLQueryWrapper> for MySQLExecutor {
    open spec fn obeys_from_spec() -> bool {
        false
    }

    open spec fn from_spec(v: SQLQueryWrapper) -> Self {
        arbitrary()
    }
}

} // verus!
