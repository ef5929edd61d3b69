//! The Postgres execution target: the queries a request runs, in order.
use vstd::prelude::*;

use crate::http_executor::query::{query_specs, SQLQuery, SQLQueryWrapper, SqlQuerySpec, WrapperSpec};

verus! {

/// A query run against Postgres.
#[derive(Debug)]
pub struct PostgresQuery(SQLQuery);

impl View for PostgresQuery {
    type V = SqlQuerySpec;

    closed spec fn view(&self) -> SqlQuerySpec {
        self.0@
    }
}

impl PostgresQuery {
    pub fn new(query: SQLQuery) -> (r: Self)
        ensures
            r@ == query@,
    {
        PostgresQuery(query)
    }

    /// The query it holds.
    pub fn as_query(&self) -> (r: &SQLQuery)
        ensures
            r@ == self@,
    {
        &self.0
    }

    /// The query it holds, handed over.
    pub fn into_query(self) -> (r: SQLQuery)
        ensures
            r@ == self@,
    {
        self.0
    }
}

/// The views of a sequence of Postgres queries.
pub open spec fn postgres_specs(qs: Seq<PostgresQuery>) -> Seq<SqlQuerySpec> {
    qs.map_values(|q: PostgresQuery| q@)
}

/// A configured wrapper of Postgres queries.
#[derive(Debug)]
pub struct PostgresQueryWrapper(SQLQueryWrapper);

impl View for PostgresQueryWrapper {
    type V = WrapperSpec;

    closed spec fn view(&self) -> WrapperSpec {
        self.0@
    }
}

impl PostgresQueryWrapper {
    pub fn new(wrapper: SQLQueryWrapper) -> (r: Self)
        ensures
            r@ == wrapper@,
    {
        PostgresQueryWrapper(wrapper)
    }

    /// The wrapper it holds.
    pub fn as_wrapper(&self) -> (r: &SQLQueryWrapper)
        ensures
            r@ == self@,
    {
        &self.0
    }
}

/// Runs SQL queries for a request against the one configured Postgres backend.
#[derive(Debug)]
pub struct PostgresExecute {
    /// If no query is marked to be included in the response the response's body will be empty.
    /// NOTE: queries are executed sequentially.
    queries: Vec<PostgresQuery>,
}

impl View for PostgresExecute {
    type V = Seq<SqlQuerySpec>;

    closed spec fn view(&self) -> Seq<SqlQuerySpec> {
        postgres_specs(self.queries@)
    }
}

impl PostgresExecute {
    pub fn new(queries: Vec<PostgresQuery>) -> (r: Self)
        ensures
            r@ == postgres_specs(queries@),
    {
        PostgresExecute { queries }
    }

    pub fn queries(&self) -> (r: &Vec<PostgresQuery>)
        ensures
            postgres_specs(r@) == self@,
    {
        &self.queries
    }

    /// The queries as plain SQL queries, handed over.
    pub fn into_queries(self) -> (r: Vec<SQLQuery>)
        ensures
            query_specs(r@) == self@,
    {
        let ghost qs = self.queries@;
        let mut out: Vec<SQLQuery> = Vec::new();
        for q in it: self.queries.into_iter()
            invariant
                it.seq() == qs,
                out@.len() == it.index(),
                forall|k: int| 0 <= k < it.index() ==> #[trigger] out@[k]@ == qs[k]@,
        {
            out.push(q.into_query());
        }
        assert(query_specs(out@) =~= postgres_specs(qs));
        out
    }
}

impl From<PostgresQueryWrapper> for PostgresExecute {
    /// A single query is split on `;` into one query per non-empty statement,
    /// each keeping the query's options; a list of queries is taken as it is.
    fn from(value: PostgresQueryWrapper) -> (r: Self)
        ensures
            r@ == value@.queries(),
    {
        let (_database, queries) = value.0.into_parts();
        let ghost qs = queries@;
        let mut out: Vec<PostgresQuery> = Vec::new();
        for q in it: queries.into_iter()
            invariant
                it.seq() == qs,
                out@.len() == it.index(),
                forall|k: int| 0 <= k < it.index() ==> #[trigger] out@[k]@ == qs[k]@,
        {
            out.push(PostgresQuery(q));
        }
        assert(postgres_specs(out@) =~= query_specs(qs));
        PostgresExecute { queries: out }
    }
}

/// The conversion's result is stated by `from`'s own `ensures`, over views; the
/// generic `from_spec` protocol is not used for this type.
impl vstd::std_specs::convert::FromSpecImpl<PostgresQueryWrapper> for PostgresExecute {
    open spec fn obeys_from_spec() -> bool {
        false
    }

    open spec fn from_spec(v: PostgresQueryWrapper) -> Self {
        arbitrary()
    }
}

} // verus!
