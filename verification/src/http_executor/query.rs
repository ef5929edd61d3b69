//! The SQL queries an executor runs, and how a configured wrapper is refined.
use vstd::prelude::*;

use crate::text::{char_seqs, chars_of, split, split_chars, string_of};

verus! {

/// What a query's result must look like for the request to succeed.
#[derive(Clone, Copy, PartialEq, Eq, Structural, Debug)]
pub enum SQLBehaviour {
    Permissive,
    /// Whether the response from the database is expected not to be empty.
    FailOnEmpty,
    /// Whether the response from the database is expected to be exactly one row (unique) or empty.
    Unique,
}

impl Default for SQLBehaviour {
    fn default() -> (b: Self)
        ensures
            b == SQLBehaviour::Permissive,
    {
        SQLBehaviour::Permissive
    }
}

/// Whether the behaviour is the default one, which serialisation leaves out.
pub fn behaviour_skip(value: &SQLBehaviour) -> (skip: bool)
    ensures
        skip == (*value == SQLBehaviour::Permissive),
{
    *value == SQLBehaviour::Permissive
}

/// The default of `SQLQuery::included`.
pub fn default_true() -> (b: bool)
    ensures
        b,
{
    true
}

/// The mathematical value of a `SQLQuery`.
pub struct SqlQuerySpec {
    pub query: Seq<char>,
    pub included: bool,
    pub behaviour: SQLBehaviour,
}

/// One SQL statement (or several separated by `;`) with its response options.
#[derive(Clone, Debug)]
pub struct SQLQuery {
    query: String,
    /// Whether to include the query result in the response.
    included: bool,
    /// Query behaviour on response.
    behaviour: SQLBehaviour,
}

impl View for SQLQuery {
    type V = SqlQuerySpec;

    closed spec fn view(&self) -> SqlQuerySpec {
        SqlQuerySpec { query: self.query@, included: self.included, behaviour: self.behaviour }
    }
}

/// The views of a sequence of queries.
pub open spec fn query_specs(qs: Seq<SQLQuery>) -> Seq<SqlQuerySpec> {
    qs.map_values(|q: SQLQuery| q@)
}

impl SQLQuery {
    pub fn new(query: String, included: bool, behaviour: SQLBehaviour) -> (r: Self)
        ensures
            r@ == (SqlQuerySpec { query: query@, included, behaviour }),
    {
        SQLQuery { query, included, behaviour }
    }

    pub fn query(&self) -> (r: &String)
        ensures
            r@ == self@.query,
    {
        &self.query
    }

    pub fn included(&self) -> (r: &bool)
        ensures
            *r == self@.included,
    {
        &self.included
    }

    pub fn behaviour(&self) -> (r: &SQLBehaviour)
        ensures
            *r == self@.behaviour,
    {
        &self.behaviour
    }

    pub fn query_mut(&mut self) -> (r: &mut String)
        ensures
            (*r)@ == old(self)@.query,
            final(self)@ == (SqlQuerySpec { query: final(r)@, ..old(self)@ }),
    {
        &mut self.query
    }

    pub fn include_mut(&mut self) -> (r: &mut bool)
        ensures
            *r == old(self)@.included,
            final(self)@ == (SqlQuerySpec { included: *final(r), ..old(self)@ }),
    {
        &mut self.included
    }

    pub fn behaviour_mut(&mut self) -> (r: &mut SQLBehaviour)
        ensures
            *r == old(self)@.behaviour,
            final(self)@ == (SqlQuerySpec { behaviour: *final(r), ..old(self)@ }),
    {
        &mut self.behaviour
    }

    /// The parts of the query as `into_parts` hands them out: text, included, behaviour.
    pub fn into_parts(self) -> (r: (String, bool, SQLBehaviour))
        ensures
            r.0@ == self@.query,
            r.1 == self@.included,
            r.2 == self@.behaviour,
    {
        (self.query, self.included, self.behaviour)
    }
}

/// Two queries are equal when their text, inclusion and behaviour are.
impl PartialEq for SQLQuery {
    fn eq(&self, other: &Self) -> (r: bool) {
        self.query == other.query && self.included == other.included && self.behaviour == other.behaviour
    }
}

impl vstd::std_specs::cmp::PartialEqSpecImpl for SQLQuery {
    open spec fn obeys_eq_spec() -> bool {
        true
    }

    open spec fn eq_spec(&self, other: &Self) -> bool {
        self@ == other@
    }
}

/// Whether two lists of queries hold equal queries, in the same order.
pub fn queries_equal(a: &Vec<SQLQuery>, b: &Vec<SQLQuery>) -> (r: bool)
    ensures
        r == (query_specs(a@) == query_specs(b@)),
{
    if a.len() != b.len() {
        assert(query_specs(a@).len() != query_specs(b@).len());
        return false;
    }
    let mut i: usize = 0;
    while i < a.len()
        invariant
            a.len() == b.len(),
            i <= a.len(),
            forall|j: int| 0 <= j < i ==> (#[trigger] a@[j])@ == b@[j]@,
        decreases a.len() - i,
    {
        if !(a[i] == b[i]) {
            assert(query_specs(a@)[i as int] != query_specs(b@)[i as int]);
            return false;
        }
        i += 1;
    }
    assert(query_specs(a@) =~= query_specs(b@));
    true
}

/// Whether two optional database ids are equal.
pub fn databases_equal(a: &Option<String>, b: &Option<String>) -> (r: bool)
    ensures
        r == (a.deep_view() == b.deep_view()),
{
    match (a, b) {
        (Some(x), Some(y)) => {
            assert(a.deep_view() == Some(x@) && b.deep_view() == Some(y@));
            *x == *y
        },
        (None, None) => true,
        _ => false,
    }
}

/// The mathematical value of a `SQLQueryWrapper`.
pub enum WrapperSpec {
    Single { database: Option<Seq<char>>, query: SqlQuerySpec },
    Many { database: Option<Seq<char>>, queries: Seq<SqlQuerySpec> },
}

/// The queries of an executor as configured: one query text, or a list of queries.
#[derive(Clone, Debug)]
pub enum SQLQueryWrapper {
    Single { database: Option<String>, query: SQLQuery },
    Many { database: Option<String>, queries: Vec<SQLQuery> },
}

impl View for SQLQueryWrapper {
    type V = WrapperSpec;

    open spec fn view(&self) -> WrapperSpec {
        match self {
            SQLQueryWrapper::Single { database, query } => WrapperSpec::Single {
                database: database.deep_view(),
                query: query@,
            },
            SQLQueryWrapper::Many { database, queries } => WrapperSpec::Many {
                database: database.deep_view(),
                queries: query_specs(queries@),
            },
        }
    }
}

/// Two wrappers are equal when they are the same kind, with equal databases and
/// equal queries.
impl PartialEq for SQLQueryWrapper {
    fn eq(&self, other: &Self) -> (r: bool) {
        match (self, other) {
            (
                SQLQueryWrapper::Single { database: d1, query: q1 },
                SQLQueryWrapper::Single { database: d2, query: q2 },
            ) => databases_equal(d1, d2) && q1 == q2,
            (
                SQLQueryWrapper::Many { database: d1, queries: q1 },
                SQLQueryWrapper::Many { database: d2, queries: q2 },
            ) => databases_equal(d1, d2) && queries_equal(q1, q2),
            _ => false,
        }
    }
}

impl vstd::std_specs::cmp::PartialEqSpecImpl for SQLQueryWrapper {
    open spec fn obeys_eq_spec() -> bool {
        true
    }

    open spec fn eq_spec(&self, other: &Self) -> bool {
        self@ == other@
    }
}

impl WrapperSpec {
    pub open spec fn with_database(self, database: Seq<char>) -> WrapperSpec {
        match self {
            WrapperSpec::Single { query, .. } => WrapperSpec::Single {
                database: Some(database),
                query,
            },
            WrapperSpec::Many { queries, .. } => WrapperSpec::Many {
                database: Some(database),
                queries,
            },
        }
    }

    pub open spec fn with_include(self, included: bool) -> WrapperSpec {
        match self {
            WrapperSpec::Single { database, query } => WrapperSpec::Single {
                database,
                query: SqlQuerySpec { included, ..query },
            },
            WrapperSpec::Many { database, queries } => WrapperSpec::Many {
                database,
                queries: queries.map_values(|q: SqlQuerySpec| SqlQuerySpec { included, ..q }),
            },
        }
    }

    pub open spec fn with_behaviour(self, behaviour: SQLBehaviour) -> WrapperSpec {
        match self {
            WrapperSpec::Single { database, query } => WrapperSpec::Single {
                database,
                query: SqlQuerySpec { behaviour, ..query },
            },
            WrapperSpec::Many { database, queries } => WrapperSpec::Many {
                database,
                queries: queries.map_values(|q: SqlQuerySpec| SqlQuerySpec { behaviour, ..q }),
            },
        }
    }
}

/// The queries with their `included` flag set to `included`.
fn set_include(queries: Vec<SQLQuery>, included: bool) -> (r: Vec<SQLQuery>)
    ensures
        query_specs(r@) == query_specs(queries@).map_values(
            |q: SqlQuerySpec| SqlQuerySpec { included, ..q },
        ),
{
    let ghost qs = queries@;
    let mut out: Vec<SQLQuery> = Vec::new();
    for q in it: queries.into_iter()
        invariant
            it.seq() == qs,
            out@.len() == it.index(),
            forall|k: int|
                0 <= k < it.index() ==> #[trigger] out@[k]@ == (SqlQuerySpec {
                    included,
                    ..qs[k]@
                }),
    {
        out.push(SQLQuery { query: q.query, included, behaviour: q.behaviour });
    }
    assert(query_specs(out@) =~= query_specs(qs).map_values(
        |q: SqlQuerySpec| SqlQuerySpec { included, ..q },
    ));
    out
}

/// The queries with their `behaviour` set to `behaviour`.
fn set_behaviour(queries: Vec<SQLQuery>, behaviour: SQLBehaviour) -> (r: Vec<SQLQuery>)
    ensures
        query_specs(r@) == query_specs(queries@).map_values(
            |q: SqlQuerySpec| SqlQuerySpec { behaviour, ..q },
        ),
{
    let ghost qs = queries@;
    let mut out: Vec<SQLQuery> = Vec::new();
    for q in it: queries.into_iter()
        invariant
            it.seq() == qs,
            out@.len() == it.index(),
            forall|k: int|
                0 <= k < it.index() ==> #[trigger] out@[k]@ == (SqlQuerySpec {
                    behaviour,
                    ..qs[k]@
                }),
    {
        out.push(SQLQuery { query: q.query, included: q.included, behaviour });
    }
    assert(query_specs(out@) =~= query_specs(qs).map_values(
        |q: SqlQuerySpec| SqlQuerySpec { behaviour, ..q },
    ));
    out
}

impl SQLQueryWrapper {
    /// A single query, included in the response, with the permissive behaviour.
    pub fn new(query: String) -> (r: Self)
        ensures
            r@ == (WrapperSpec::Single {
                database: None,
                query: SqlQuerySpec { query: query@, included: true, behaviour: SQLBehaviour::Permissive },
            }),
    {
        SQLQueryWrapper::Single {
            database: None,
            query: SQLQuery { query, included: true, behaviour: SQLBehaviour::Permissive },
        }
    }

    pub fn with_database(self, database: String) -> (r: Self)
        ensures
            r@ == self@.with_database(database@),
    {
        match self {
            SQLQueryWrapper::Single { query, .. } => SQLQueryWrapper::Single {
                database: Some(database),
                query,
            },
            SQLQueryWrapper::Many { queries, .. } => SQLQueryWrapper::Many {
                database: Some(database),
                queries,
            },
        }
    }

    pub fn with_include(self, included: bool) -> (r: Self)
        ensures
            r@ == self@.with_include(included),
    {
        match self {
            SQLQueryWrapper::Single { database, query } => SQLQueryWrapper::Single {
                database,
                query: SQLQuery { query: query.query, included, behaviour: query.behaviour },
            },
            SQLQueryWrapper::Many { database, queries } => SQLQueryWrapper::Many {
                database,
                queries: set_include(queries, included),
            },
        }
    }

    pub fn with_behaviour(self, behaviour: SQLBehaviour) -> (r: Self)
        ensures
            r@ == self@.with_behaviour(behaviour),
    {
        match self {
            SQLQueryWrapper::Single { database, query } => SQLQueryWrapper::Single {
                database,
                query: SQLQuery { query: query.query, included: query.included, behaviour },
            },
            SQLQueryWrapper::Many { database, queries } => SQLQueryWrapper::Many {
                database,
                queries: set_behaviour(queries, behaviour),
            },
        }
    }
}

/// The pieces that are not empty, in order.
pub open spec fn nonempty_pieces(ps: Seq<Seq<char>>) -> Seq<Seq<char>>
    decreases ps.len(),
{
    if ps.len() == 0 {
        Seq::<Seq<char>>::empty()
    } else if ps.last().len() == 0 {
        nonempty_pieces(ps.drop_last())
    } else {
        nonempty_pieces(ps.drop_last()).push(ps.last())
    }
}

/// The statements of a query text: its non-empty parts between `;`.
pub open spec fn statements_of(text: Seq<char>) -> Seq<Seq<char>> {
    nonempty_pieces(split(text, ';'))
}

/// A query split into one query per statement, each keeping the query's options.
pub open spec fn split_query(q: SqlQuerySpec) -> Seq<SqlQuerySpec> {
    statements_of(q.query).map_values(
        |s: Seq<char>| SqlQuerySpec { query: s, included: q.included, behaviour: q.behaviour },
    )
}

impl WrapperSpec {
    /// The queries an executor runs for this wrapper: a single query is split into
    /// its statements; a list is taken as it is.
    pub open spec fn queries(self) -> Seq<SqlQuerySpec> {
        match self {
            WrapperSpec::Single { query, .. } => split_query(query),
            WrapperSpec::Many { queries, .. } => queries,
        }
    }

    pub open spec fn database(self) -> Option<Seq<char>> {
        match self {
            WrapperSpec::Single { database, .. } => database,
            WrapperSpec::Many { database, .. } => database,
        }
    }
}

proof fn lemma_nonempty_step(ps: Seq<Seq<char>>, i: int)
    requires
        0 <= i < ps.len(),
    ensures
        nonempty_pieces(ps.take(i + 1)) == (if ps[i].len() == 0 {
            nonempty_pieces(ps.take(i))
        } else {
            nonempty_pieces(ps.take(i)).push(ps[i])
        }),
{
    assert(ps.take(i + 1).drop_last() =~= ps.take(i));
}

/// One query per statement of `q`, each with the options of `q`.
pub fn split_statements(q: SQLQuery) -> (r: Vec<SQLQuery>)
    ensures
        query_specs(r@) == split_query(q@),
{
    let chars = chars_of(q.query.as_str());
    let pieces = split_chars(&chars, ';');
    let ghost ps = char_seqs(pieces@);
    let mut out: Vec<SQLQuery> = Vec::new();
    let mut i: usize = 0;
    assert(ps.take(0) =~= Seq::<Seq<char>>::empty());
    while i < pieces.len()
        invariant
            i <= pieces.len(),
            ps == char_seqs(pieces@),
            ps == split(q@.query, ';'),
            query_specs(out@) == nonempty_pieces(ps.take(i as int)).map_values(
                |s: Seq<char>| SqlQuerySpec { query: s, included: q.included, behaviour: q.behaviour },
            ),
        decreases pieces.len() - i,
    {
        proof {
            lemma_nonempty_step(ps, i as int);
        }
        assert(ps[i as int] == pieces@[i as int]@);
        let ghost before = query_specs(out@);
        if pieces[i].len() > 0 {
            let text = string_of(&pieces[i]);
            let item = SQLQuery { query: text, included: q.included, behaviour: q.behaviour };
            assert(item@ == (SqlQuerySpec { query: ps[i as int], included: q.included, behaviour: q.behaviour }));
            out.push(item);
            assert(query_specs(out@) =~= before.push(item@));
            assert(query_specs(out@) =~= nonempty_pieces(ps.take(i + 1)).map_values(
                |s: Seq<char>| SqlQuerySpec { query: s, included: q.included, behaviour: q.behaviour },
            ));
        }
        i += 1;
    }
    assert(ps.take(pieces.len() as int) =~= ps);
    out
}

impl SQLQueryWrapper {
    /// The queries an executor runs for this wrapper (see `WrapperSpec::queries`),
    /// and the database it names.
    pub fn into_parts(self) -> (r: (Option<String>, Vec<SQLQuery>))
        ensures
            r.0.deep_view() == self@.database(),
            query_specs(r.1@) == self@.queries(),
    {
        match self {
            SQLQueryWrapper::Single { database, query } => (database, split_statements(query)),
            SQLQueryWrapper::Many { database, queries } => (database, queries),
        }
    }
}

/// Setting `included` twice keeps the second value.
pub proof fn law_with_include_last_wins(w: WrapperSpec, a: bool, b: bool)
    ensures
        w.with_include(a).with_include(b) == w.with_include(b),
{
    if let WrapperSpec::Many { database, queries } = w {
        assert(queries.map_values(|q: SqlQuerySpec| SqlQuerySpec { included: a, ..q }).map_values(
            |q: SqlQuerySpec| SqlQuerySpec { included: b, ..q },
        ) =~= queries.map_values(|q: SqlQuerySpec| SqlQuerySpec { included: b, ..q }));
    }
}

/// Setting the behaviour twice keeps the second value.
pub proof fn law_with_behaviour_last_wins(w: WrapperSpec, a: SQLBehaviour, b: SQLBehaviour)
    ensures
        w.with_behaviour(a).with_behaviour(b) == w.with_behaviour(b),
{
    if let WrapperSpec::Many { database, queries } = w {
        assert(queries.map_values(|q: SqlQuerySpec| SqlQuerySpec { behaviour: a, ..q }).map_values(
            |q: SqlQuerySpec| SqlQuerySpec { behaviour: b, ..q },
        ) =~= queries.map_values(|q: SqlQuerySpec| SqlQuerySpec { behaviour: b, ..q }));
    }
}

/// Setting `included` and setting the behaviour do not depend on each other's order,
/// and neither touches the database.
pub proof fn law_builders_commute(w: WrapperSpec, included: bool, behaviour: SQLBehaviour, database: Seq<char>)
    ensures
        w.with_include(included).with_behaviour(behaviour) == w.with_behaviour(behaviour).with_include(
            included,
        ),
        w.with_database(database).with_include(included) == w.with_include(included).with_database(
            database,
        ),
        w.with_database(database).with_behaviour(behaviour) == w.with_behaviour(behaviour).with_database(
            database,
        ),
        w.with_database(database).database() == Some(database),
        w.with_database(database).queries() == w.queries(),
{
    if let WrapperSpec::Many { database: d, queries } = w {
        assert(queries.map_values(|q: SqlQuerySpec| SqlQuerySpec { included, ..q }).map_values(
            |q: SqlQuerySpec| SqlQuerySpec { behaviour, ..q },
        ) =~= queries.map_values(|q: SqlQuerySpec| SqlQuerySpec { behaviour, ..q }).map_values(
            |q: SqlQuerySpec| SqlQuerySpec { included, ..q },
        ));
    }
}

pub proof fn lemma_nonempty_pieces_from(ps: Seq<Seq<char>>, sep: char)
    requires
        forall|i: int| 0 <= i < ps.len() ==> !(#[trigger] ps[i]).contains(sep),
    ensures
        forall|i: int|
            0 <= i < nonempty_pieces(ps).len() ==> (#[trigger] nonempty_pieces(ps)[i]).len() > 0
                && !nonempty_pieces(ps)[i].contains(sep),
    decreases ps.len(),
{
    if ps.len() > 0 {
        assert forall|i: int| 0 <= i < ps.drop_last().len() implies !(#[trigger] ps.drop_last()[i]).contains(sep) by {
            assert(ps.drop_last()[i] == ps[i]);
        }
        lemma_nonempty_pieces_from(ps.drop_last(), sep);
        assert(!ps[ps.len() - 1].contains(sep));
        let prev = nonempty_pieces(ps.drop_last());
        if ps.last().len() > 0 {
            let all = prev.push(ps.last());
            assert forall|i: int| 0 <= i < all.len() implies (#[trigger] all[i]).len() > 0
                && !all[i].contains(sep) by {
                if i < prev.len() {
                    assert(all[i] == prev[i]);
                }
            }
        }
    }
}

/// No piece of a split holds the separator.
pub proof fn lemma_split_pieces_lack_sep(s: Seq<char>, sep: char)
    ensures
        forall|i: int| 0 <= i < split(s, sep).len() ==> !(#[trigger] split(s, sep)[i]).contains(sep),
    decreases s.len(),
{
    if s.len() > 0 {
        lemma_split_pieces_lack_sep(s.drop_last(), sep);
        crate::text::lemma_split_nonempty(s.drop_last(), sep);
        let init = split(s.drop_last(), sep);
        if s.last() != sep {
            let last = init.last().push(s.last());
            assert forall|j: int| 0 <= j < last.len() implies last[j] != sep by {
                if j < init.last().len() {
                    assert(last[j] == init.last()[j]);
                }
            }
        }
    }
}

/// Each statement a single query is split into is non-empty, holds no `;`, and
/// keeps the query's options.
pub proof fn law_statements_are_whole(q: SqlQuerySpec)
    ensures
        forall|i: int|
            0 <= i < split_query(q).len() ==> {
                &&& (#[trigger] split_query(q)[i]).query.len() > 0
                &&& !split_query(q)[i].query.contains(';')
                &&& split_query(q)[i].included == q.included
                &&& split_query(q)[i].behaviour == q.behaviour
            },
{
    lemma_split_pieces_lack_sep(q.query, ';');
    lemma_nonempty_pieces_from(split(q.query, ';'), ';');
}

/// After `with_include(b)`, every query the wrapper runs has `included == b`;
/// after `with_behaviour(h)`, every one has behaviour `h`.
pub proof fn law_options_reach_every_query(w: WrapperSpec, b: bool, h: SQLBehaviour)
    ensures
        forall|i: int|
            0 <= i < w.with_include(b).queries().len() ==> (#[trigger] w.with_include(
                b,
            ).queries()[i]).included == b,
        forall|i: int|
            0 <= i < w.with_behaviour(h).queries().len() ==> (#[trigger] w.with_behaviour(
                h,
            ).queries()[i]).behaviour == h,
{
}

} // verus!
