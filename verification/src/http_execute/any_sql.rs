//! Running an endpoint's SQL queries: how a query template becomes a statement
//! with bound values, and how the query results become the response.
//!
//! A template names client parameters as `{name}`; each becomes a `?` bound to
//! the parameter's value, in the order the names appear. A runtime parameter is
//! written `|name|` and its (already textual) value is spliced into the statement.
use vstd::prelude::*;

use crate::http_executor::query::{
    law_options_reach_every_query, nonempty_pieces, query_specs, SQLBehaviour, SQLQuery,
    SqlQuerySpec, WrapperSpec,
};
use crate::pattern::{regex_compiles, regex_remove_all, CompiledPattern};
use crate::request::{find_param, lemma_lookup_in_range, lookup, HttpMethod, ParamValue};
use vstd::string::StringExecFns;
use crate::text::{
    char_seqs, chars_of, concat, lemma_split_nonempty, lemma_split_without_sep, push_chars, split,
    split_chars, string_of,
    trim, trimmed,
};

verus! {

/// The name a placeholder segment (the text after a `{`) holds: the trimmed text
/// before its first `}`, or nothing when it has no `}`.
pub open spec fn placeholder(seg: Seq<char>) -> Seq<char> {
    if split(seg, '}').len() > 1 {
        trim(split(seg, '}')[0], false)
    } else {
        Seq::<char>::empty()
    }
}

/// The client parameters a template names, in the order they appear.
pub open spec fn params_order(text: Seq<char>) -> Seq<Seq<char>> {
    nonempty_pieces(split(text, '{').drop_first().map_values(|seg: Seq<char>| placeholder(seg)))
}

/// Every `}` written as `?`.
pub open spec fn marks(s: Seq<char>) -> Seq<char> {
    s.map_values(|c: char| if c == '}' { '?' } else { c })
}

/// A segment of the template between two `{`: where it holds a `}`, the text before
/// its first `}` is dropped and each `}` becomes `?`; otherwise it stays as it is.
pub open spec fn rewrite_segment(seg: Seq<char>) -> Seq<char> {
    if split(seg, '}').len() > 1 {
        marks(seg.skip(split(seg, '}')[0].len() as int))
    } else {
        seg
    }
}

/// The template with its client placeholders turned into `?`.
pub open spec fn rewritten(text: Seq<char>) -> Seq<char> {
    concat(split(text, '{').map_values(|seg: Seq<char>| rewrite_segment(seg)))
}

pub proof fn lemma_split_first_len(s: Seq<char>, sep: char)
    ensures
        split(s, sep).len() >= 1,
        split(s, sep)[0].len() <= s.len(),
    decreases s.len(),
{
    lemma_split_nonempty(s, sep);
    if s.len() > 0 {
        lemma_split_first_len(s.drop_last(), sep);
    }
}

/// The name in a placeholder segment (see `placeholder`).
fn placeholder_name(seg: &Vec<char>) -> (r: Vec<char>)
    ensures
        r@ == placeholder(seg@),
{
    let parts = split_chars(seg, '}');
    proof {
        lemma_split_first_len(seg@, '}');
    }
    if parts.len() > 1 {
        assert(parts@[0]@ == split(seg@, '}')[0]);
        trimmed(&parts[0], false)
    } else {
        Vec::new()
    }
}

/// The client parameters the template names, in order.
pub fn placeholder_names(text: &Vec<char>) -> (r: Vec<Vec<char>>)
    ensures
        char_seqs(r@) == params_order(text@),
{
    let segs = split_chars(text, '{');
    let ghost ss = char_seqs(segs@);
    let ghost named = ss.drop_first().map_values(|seg: Seq<char>| placeholder(seg));
    proof {
        lemma_split_nonempty(text@, '{');
    }
    let mut out: Vec<Vec<char>> = Vec::new();
    let mut i: usize = 1;
    assert(named.take(0) =~= Seq::<Seq<char>>::empty());
    while i < segs.len()
        invariant
            1 <= i <= segs.len(),
            ss == char_seqs(segs@),
            ss == split(text@, '{'),
            named == ss.drop_first().map_values(|seg: Seq<char>| placeholder(seg)),
            char_seqs(out@) == nonempty_pieces(named.take(i - 1)),
        decreases segs.len() - i,
    {
        let name = placeholder_name(&segs[i]);
        assert(named[i - 1] == name@);
        assert(named.take(i as int).drop_last() =~= named.take(i - 1));
        let ghost before = char_seqs(out@);
        if name.len() > 0 {
            out.push(name);
            assert(char_seqs(out@) =~= before.push(named[i - 1]));
        }
        i += 1;
    }
    assert(named.take(segs.len() - 1) =~= named);
    out
}

/// One template segment rewritten (see `rewrite_segment`).
fn rewrite_one(seg: &Vec<char>) -> (r: Vec<char>)
    ensures
        r@ == rewrite_segment(seg@),
{
    let parts = split_chars(seg, '}');
    proof {
        lemma_split_first_len(seg@, '}');
    }
    if parts.len() > 1 {
        assert(parts@[0]@ == split(seg@, '}')[0]);
        let start = parts[0].len();
        let mut r: Vec<char> = Vec::new();
        let mut k: usize = start;
        while k < seg.len()
            invariant
                start <= k <= seg.len(),
                start == split(seg@, '}')[0].len(),
                r@ == marks(seg@.subrange(start as int, k as int)),
            decreases seg.len() - k,
        {
            let c = seg[k];
            r.push(if c == '}' { '?' } else { c });
            assert(marks(seg@.subrange(start as int, k + 1)) =~= marks(
                seg@.subrange(start as int, k as int),
            ).push(if c == '}' { '?' } else { c }));
            k += 1;
        }
        assert(seg@.subrange(start as int, seg.len() as int) =~= seg@.skip(start as int));
        r
    } else {
        let mut r: Vec<char> = Vec::new();
        let mut k: usize = 0;
        while k < seg.len()
            invariant
                k <= seg.len(),
                r@ == seg@.take(k as int),
            decreases seg.len() - k,
        {
            r.push(seg[k]);
            assert(seg@.take(k + 1) =~= seg@.take(k as int).push(seg@[k as int]));
            k += 1;
        }
        assert(seg@.take(seg.len() as int) =~= seg@);
        r
    }
}

/// The template with its client placeholders turned into `?` (see `rewritten`).
pub fn rewrite_placeholders(text: &Vec<char>) -> (r: Vec<char>)
    ensures
        r@ == rewritten(text@),
{
    let segs = split_chars(text, '{');
    let ghost ss = char_seqs(segs@);
    let ghost rs = ss.map_values(|seg: Seq<char>| rewrite_segment(seg));
    let mut out: Vec<char> = Vec::new();
    let mut i: usize = 0;
    assert(rs.take(0) =~= Seq::<Seq<char>>::empty());
    while i < segs.len()
        invariant
            i <= segs.len(),
            ss == char_seqs(segs@),
            ss == split(text@, '{'),
            rs == ss.map_values(|seg: Seq<char>| rewrite_segment(seg)),
            out@ == concat(rs.take(i as int)),
        decreases segs.len() - i,
    {
        let piece = rewrite_one(&segs[i]);
        assert(rs[i as int] == piece@);
        assert(rs.take(i + 1).drop_last() =~= rs.take(i as int));
        let mut k: usize = 0;
        let ghost before = out@;
        while k < piece.len()
            invariant
                k <= piece.len(),
                out@ == before + piece@.take(k as int),
            decreases piece.len() - k,
        {
            out.push(piece[k]);
            assert(piece@.take(k + 1) =~= piece@.take(k as int).push(piece@[k as int]));
            k += 1;
        }
        assert(piece@.take(piece.len() as int) =~= piece@);
        i += 1;
    }
    assert(rs.take(segs.len() as int) =~= rs);
    out
}

/// Why running an endpoint's queries failed.
#[derive(Debug)]
pub enum SqlExecError {
    /// A runtime parameter (`|name|`) the statement names was not injected.
    MissingRuntimeParam(String),
    /// A client parameter (`{name}`) the statement names was not provided.
    MissingParam(String),
    /// The pattern that strips an absent column from a PUT statement does not
    /// compile (the parameter, and the regex error's text).
    InvalidStripPattern(String, String),
    /// A `FailOnEmpty` query returned no row.
    EmptyResult,
    /// A `Unique` query returned more than one row.
    NotUnique,
    /// The statement failed in the database (with the database's message).
    QueryFailed(String),
}

/// The mathematical value of a `SqlExecError`.
pub enum ExecFailure {
    MissingRuntimeParam(Seq<char>),
    MissingParam(Seq<char>),
    InvalidStripPattern(Seq<char>),
    EmptyResult,
    NotUnique,
    QueryFailed(Seq<char>),
}

impl View for SqlExecError {
    type V = ExecFailure;

    open spec fn view(&self) -> ExecFailure {
        match self {
            SqlExecError::MissingRuntimeParam(p) => ExecFailure::MissingRuntimeParam(p@),
            SqlExecError::MissingParam(p) => ExecFailure::MissingParam(p@),
            SqlExecError::InvalidStripPattern(p, _) => ExecFailure::InvalidStripPattern(p@),
            SqlExecError::EmptyResult => ExecFailure::EmptyResult,
            SqlExecError::NotUnique => ExecFailure::NotUnique,
            SqlExecError::QueryFailed(m) => ExecFailure::QueryFailed(m@),
        }
    }
}

impl SqlExecError {
    /// The HTTP status the failure is answered with: 400 for a result that breaks
    /// the query's behaviour, 500 otherwise.
    pub fn status(&self) -> (code: u16)
        ensures
            code == (if self@ is EmptyResult || self@ is NotUnique { 400u16 } else { 500u16 }),
    {
        match self {
            SqlExecError::EmptyResult | SqlExecError::NotUnique => 400,
            _ => 500,
        }
    }
}

/// The text a runtime parameter named `key` was injected with.
pub open spec fn internal_value<V>(params: Seq<(String, ParamValue<V>)>, key: Seq<char>) -> Option<Seq<char>> {
    match lookup(params, key) {
        Some(i) => match params[i].1 {
            ParamValue::Internal(v) => Some(v@),
            ParamValue::Client(_) => None,
        },
        None => None,
    }
}

/// The pieces between `|` with every odd piece (a runtime parameter's name, trimmed)
/// replaced by that parameter's text; the first odd piece that names no injected
/// runtime parameter is the error.
pub open spec fn substitute<V>(pieces: Seq<Seq<char>>, params: Seq<(String, ParamValue<V>)>) -> Result<Seq<char>, Seq<char>>
    decreases pieces.len(),
{
    if pieces.len() == 0 {
        Ok(Seq::<char>::empty())
    } else {
        match substitute(pieces.drop_last(), params) {
            Err(e) => Err(e),
            Ok(prefix) => if (pieces.len() - 1) % 2 == 0 {
                Ok(prefix + pieces.last())
            } else {
                match internal_value(params, trim(pieces.last(), false)) {
                    Some(v) => Ok(prefix + v),
                    None => Err(pieces.last()),
                }
            },
        }
    }
}

/// The index of the client parameter named `key`, when the client sent a value for it.
pub open spec fn client_index<V>(params: Seq<(String, ParamValue<V>)>, key: Seq<char>) -> Option<int> {
    match lookup(params, key) {
        Some(i) => match params[i].1 {
            ParamValue::Client(Some(_)) => Some(i),
            _ => None,
        },
        None => None,
    }
}

/// The pattern that matches the assignment of column `name` in an UPDATE statement,
/// with the comma that separates it from its neighbour.
pub open spec fn strip_pattern(name: Seq<char>) -> Seq<char> {
    ",\\s*"@ + name + "\\s*=\\s*\\?|"@ + name + "\\s*=\\s*\\?\\s*,?"@
}

/// Binds the client parameters `names` in order. A parameter the client sent a
/// value for is bound (its index is appended). Any other one fails the request,
/// except in a PUT request, where its column assignment is removed from the statement.
pub open spec fn bind<V>(
    names: Seq<Seq<char>>,
    params: Seq<(String, ParamValue<V>)>,
    method: HttpMethod,
    query: Seq<char>,
) -> Result<(Seq<char>, Seq<int>), ExecFailure>
    decreases names.len(),
{
    if names.len() == 0 {
        Ok((query, Seq::<int>::empty()))
    } else {
        match bind(names.drop_last(), params, method, query) {
            Err(e) => Err(e),
            Ok((q, idx)) => {
                let name = names.last();
                match client_index(params, name) {
                    Some(i) => Ok((q, idx.push(i))),
                    None => if method == HttpMethod::Put {
                        if regex_compiles(strip_pattern(name)) {
                            Ok((regex_remove_all(strip_pattern(name), q), idx))
                        } else {
                            Err(ExecFailure::InvalidStripPattern(name))
                        }
                    } else {
                        Err(ExecFailure::MissingParam(name))
                    },
                }
            },
        }
    }
}

/// The statement a query template becomes for a request, with the indices of the
/// parameters whose values are bound to its `?`s, in order.
pub open spec fn prepared<V>(text: Seq<char>, method: HttpMethod, params: Seq<(String, ParamValue<V>)>) -> Result<(Seq<char>, Seq<int>), ExecFailure> {
    match substitute(split(rewritten(text), '|'), params) {
        Err(piece) => Err(ExecFailure::MissingRuntimeParam(piece)),
        Ok(q) => bind(params_order(text), params, method, q),
    }
}

/// A statement ready to run: its text, and the indices (into the request's
/// parameters) of the values bound to its `?`s, in order.
#[derive(Debug)]
pub struct PreparedQuery {
    pub sql: String,
    pub bindings: Vec<usize>,
}

impl View for PreparedQuery {
    type V = (Seq<char>, Seq<int>);

    open spec fn view(&self) -> (Seq<char>, Seq<int>) {
        (self.sql@, self.bindings@.map_values(|k: usize| k as int))
    }
}

proof fn lemma_pieces_step<T>(ps: Seq<T>, i: int)
    requires
        0 <= i < ps.len(),
    ensures
        ps.take(i + 1).drop_last() == ps.take(i),
        ps.take(i + 1).last() == ps[i],
{
    assert(ps.take(i + 1).drop_last() =~= ps.take(i));
}

/// An error in the first pieces is the error of the whole.
proof fn lemma_substitute_err<V>(ps: Seq<Seq<char>>, j: int, params: Seq<(String, ParamValue<V>)>)
    requires
        0 <= j <= ps.len(),
        substitute(ps.take(j), params) is Err,
    ensures
        substitute(ps, params) == substitute(ps.take(j), params),
    decreases ps.len(),
{
    if j == ps.len() {
        assert(ps.take(j) =~= ps);
    } else {
        assert(ps.drop_last().take(j) =~= ps.take(j));
        lemma_substitute_err(ps.drop_last(), j, params);
    }
}

/// An error in binding the first names is the error of the whole.
proof fn lemma_bind_err<V>(
    ns: Seq<Seq<char>>,
    j: int,
    params: Seq<(String, ParamValue<V>)>,
    method: HttpMethod,
    query: Seq<char>,
)
    requires
        0 <= j <= ns.len(),
        bind(ns.take(j), params, method, query) is Err,
    ensures
        bind(ns, params, method, query) == bind(ns.take(j), params, method, query),
    decreases ns.len(),
{
    if j == ns.len() {
        assert(ns.take(j) =~= ns);
    } else {
        assert(ns.drop_last().take(j) =~= ns.take(j));
        lemma_bind_err(ns.drop_last(), j, params, method, query);
    }
}

/// Splices the runtime parameters into the statement (see `substitute`).
fn substitute_runtime<V>(q: &Vec<char>, params: &Vec<(String, ParamValue<V>)>) -> (r: Result<Vec<char>, String>)
    ensures
        match r {
            Ok(v) => substitute(split(q@, '|'), params@) == Ok::<Seq<char>, Seq<char>>(v@),
            Err(e) => substitute(split(q@, '|'), params@) == Err::<Seq<char>, Seq<char>>(e@),
        },
{
    let pieces = split_chars(q, '|');
    let ghost ps = char_seqs(pieces@);
    let mut out: Vec<char> = Vec::new();
    let mut i: usize = 0;
    assert(ps.take(0) =~= Seq::<Seq<char>>::empty());
    while i < pieces.len()
        invariant
            i <= pieces.len(),
            ps == char_seqs(pieces@),
            ps == split(q@, '|'),
            substitute(ps.take(i as int), params@) == Ok::<Seq<char>, Seq<char>>(out@),
        decreases pieces.len() - i,
    {
        proof {
            lemma_pieces_step(ps, i as int);
        }
        assert(ps[i as int] == pieces@[i as int]@);
        if i % 2 == 0 {
            let ghost before = out@;
            let piece = &pieces[i];
            let mut k: usize = 0;
            while k < piece.len()
                invariant
                    k <= piece.len(),
                    out@ == before + piece@.take(k as int),
                decreases piece.len() - k,
            {
                out.push(piece[k]);
                assert(piece@.take(k + 1) =~= piece@.take(k as int).push(piece@[k as int]));
                k += 1;
            }
            assert(piece@.take(piece.len() as int) =~= piece@);
        } else {
            let key = trimmed(&pieces[i], false);
            match find_param(params, &key) {
                Some(idx) => {
                    proof {
                        lemma_lookup_in_range(params@, key@);
                    }
                    match &params[idx].1 {
                        ParamValue::Internal(v) => {
                            let vc = chars_of(v.as_str());
                            let ghost before = out@;
                            let mut k: usize = 0;
                            while k < vc.len()
                                invariant
                                    k <= vc.len(),
                                    out@ == before + vc@.take(k as int),
                                decreases vc.len() - k,
                            {
                                out.push(vc[k]);
                                assert(vc@.take(k + 1) =~= vc@.take(k as int).push(vc@[k as int]));
                                k += 1;
                            }
                            assert(vc@.take(vc.len() as int) =~= vc@);
                        },
                        ParamValue::Client(_) => {
                            proof {
                                lemma_substitute_err(ps, i + 1, params@);
                            }
                            return Err(string_of(&pieces[i]));
                        },
                    }
                },
                None => {
                    proof {
                        lemma_substitute_err(ps, i + 1, params@);
                    }
                    return Err(string_of(&pieces[i]));
                },
            }
        }
        i += 1;
    }
    assert(ps.take(pieces.len() as int) =~= ps);
    Ok(out)
}

/// The pattern of `strip_pattern`.
fn strip_pattern_text(name: &Vec<char>) -> (r: String)
    ensures
        r@ == strip_pattern(name@),
{
    let mut s = String::from_str(",\\s*");
    push_chars(&mut s, name);
    s.append("\\s*=\\s*\\?|");
    push_chars(&mut s, name);
    s.append("\\s*=\\s*\\?\\s*,?");
    s
}

/// Binds the client parameters (see `bind`).
fn bind_params<V>(
    names: &Vec<Vec<char>>,
    params: &Vec<(String, ParamValue<V>)>,
    method: HttpMethod,
    query: String,
) -> (r: Result<PreparedQuery, SqlExecError>)
    ensures
        match r {
            Ok(p) => bind(char_seqs(names@), params@, method, query@) == Ok::<(Seq<char>, Seq<int>), ExecFailure>(p@),
            Err(e) => bind(char_seqs(names@), params@, method, query@) == Err::<(Seq<char>, Seq<int>), ExecFailure>(e@),
        },
{
    let ghost ns = char_seqs(names@);
    let mut sql = query;
    let mut bindings: Vec<usize> = Vec::new();
    let mut i: usize = 0;
    assert(ns.take(0) =~= Seq::<Seq<char>>::empty());
    assert(bindings@.map_values(|k: usize| k as int) =~= Seq::<int>::empty());
    while i < names.len()
        invariant
            i <= names.len(),
            ns == char_seqs(names@),
            bind(ns.take(i as int), params@, method, query@) == Ok::<(Seq<char>, Seq<int>), ExecFailure>(
                (sql@, bindings@.map_values(|k: usize| k as int)),
            ),
        decreases names.len() - i,
    {
        proof {
            lemma_pieces_step(ns, i as int);
        }
        let name = &names[i];
        assert(ns[i as int] == name@);
        let found = find_param(params, name);
        proof {
            lemma_lookup_in_range(params@, name@);
        }
        let mut bound = false;
        if let Some(idx) = found {
            if let ParamValue::Client(Some(_)) = &params[idx].1 {
                let ghost before = bindings@.map_values(|k: usize| k as int);
                bindings.push(idx);
                assert(bindings@.map_values(|k: usize| k as int) =~= before.push(idx as int));
                bound = true;
            }
        }
        if !bound {
            if method == HttpMethod::Put {
                let pattern = strip_pattern_text(name);
                match CompiledPattern::compile(pattern) {
                    Ok(re) => {
                        sql = re.remove_all(sql.as_str());
                    },
                    Err(reason) => {
                        proof {
                            lemma_bind_err(ns, i + 1, params@, method, query@);
                        }
                        return Err(SqlExecError::InvalidStripPattern(string_of(name), reason));
                    },
                }
            } else {
                proof {
                    lemma_bind_err(ns, i + 1, params@, method, query@);
                }
                return Err(SqlExecError::MissingParam(string_of(name)));
            }
        }
        i += 1;
    }
    assert(ns.take(names.len() as int) =~= ns);
    Ok(PreparedQuery { sql, bindings })
}

/// The statement a query becomes for a request with method `method` and
/// parameters `params` (see `prepared`).
pub fn prepare_query<V>(query: &SQLQuery, method: HttpMethod, params: &Vec<(String, ParamValue<V>)>) -> (r: Result<PreparedQuery, SqlExecError>)
    ensures
        match r {
            Ok(p) => prepared(query@.query, method, params@) == Ok::<(Seq<char>, Seq<int>), ExecFailure>(p@),
            Err(e) => prepared(query@.query, method, params@) == Err::<(Seq<char>, Seq<int>), ExecFailure>(e@),
        },
{
    let text = chars_of(query.query().as_str());
    let names = placeholder_names(&text);
    let rewritten_text = rewrite_placeholders(&text);
    match substitute_runtime(&rewritten_text, params) {
        Err(piece) => Err(SqlExecError::MissingRuntimeParam(piece)),
        Ok(q) => bind_params(&names, params, method, string_of(&q)),
    }
}

/// The failure a query's rows give under its behaviour, if any.
pub open spec fn rows_failure(behaviour: SQLBehaviour, n: nat) -> Option<ExecFailure> {
    if behaviour == SQLBehaviour::FailOnEmpty && n == 0 {
        Some(ExecFailure::EmptyResult)
    } else if behaviour == SQLBehaviour::Unique && n >= 2 {
        Some(ExecFailure::NotUnique)
    } else {
        None
    }
}

/// What an included query contributes to the response.
#[derive(Debug)]
pub enum QueryOutput<R> {
    /// The one row of a `Unique` query.
    Row(R),
    /// A `Unique` query that returned no row.
    NoRow,
    /// The rows of any other query.
    Rows(Vec<R>),
}

pub enum OutputSpec<R> {
    Row(R),
    NoRow,
    Rows(Seq<R>),
}

impl<R> View for QueryOutput<R> {
    type V = OutputSpec<R>;

    open spec fn view(&self) -> OutputSpec<R> {
        match self {
            QueryOutput::Row(r) => OutputSpec::Row(*r),
            QueryOutput::NoRow => OutputSpec::NoRow,
            QueryOutput::Rows(rs) => OutputSpec::Rows(rs@),
        }
    }
}

pub open spec fn output_specs<R>(os: Seq<QueryOutput<R>>) -> Seq<OutputSpec<R>> {
    os.map_values(|o: QueryOutput<R>| o@)
}

/// What a query with `behaviour` that returned `rows` contributes when included.
pub open spec fn output_of<R>(behaviour: SQLBehaviour, rows: Seq<R>) -> OutputSpec<R> {
    if behaviour == SQLBehaviour::Unique {
        if rows.len() == 0 {
            OutputSpec::NoRow
        } else {
            OutputSpec::Row(rows[0])
        }
    } else {
        OutputSpec::Rows(rows)
    }
}

/// The contributions of the first `results.len()` queries, which returned
/// `results`: one per included query, in query order.
pub open spec fn outputs<R>(queries: Seq<SqlQuerySpec>, results: Seq<Seq<R>>) -> Seq<OutputSpec<R>>
    decreases results.len(),
{
    if results.len() == 0 {
        Seq::<OutputSpec<R>>::empty()
    } else {
        let k = results.len() - 1;
        let prev = outputs(queries, results.drop_last());
        if queries[k].included {
            prev.push(output_of(queries[k].behaviour, results[k]))
        } else {
            prev
        }
    }
}

/// The body of the response.
#[derive(Debug)]
pub enum ResponseBody<R> {
    /// No query is included: the response has no body.
    Empty,
    /// One query is included: its contribution is the body.
    One(QueryOutput<R>),
    /// Several queries are included: the body is the list of their contributions.
    Many(Vec<QueryOutput<R>>),
}

pub enum ResponseSpec<R> {
    Empty,
    One(OutputSpec<R>),
    Many(Seq<OutputSpec<R>>),
}

impl<R> View for ResponseBody<R> {
    type V = ResponseSpec<R>;

    open spec fn view(&self) -> ResponseSpec<R> {
        match self {
            ResponseBody::Empty => ResponseSpec::Empty,
            ResponseBody::One(o) => ResponseSpec::One(o@),
            ResponseBody::Many(os) => ResponseSpec::Many(output_specs(os@)),
        }
    }
}

/// The response that the contributions `outs` make.
pub open spec fn response_of<R>(outs: Seq<OutputSpec<R>>) -> ResponseSpec<R> {
    if outs.len() == 0 {
        ResponseSpec::Empty
    } else if outs.len() == 1 {
        ResponseSpec::One(outs[0])
    } else {
        ResponseSpec::Many(outs)
    }
}

/// Where a run stands.
#[derive(Clone, Copy, PartialEq, Eq, Structural, Debug)]
pub enum RunPhase {
    /// The next query may be prepared (or, when every query has run, the response made).
    Ready,
    /// The next query's statement was handed out; its rows (or its failure) are awaited.
    Running,
    /// A query failed: the request fails, and no further statement is handed out.
    Failed,
}

/// The queries of a request being run one after the other: which statement runs
/// next, and what the rows that came back make of the response. Each statement is
/// handed out once; the first failure ends the run.
pub struct SqlRun<R> {
    queries: Vec<SQLQuery>,
    method: HttpMethod,
    next: usize,
    phase: RunPhase,
    outputs: Vec<QueryOutput<R>>,
    results: Ghost<Seq<Seq<R>>>,
}

impl<R> SqlRun<R> {
    /// The queries being run.
    pub closed spec fn queries_spec(&self) -> Seq<SqlQuerySpec> {
        query_specs(self.queries@)
    }

    pub closed spec fn method_spec(&self) -> HttpMethod {
        self.method
    }

    /// Where the run stands.
    pub closed spec fn phase_spec(&self) -> RunPhase {
        self.phase
    }

    /// The rows each query that has run returned, in order.
    pub closed spec fn results(&self) -> Seq<Seq<R>> {
        self.results@
    }

    pub closed spec fn wf(&self) -> bool {
        &&& self.next as int == self.results@.len()
        &&& self.next <= self.queries@.len()
        &&& self.phase == RunPhase::Running ==> self.next < self.queries@.len()
        &&& output_specs(self.outputs@) == outputs(query_specs(self.queries@), self.results@)
    }

    /// Whether every query has run.
    pub open spec fn done(&self) -> bool {
        self.results().len() == self.queries_spec().len()
    }

    /// A run of `queries` for a request with `method`, before any query has run.
    pub fn new(queries: Vec<SQLQuery>, method: HttpMethod) -> (r: Self)
        ensures
            r.wf(),
            r.queries_spec() == query_specs(queries@),
            r.method_spec() == method,
            r.phase_spec() == RunPhase::Ready,
            r.results() == Seq::<Seq<R>>::empty(),
    {
        let r = SqlRun {
            queries,
            method,
            next: 0,
            phase: RunPhase::Ready,
            outputs: Vec::new(),
            results: Ghost(Seq::empty()),
        };
        assert(output_specs(r.outputs@) =~= Seq::<OutputSpec<R>>::empty());
        r
    }

    /// Whether every query has run.
    pub fn is_done(&self) -> (b: bool)
        requires
            self.wf(),
        ensures
            b == self.done(),
    {
        self.next == self.queries.len()
    }

    /// Where the run stands.
    pub fn phase(&self) -> (p: RunPhase)
        ensures
            p == self.phase_spec(),
    {
        self.phase
    }

    /// The statement the next query becomes for a request with `params`. It is
    /// handed out once: the run then awaits its rows. Where the statement cannot be
    /// made, the run has failed.
    pub fn prepare_next<V>(&mut self, params: &Vec<(String, ParamValue<V>)>) -> (r: Result<PreparedQuery, SqlExecError>)
        requires
            old(self).wf(),
            old(self).phase_spec() == RunPhase::Ready,
            !old(self).done(),
        ensures
            final(self).wf(),
            final(self).queries_spec() == old(self).queries_spec(),
            final(self).method_spec() == old(self).method_spec(),
            final(self).results() == old(self).results(),
            match r {
                Ok(p) => prepared(old(self).queries_spec()[old(self).results().len() as int].query, old(self).method_spec(), params@)
                    == Ok::<(Seq<char>, Seq<int>), ExecFailure>(p@)
                    && final(self).phase_spec() == RunPhase::Running,
                Err(e) => prepared(old(self).queries_spec()[old(self).results().len() as int].query, old(self).method_spec(), params@)
                    == Err::<(Seq<char>, Seq<int>), ExecFailure>(e@)
                    && final(self).phase_spec() == RunPhase::Failed,
            },
    {
        let ghost qs = query_specs(self.queries@);
        assert(qs.len() == self.queries@.len());
        let r = prepare_query(&self.queries[self.next], self.method, params);
        match r {
            Ok(p) => {
                self.phase = RunPhase::Running;
                Ok(p)
            },
            Err(e) => {
                self.phase = RunPhase::Failed;
                Err(e)
            },
        }
    }

    /// The statement handed out failed in the database: the run has failed, with the
    /// database's message.
    pub fn fail_query(&mut self, db_message: String) -> (e: SqlExecError)
        requires
            old(self).wf(),
            old(self).phase_spec() == RunPhase::Running,
        ensures
            final(self).wf(),
            final(self).queries_spec() == old(self).queries_spec(),
            final(self).method_spec() == old(self).method_spec(),
            final(self).results() == old(self).results(),
            final(self).phase_spec() == RunPhase::Failed,
            e@ == ExecFailure::QueryFailed(db_message@),
    {
        self.phase = RunPhase::Failed;
        SqlExecError::QueryFailed(db_message)
    }

    /// Takes the rows the statement handed out returned. They fail the request where
    /// they break the query's behaviour (and the run has failed); otherwise the
    /// query has run and the run moves on to the next one.
    pub fn record(&mut self, rows: Vec<R>) -> (r: Result<(), SqlExecError>)
        requires
            old(self).wf(),
            old(self).phase_spec() == RunPhase::Running,
        ensures
            final(self).wf(),
            final(self).queries_spec() == old(self).queries_spec(),
            final(self).method_spec() == old(self).method_spec(),
            !old(self).done(),
            match rows_failure(
                old(self).queries_spec()[old(self).results().len() as int].behaviour,
                rows@.len(),
            ) {
                Some(f) => r matches Err(e) && e@ == f && final(self).results() == old(self).results()
                    && final(self).phase_spec() == RunPhase::Failed,
                None => r is Ok && final(self).results() == old(self).results().push(rows@)
                    && final(self).phase_spec() == RunPhase::Ready,
            },
    {
        let ghost qs = query_specs(self.queries@);
        let ghost k = self.next as int;
        assert(qs.len() == self.queries@.len());
        assert(qs[k] == self.queries@[k]@);
        let n = self.next;
        assert(n < self.queries.len());
        let behaviour = *self.queries[self.next].behaviour();
        let included = *self.queries[self.next].included();
        if behaviour == SQLBehaviour::FailOnEmpty && rows.len() == 0 {
            self.phase = RunPhase::Failed;
            return Err(SqlExecError::EmptyResult);
        }
        if behaviour == SQLBehaviour::Unique && rows.len() >= 2 {
            self.phase = RunPhase::Failed;
            return Err(SqlExecError::NotUnique);
        }
        let ghost rows_seq = rows@;
        let ghost before = output_specs(self.outputs@);
        let ghost new_results = self.results@.push(rows_seq);
        assert(new_results.drop_last() =~= self.results@);
        if included {
            let out = if behaviour == SQLBehaviour::Unique {
                let mut rows = rows;
                match rows.pop() {
                    Some(row) => QueryOutput::Row(row),
                    None => QueryOutput::NoRow,
                }
            } else {
                QueryOutput::Rows(rows)
            };
            assert(out@ == output_of(behaviour, rows_seq));
            self.outputs.push(out);
            assert(output_specs(self.outputs@) =~= before.push(out@));
        }
        self.next = n + 1;
        self.phase = RunPhase::Ready;
        self.results = Ghost(new_results);
        Ok(())
    }

    /// The response, once every query has run.
    pub fn finish(self) -> (r: ResponseBody<R>)
        requires
            self.wf(),
            self.phase_spec() == RunPhase::Ready,
            self.done(),
        ensures
            r@ == response_of(outputs(self.queries_spec(), self.results())),
    {
        let mut os = self.outputs;
        if os.len() == 0 {
            ResponseBody::Empty
        } else if os.len() == 1 {
            let o = os.pop().unwrap();
            ResponseBody::One(o)
        } else {
            ResponseBody::Many(os)
        }
    }
}

/// `outputs` holds nothing exactly when no query that ran is included.
proof fn lemma_outputs_empty<R>(queries: Seq<SqlQuerySpec>, results: Seq<Seq<R>>)
    requires
        results.len() <= queries.len(),
    ensures
        (outputs(queries, results).len() == 0) <==> (forall|k: int|
            0 <= k < results.len() ==> !(#[trigger] queries[k]).included),
    decreases results.len(),
{
    if results.len() > 0 {
        lemma_outputs_empty(queries, results.drop_last());
        let n = results.len() - 1;
        if outputs(queries, results).len() == 0 {
            assert forall|k: int| 0 <= k < results.len() implies !(#[trigger] queries[k]).included by {
                if k < n {
                    assert(outputs(queries, results.drop_last()).len() == 0);
                }
            }
        }
    }
}

/// A query that is not `Unique` contributes every row it returned, in order; a
/// `Unique` query contributes its one row, or nothing where it returned none.
pub proof fn law_rows_kept_whole<R>(behaviour: SQLBehaviour, rows: Seq<R>)
    ensures
        behaviour != SQLBehaviour::Unique ==> output_of(behaviour, rows) == OutputSpec::Rows(rows),
        behaviour == SQLBehaviour::Unique && rows.len() == 1 ==> output_of(behaviour, rows)
            == OutputSpec::Row(rows[0]),
        behaviour == SQLBehaviour::Unique && rows.len() == 0 ==> output_of(behaviour, rows)
            == OutputSpec::<R>::NoRow,
{
}

/// A request whose one query is included and not `Unique` answers with exactly the
/// rows that query returned.
pub proof fn law_one_query_answers_its_rows<R>(q: SqlQuerySpec, rows: Seq<R>)
    requires
        q.included,
        q.behaviour != SQLBehaviour::Unique,
    ensures
        response_of(outputs(seq![q], seq![rows])) == ResponseSpec::One(OutputSpec::Rows(rows)),
{
    assert(seq![rows].drop_last() =~= Seq::<Seq<R>>::empty());
    assert(outputs(seq![q], Seq::<Seq<R>>::empty()) == Seq::<OutputSpec<R>>::empty());
    assert(outputs(seq![q], seq![rows]) =~= seq![OutputSpec::Rows(rows)]);
}

/// A runtime parameter's value is the text injected under the first parameter with
/// its name; there is none where no parameter has the name or the first one with it
/// came from the client.
pub proof fn law_runtime_value_is_first_injected<V>(params: Seq<(String, ParamValue<V>)>, key: Seq<char>, i: int)
    requires
        0 <= i < params.len(),
        params[i].0@ == key,
        forall|j: int| 0 <= j < i ==> (#[trigger] params[j]).0@ != key,
    ensures
        internal_value(params, key) == (match params[i].1 {
            ParamValue::Internal(v) => Some(v@),
            ParamValue::Client(_) => None::<Seq<char>>,
        }),
{
    crate::request::law_lookup_finds_first(params, key);
    match lookup(params, key) {
        Some(k) => {
            if k < i {
                assert(params[k].0@ != key);
            }
            if k > i {
                assert(params[i].0@ != key);
            }
        },
        None => {
            assert(params[i].0@ != key);
        },
    }
}

/// With every query that ran included, the response's parts are one per query, in
/// query order, each what that query's rows make under its behaviour.
pub proof fn law_outputs_in_query_order<R>(queries: Seq<SqlQuerySpec>, results: Seq<Seq<R>>)
    requires
        results.len() <= queries.len(),
        forall|k: int| 0 <= k < results.len() ==> (#[trigger] queries[k]).included,
    ensures
        outputs(queries, results).len() == results.len(),
        forall|k: int|
            0 <= k < results.len() ==> (#[trigger] outputs(queries, results)[k]) == output_of(
                queries[k].behaviour,
                results[k],
            ),
    decreases results.len(),
{
    if results.len() > 0 {
        let init = results.drop_last();
        assert forall|k: int| 0 <= k < init.len() implies (#[trigger] queries[k]).included by {}
        law_outputs_in_query_order(queries, init);
        let prev = outputs(queries, init);
        let n = results.len() - 1;
        assert(queries[n].included);
        let all = prev.push(output_of(queries[n].behaviour, results[n]));
        assert(outputs(queries, results) == all);
        assert forall|k: int| 0 <= k < results.len() implies (#[trigger] outputs(queries, results)[k])
            == output_of(queries[k].behaviour, results[k]) by {
            if k < n {
                assert(all[k] == prev[k]);
                assert(init[k] == results[k]);
            }
        }
    }
}

/// A template is a single piece: with no `|`, it is kept as it is.
/// Each further pair of pieces is a runtime parameter's name followed by text: the
/// name (trimmed) is replaced by the value injected under it, and the text is kept,
/// whatever came before; a name with no injected value is the error.
pub proof fn law_runtime_values_spliced<V>(
    ps: Seq<Seq<char>>,
    name: Seq<char>,
    text: Seq<char>,
    params: Seq<(String, ParamValue<V>)>,
)
    requires
        ps.len() % 2 == 1,
    ensures
        ps.len() == 1 ==> substitute(ps, params) == Ok::<Seq<char>, Seq<char>>(ps[0]),
        substitute(ps, params) matches Ok(done) ==> match internal_value(params, trim(name, false)) {
            Some(v) => substitute(ps.push(name).push(text), params) == Ok::<Seq<char>, Seq<char>>(
                done + v + text,
            ),
            None => substitute(ps.push(name).push(text), params) == Err::<Seq<char>, Seq<char>>(name),
        },
        substitute(ps, params) matches Err(e) ==> substitute(ps.push(name).push(text), params)
            == Err::<Seq<char>, Seq<char>>(e),
{
    if ps.len() == 1 {
        assert(ps.drop_last() =~= Seq::<Seq<char>>::empty());
        assert(substitute(Seq::<Seq<char>>::empty(), params) == Ok::<Seq<char>, Seq<char>>(Seq::<char>::empty()));
        assert(Seq::<char>::empty() + ps.last() =~= ps[0]);
    }
    let a = ps.push(name);
    let b = a.push(text);
    assert(b.drop_last() =~= a);
    assert(a.drop_last() =~= ps);
    assert(b.last() == text && a.last() == name);
    assert((b.len() - 1) % 2 == 0);
    assert((a.len() - 1) % 2 == 1);
    match substitute(ps, params) {
        Ok(done) => {
            match internal_value(params, trim(name, false)) {
                Some(v) => {
                    assert(substitute(a, params) == Ok::<Seq<char>, Seq<char>>(done + v));
                },
                None => {
                    assert(substitute(a, params) == Err::<Seq<char>, Seq<char>>(name));
                },
            }
        },
        Err(e) => {
            assert(substitute(a, params) == Err::<Seq<char>, Seq<char>>(e));
        },
    }
}

/// If no query is marked to be included in the response, the response has no body;
/// and it has one exactly when some query that ran is included.
pub proof fn law_no_included_no_body<R>(queries: Seq<SqlQuerySpec>, results: Seq<Seq<R>>)
    requires
        results.len() <= queries.len(),
    ensures
        (response_of(outputs(queries, results)) is Empty) <==> (forall|k: int|
            0 <= k < results.len() ==> !(#[trigger] queries[k]).included),
{
    lemma_outputs_empty(queries, results);
}

/// The queries of a wrapper built with `with_include(false)` answer with no body,
/// whatever rows they return.
pub proof fn law_excluded_queries_answer_without_body<R>(w: WrapperSpec, results: Seq<Seq<R>>)
    requires
        results.len() <= w.with_include(false).queries().len(),
    ensures
        response_of(outputs(w.with_include(false).queries(), results)) is Empty,
{
    law_options_reach_every_query(w, false, SQLBehaviour::Permissive);
    law_no_included_no_body(w.with_include(false).queries(), results);
}

/// Every character of a piece of a split is a character of the text.
proof fn lemma_split_chars_from(s: Seq<char>, sep: char, i: int, c: char)
    requires
        0 <= i < split(s, sep).len(),
        split(s, sep)[i].contains(c),
    ensures
        s.contains(c),
    decreases s.len(),
{
    if s.len() == 0 {
    } else {
        let init = split(s.drop_last(), sep);
        lemma_split_nonempty(s.drop_last(), sep);
        if s.last() == sep {
            if i < init.len() {
                lemma_split_chars_from(s.drop_last(), sep, i, c);
            }
        } else {
            if i < init.len() - 1 {
                lemma_split_chars_from(s.drop_last(), sep, i, c);
            } else {
                let p = init.last().push(s.last());
                let j = choose|j: int| 0 <= j < p.len() && p[j] == c;
                if j == p.len() - 1 {
                    assert(s[s.len() - 1] == c);
                } else {
                    assert(init.last()[j] == c);
                    lemma_split_chars_from(s.drop_last(), sep, init.len() - 1, c);
                }
            }
        }
        if s.drop_last().contains(c) {
            let j = choose|j: int| 0 <= j < s.drop_last().len() && s.drop_last()[j] == c;
            assert(s[j] == c);
        }
    }
}

/// Every character of a concatenation comes from one of its pieces.
proof fn lemma_concat_chars_from(ps: Seq<Seq<char>>, c: char)
    requires
        concat(ps).contains(c),
    ensures
        exists|i: int| 0 <= i < ps.len() && (#[trigger] ps[i]).contains(c),
    decreases ps.len(),
{
    if ps.len() > 0 {
        let pre = concat(ps.drop_last());
        let j = choose|j: int| 0 <= j < concat(ps).len() && concat(ps)[j] == c;
        if j < pre.len() {
            assert(pre[j] == c);
            lemma_concat_chars_from(ps.drop_last(), c);
            let i = choose|i: int| 0 <= i < ps.drop_last().len() && (#[trigger] ps.drop_last()[i]).contains(c);
            assert(ps[i] == ps.drop_last()[i]);
        } else {
            assert(ps.last()[j - pre.len()] == c);
            assert(ps[ps.len() - 1].contains(c));
        }
    }
}

/// Rewriting placeholders brings in no character but `?`.
proof fn lemma_rewritten_chars_from(text: Seq<char>, c: char)
    requires
        rewritten(text).contains(c),
        c != '?',
    ensures
        text.contains(c),
{
    let segs = split(text, '{');
    let rs = segs.map_values(|seg: Seq<char>| rewrite_segment(seg));
    lemma_concat_chars_from(rs, c);
    let i = choose|i: int| 0 <= i < rs.len() && (#[trigger] rs[i]).contains(c);
    let seg = segs[i];
    assert(rs[i] == rewrite_segment(seg));
    if split(seg, '}').len() > 1 {
        lemma_split_first_len(seg, '}');
        let start = split(seg, '}')[0].len() as int;
        let m = marks(seg.skip(start));
        let j = choose|j: int| 0 <= j < m.len() && m[j] == c;
        assert(seg.skip(start)[j] == c);
        assert(seg[start + j] == c);
    }
    lemma_split_chars_from(text, '{', i, c);
}

/// Runtime splicing leaves a statement without `|` as it is.
pub proof fn lemma_substitute_plain<V>(q: Seq<char>, params: Seq<(String, ParamValue<V>)>)
    requires
        !q.contains('|'),
    ensures
        substitute(split(q, '|'), params) == Ok::<Seq<char>, Seq<char>>(q),
{
    lemma_split_without_sep(q, '|');
    let ps = split(q, '|');
    assert(ps.drop_last() =~= Seq::<Seq<char>>::empty());
    assert(substitute(ps.drop_last(), params) == Ok::<Seq<char>, Seq<char>>(Seq::<char>::empty()));
    assert(ps.last() == q);
    assert(Seq::<char>::empty() + q =~= q);
}

/// When the client sent a value for every name, binding keeps the statement and
/// binds the names' values in order.
pub proof fn law_bound_in_order<V>(
    names: Seq<Seq<char>>,
    params: Seq<(String, ParamValue<V>)>,
    method: HttpMethod,
    query: Seq<char>,
)
    requires
        forall|k: int| 0 <= k < names.len() ==> (#[trigger] client_index(params, names[k])) is Some,
    ensures
        bind(names, params, method, query) == Ok::<(Seq<char>, Seq<int>), ExecFailure>(
            (query, names.map_values(|n: Seq<char>| client_index(params, n)->0)),
        ),
    decreases names.len(),
{
    if names.len() == 0 {
        assert(names.map_values(|n: Seq<char>| client_index(params, n)->0) =~= Seq::<int>::empty());
    } else {
        assert forall|k: int| 0 <= k < names.drop_last().len() implies (#[trigger] client_index(
            params,
            names.drop_last()[k],
        )) is Some by {
            assert(names.drop_last()[k] == names[k]);
        }
        law_bound_in_order(names.drop_last(), params, method, query);
        assert(client_index(params, names[names.len() - 1]) is Some);
        let i = client_index(params, names.last())->0;
        assert(client_index(params, names.last()) == Some(i));
        assert(names.drop_last().map_values(|n: Seq<char>| client_index(params, n)->0).push(
            client_index(params, names.last())->0,
        ) =~= names.map_values(|n: Seq<char>| client_index(params, n)->0));
    }
}

/// A template without `|`, all of whose client parameters were sent with a value,
/// becomes its text with every placeholder turned into `?`, and the values of the
/// placeholders' parameters are bound in the order the placeholders appear.
pub proof fn law_placeholders_bound_in_order<V>(
    text: Seq<char>,
    method: HttpMethod,
    params: Seq<(String, ParamValue<V>)>,
)
    requires
        !text.contains('|'),
        forall|k: int|
            0 <= k < params_order(text).len() ==> (#[trigger] client_index(params, params_order(text)[k])) is Some,
    ensures
        prepared(text, method, params) == Ok::<(Seq<char>, Seq<int>), ExecFailure>(
            (
                rewritten(text),
                params_order(text).map_values(|n: Seq<char>| client_index(params, n)->0),
            ),
        ),
{
    assert(!rewritten(text).contains('|')) by {
        if rewritten(text).contains('|') {
            lemma_rewritten_chars_from(text, '|');
        }
    }
    lemma_substitute_plain(rewritten(text), params);
    law_bound_in_order(params_order(text), params, method, rewritten(text));
}

/// A statement without `{`, `}` or `|` runs as it is written, with no bound value.
pub proof fn law_plain_statement_as_written<V>(
    text: Seq<char>,
    method: HttpMethod,
    params: Seq<(String, ParamValue<V>)>,
)
    requires
        !text.contains('{'),
        !text.contains('}'),
        !text.contains('|'),
    ensures
        prepared(text, method, params) == Ok::<(Seq<char>, Seq<int>), ExecFailure>(
            (text, Seq::<int>::empty()),
        ),
{
    lemma_split_without_sep(text, '{');
    lemma_split_without_sep(text, '}');
    let rs = split(text, '{').map_values(|seg: Seq<char>| rewrite_segment(seg));
    assert(split(text, '}').len() == 1);
    assert(rewrite_segment(text) == text);
    assert(rs =~= seq![text]);
    assert(rs.drop_last() =~= Seq::<Seq<char>>::empty());
    assert(concat(rs.drop_last()) == Seq::<char>::empty());
    assert(rs.last() == text);
    assert(Seq::<char>::empty() + text =~= text);
    assert(rewritten(text) == text);
    assert(split(text, '{').drop_first().map_values(|seg: Seq<char>| placeholder(seg)) =~= Seq::<
        Seq<char>,
    >::empty());
    assert(params_order(text) == Seq::<Seq<char>>::empty());
    lemma_substitute_plain(text, params);
}

} // verus!

verus! {

/// Two parameters of the same kind: the same runtime text, or both client
/// parameters with a value, or both without one.
pub open spec fn same_kind<V>(a: ParamValue<V>, b: ParamValue<V>) -> bool {
    match (a, b) {
        (ParamValue::Internal(x), ParamValue::Internal(y)) => x@ == y@,
        (ParamValue::Client(None), ParamValue::Client(None)) => true,
        (ParamValue::Client(Some(_)), ParamValue::Client(Some(_))) => true,
        _ => false,
    }
}

/// Two requests' parameters that differ at most in the values the client sent.
pub open spec fn differ_in_client_values<V>(p1: Seq<(String, ParamValue<V>)>, p2: Seq<(String, ParamValue<V>)>) -> bool {
    &&& p1.len() == p2.len()
    &&& forall|i: int| 0 <= i < p1.len() ==> (#[trigger] p1[i]).0@ == p2[i].0@ && same_kind(p1[i].1, p2[i].1)
}

proof fn lemma_lookup_same<V>(p1: Seq<(String, ParamValue<V>)>, p2: Seq<(String, ParamValue<V>)>, key: Seq<char>)
    requires
        differ_in_client_values(p1, p2),
    ensures
        lookup(p1, key) == lookup(p2, key),
    decreases p1.len(),
{
    if p1.len() > 0 {
        assert forall|i: int| 0 <= i < p1.drop_last().len() implies (#[trigger] p1.drop_last()[i]).0@
            == p2.drop_last()[i].0@ && same_kind(p1.drop_last()[i].1, p2.drop_last()[i].1) by {
            assert(p1.drop_last()[i] == p1[i]);
            assert(p2.drop_last()[i] == p2[i]);
        }
        lemma_lookup_same(p1.drop_last(), p2.drop_last(), key);
        assert(p1[p1.len() - 1].0@ == p2[p2.len() - 1].0@);
    }
}

proof fn lemma_values_same<V>(p1: Seq<(String, ParamValue<V>)>, p2: Seq<(String, ParamValue<V>)>, key: Seq<char>)
    requires
        differ_in_client_values(p1, p2),
    ensures
        internal_value(p1, key) == internal_value(p2, key),
        client_index(p1, key) == client_index(p2, key),
{
    lemma_lookup_same(p1, p2, key);
    lemma_lookup_in_range(p1, key);
    if let Some(i) = lookup(p1, key) {
        assert(same_kind(p1[i].1, p2[i].1));
    }
}

proof fn lemma_substitute_same<V>(pieces: Seq<Seq<char>>, p1: Seq<(String, ParamValue<V>)>, p2: Seq<(String, ParamValue<V>)>)
    requires
        differ_in_client_values(p1, p2),
    ensures
        substitute(pieces, p1) == substitute(pieces, p2),
    decreases pieces.len(),
{
    if pieces.len() > 0 {
        lemma_substitute_same(pieces.drop_last(), p1, p2);
        lemma_values_same(p1, p2, trim(pieces.last(), false));
    }
}

proof fn lemma_bind_same<V>(
    names: Seq<Seq<char>>,
    p1: Seq<(String, ParamValue<V>)>,
    p2: Seq<(String, ParamValue<V>)>,
    method: HttpMethod,
    query: Seq<char>,
)
    requires
        differ_in_client_values(p1, p2),
    ensures
        bind(names, p1, method, query) == bind(names, p2, method, query),
    decreases names.len(),
{
    if names.len() > 0 {
        lemma_bind_same(names.drop_last(), p1, p2, method, query);
        lemma_values_same(p1, p2, names.last());
    }
}

/// The values a client sends never reach the statement's text: two requests whose
/// parameters differ only in the client's values get the same statement, bind the
/// same parameters, and fail the same way. Client values are only ever bound.
pub proof fn law_client_values_never_reach_the_statement<V>(
    text: Seq<char>,
    method: HttpMethod,
    p1: Seq<(String, ParamValue<V>)>,
    p2: Seq<(String, ParamValue<V>)>,
)
    requires
        differ_in_client_values(p1, p2),
    ensures
        prepared(text, method, p1) == prepared(text, method, p2),
{
    lemma_substitute_same(split(rewritten(text), '|'), p1, p2);
    lemma_bind_same(params_order(text), p1, p2, method, match substitute(split(rewritten(text), '|'), p1) {
        Ok(q) => q,
        Err(_) => Seq::<char>::empty(),
    });
}

} // verus!
