//! What the authentication, session and role methods send to the database and
//! how they read what comes back.
use vstd::prelude::*;

use crate::text::{decimal, digit_char, has_infix, join, push_chars};
use vstd::string::StringExecFns;

verus! {

/// The earliest instant `chrono::NaiveDateTime` can hold (January 1, 262144 BCE),
/// in seconds from the Unix epoch.
pub const MIN_DATETIME_SECS: i64 = -8334601315200i64;

/// The last second `chrono::NaiveDateTime` can hold (December 31, 262142),
/// in seconds from the Unix epoch.
pub const MAX_DATETIME_SECS: i64 = 8210266876799i64;

/// A date and time (UTC), as seconds and nanoseconds from the Unix epoch.
#[derive(Clone, Copy, Debug, PartialEq, Eq, Structural)]
pub struct Timestamp {
    pub secs: i64,
    pub nanos: u32,
}

impl Timestamp {
    /// Whether `chrono::NaiveDateTime` can hold the instant (leap seconds left out).
    pub open spec fn valid(self) -> bool {
        &&& MIN_DATETIME_SECS <= self.secs <= MAX_DATETIME_SECS
        &&& self.nanos < 1_000_000_000
    }

    /// The instant, in nanoseconds from the Unix epoch.
    pub open spec fn instant(self) -> int {
        self.secs * 1_000_000_000 + self.nanos
    }
}

/// A value bound to a `?` of a statement.
#[derive(Debug)]
pub enum SqlValue {
    Text(String),
    Unsigned(u32),
    DateTime(Timestamp),
}

pub enum ValueSpec {
    Text(Seq<char>),
    Unsigned(u32),
    DateTime(Timestamp),
}

impl View for SqlValue {
    type V = ValueSpec;

    open spec fn view(&self) -> ValueSpec {
        match self {
            SqlValue::Text(s) => ValueSpec::Text(s@),
            SqlValue::Unsigned(u) => ValueSpec::Unsigned(*u),
            SqlValue::DateTime(t) => ValueSpec::DateTime(*t),
        }
    }
}

pub open spec fn value_specs(vs: Seq<SqlValue>) -> Seq<ValueSpec> {
    vs.map_values(|v: SqlValue| v@)
}

/// A statement and the values bound to its `?`s, in order.
#[derive(Debug)]
pub struct Statement {
    pub sql: String,
    pub values: Vec<SqlValue>,
}

pub struct StatementSpec {
    pub sql: Seq<char>,
    pub values: Seq<ValueSpec>,
}

impl View for Statement {
    type V = StatementSpec;

    open spec fn view(&self) -> StatementSpec {
        StatementSpec { sql: self.sql@, values: value_specs(self.values@) }
    }
}

/// The column type a method expects of a field, as its error names it.
#[derive(Clone, Copy, Debug, PartialEq, Eq, Structural)]
pub enum ColumnType {
    IntUnsigned,
    DateTime,
    Varchar,
}

/// Why an authentication, session or role method failed.
#[derive(Debug)]
pub enum AuthError {
    /// The request lacks the entry a field names.
    FieldNotFound(String),
    /// The database returned nothing where a row was expected.
    UnexpectedOutput,
    /// A row lacks the field, or holds it with another type.
    UnexpectedColumn { field: String, table: String, expected: ColumnType },
    /// Signing up failed because an account with the same unique fields exists.
    DuplicateAccount,
    /// The statement failed in the database (with the database's message).
    QueryFailed(String),
}

pub enum AuthFailure {
    FieldNotFound(Seq<char>),
    UnexpectedOutput,
    UnexpectedColumn { field: Seq<char>, table: Seq<char>, expected: ColumnType },
    DuplicateAccount,
    QueryFailed(Seq<char>),
}

impl View for AuthError {
    type V = AuthFailure;

    open spec fn view(&self) -> AuthFailure {
        match self {
            AuthError::FieldNotFound(f) => AuthFailure::FieldNotFound(f@),
            AuthError::UnexpectedOutput => AuthFailure::UnexpectedOutput,
            AuthError::UnexpectedColumn { field, table, expected } => AuthFailure::UnexpectedColumn {
                field: field@,
                table: table@,
                expected: *expected,
            },
            AuthError::DuplicateAccount => AuthFailure::DuplicateAccount,
            AuthError::QueryFailed(m) => AuthFailure::QueryFailed(m@),
        }
    }
}

pub open spec fn string_seqs(v: Seq<String>) -> Seq<Seq<char>> {
    v.map_values(|s: String| s@)
}

/// The value of the first request entry named `key`.
pub open spec fn entry_value(entries: Seq<(String, String)>, key: Seq<char>) -> Option<Seq<char>>
    decreases entries.len(),
{
    if entries.len() == 0 {
        None
    } else {
        match entry_value(entries.drop_last(), key) {
            Some(v) => Some(v),
            None => if entries.last().0@ == key {
                Some(entries.last().1@)
            } else {
                None
            },
        }
    }
}

pub(crate) fn str_eq(a: &str, b: &str) -> (r: bool)
    ensures
        r == (a@ == b@),
{
    let x = crate::text::chars_of(a);
    let y = crate::text::chars_of(b);
    crate::request::chars_eq(&x, &y)
}

/// The value of the first request entry named `key`.
pub fn find_entry(entries: &Vec<(String, String)>, key: &String) -> (r: Option<String>)
    ensures
        r.deep_view() == entry_value(entries@, key@),
{
    let mut i: usize = 0;
    assert(entries@.take(0) =~= Seq::<(String, String)>::empty());
    while i < entries.len()
        invariant
            i <= entries.len(),
            entry_value(entries@.take(i as int), key@) is None,
        decreases entries.len() - i,
    {
        assert(entries@.take(i + 1).drop_last() =~= entries@.take(i as int));
        if str_eq(entries[i].0.as_str(), key.as_str()) {
            proof {
                lemma_entry_prefix(entries@, key@, i as int);
            }
            return Some(entries[i].1.clone());
        }
        i += 1;
    }
    assert(entries@.take(entries.len() as int) =~= entries@);
    None
}

proof fn lemma_entry_prefix(entries: Seq<(String, String)>, key: Seq<char>, i: int)
    requires
        0 <= i < entries.len(),
        entry_value(entries.take(i), key) is None,
        entries[i].0@ == key,
    ensures
        entry_value(entries, key) == Some(entries[i].1@),
    decreases entries.len(),
{
    assert(entries.take(i + 1).drop_last() =~= entries.take(i));
    if entries.len() > i + 1 {
        assert(entries.drop_last().take(i) =~= entries.take(i));
        lemma_entry_prefix(entries.drop_last(), key, i);
    } else {
        assert(entries.take(i + 1) =~= entries);
    }
}

fn digit(d: usize) -> (c: char)
    requires
        d < 10,
    ensures
        c == digit_char(d as nat),
{
    if d == 0 { '0' }
    else if d == 1 { '1' }
    else if d == 2 { '2' }
    else if d == 3 { '3' }
    else if d == 4 { '4' }
    else if d == 5 { '5' }
    else if d == 6 { '6' }
    else if d == 7 { '7' }
    else if d == 8 { '8' }
    else { '9' }
}

/// `n` written in decimal, as `usize::to_string` writes it.
pub fn decimal_text(n: usize) -> (s: String)
    ensures
        s@ == decimal(n as nat),
    decreases n,
{
    if n < 10 {
        let mut s = String::new();
        s.push(digit(n));
        assert(s@ =~= seq![digit_char(n as nat)]);
        s
    } else {
        let mut s = decimal_text(n / 10);
        s.push(digit(n % 10));
        s
    }
}

/// The strings with `sep` between each two of them.
pub fn join_strings(items: &Vec<String>, sep: &str) -> (r: String)
    ensures
        r@ == join(string_seqs(items@), sep@),
{
    let ghost ss = string_seqs(items@);
    let mut r = String::new();
    let mut i: usize = 0;
    assert(ss.take(0) =~= Seq::<Seq<char>>::empty());
    while i < items.len()
        invariant
            i <= items.len(),
            ss == string_seqs(items@),
            r@ == join(ss.take(i as int), sep@),
        decreases items.len() - i,
    {
        assert(ss.take(i + 1).drop_last() =~= ss.take(i as int));
        assert(ss[i as int] == items@[i as int]@);
        if i == 0 {
            assert(ss.take(1) =~= seq![ss[0]]);
            r.append(items[i].as_str());
            assert(r@ =~= ss[0]);
        } else {
            r.append(sep);
            r.append(items[i].as_str());
        }
        i += 1;
    }
    assert(ss.take(items.len() as int) =~= ss);
    r
}

/// `n` question marks with `", "` between them.
pub open spec fn marks_list(n: nat) -> Seq<char> {
    join(Seq::new(n, |i: int| "?"@), ", "@)
}

pub fn marks_text(n: usize) -> (r: String)
    ensures
        r@ == marks_list(n as nat),
{
    let ghost ms = Seq::new(n as nat, |i: int| "?"@);
    let mut r = String::new();
    let mut i: usize = 0;
    assert(ms.take(0) =~= Seq::<Seq<char>>::empty());
    while i < n
        invariant
            i <= n,
            ms == Seq::new(n as nat, |i: int| "?"@),
            r@ == join(ms.take(i as int), ", "@),
        decreases n - i,
    {
        assert(ms.take(i + 1).drop_last() =~= ms.take(i as int));
        if i == 0 {
            assert(ms.take(1) =~= seq!["?"@]);
            r.append("?");
            assert(r@ =~= "?"@);
        } else {
            r.append(", ");
            r.append("?");
        }
        i += 1;
    }
    assert(ms.take(n as int) =~= ms);
    r
}

/// What reading the user id of the first row gives: no row means no user.
pub open spec fn user_outcome(row: Option<Option<u32>>, user_id_field: Seq<char>, table: Seq<char>) -> Result<Option<usize>, AuthFailure> {
    match row {
        None => Ok(None),
        Some(None) => Err(AuthFailure::UnexpectedColumn { field: user_id_field, table, expected: ColumnType::IntUnsigned }),
        Some(Some(id)) => Ok(Some(id as usize)),
    }
}

/// Reads the user id of the first row (`row` is `None` where no row came back, and
/// `Some(None)` where the row holds no `INT UNSIGNED` user id).
pub fn read_user(row: Option<Option<u32>>, user_id_field: &String, table: &String) -> (r: Result<Option<usize>, AuthError>)
    ensures
        match r {
            Ok(v) => user_outcome(row, user_id_field@, table@) == Ok::<Option<usize>, AuthFailure>(v),
            Err(e) => user_outcome(row, user_id_field@, table@) == Err::<Option<usize>, AuthFailure>(e@),
        },
{
    match row {
        None => Ok(None),
        Some(None) => Err(AuthError::UnexpectedColumn {
            field: user_id_field.clone(),
            table: table.clone(),
            expected: ColumnType::IntUnsigned,
        }),
        Some(Some(id)) => Ok(Some(id as usize)),
    }
}

} // verus!
