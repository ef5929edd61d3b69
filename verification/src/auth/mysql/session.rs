//! Sessions kept as random tokens in a MySQL table.
use vstd::prelude::*;

use crate::auth::mysql::{databases_list, databases_of};
use crate::auth::statement::{
    decimal_text, string_seqs, AuthError, AuthFailure, ColumnType, SqlValue, Statement,
    StatementSpec, Timestamp, ValueSpec, MAX_DATETIME_SECS,
};
use crate::text::decimal;
use rand::distr::SampleString;
use vstd::string::StringExecFns;

verus! {

/// The length of a session token.
pub const TOKEN_LEN: usize = 32usize;

/// An ASCII letter or digit.
pub open spec fn is_alphanumeric(c: char) -> bool {
    let u = c as u32;
    (0x30 <= u <= 0x39) || (0x41 <= u <= 0x5a) || (0x61 <= u <= 0x7a)
}

/// Calls `rand::distr::Alphanumeric.sample_string(&mut rand::rng(), len)`: `len`
/// characters, each an ASCII letter or digit. Which ones is left to chance.
#[verifier::external_body]
pub(crate) fn random_alphanumeric(len: usize) -> (s: String)
    ensures
        s@.len() == len,
        forall|i: int| 0 <= i < s@.len() ==> is_alphanumeric(#[trigger] s@[i]),
{
    rand::distr::Alphanumeric.sample_string(&mut rand::rng(), len)
}

/// What `chrono::NaiveDateTime`'s `Display` writes for the instant `secs`, `nanos`
/// from the Unix epoch (`YYYY-MM-DD HH:MM:SS` with the fraction where there is one).
pub uninterp spec fn naive_datetime_text(secs: i64, nanos: u32) -> Seq<char>;

/// Calls `chrono::DateTime::from_timestamp(secs, nanos)` and writes its UTC date
/// and time with `chrono::NaiveDateTime`'s `Display`. For a valid timestamp
/// `from_timestamp` gives `Some`.
#[verifier::external_body]
pub(crate) fn datetime_text(t: Timestamp) -> (r: String)
    requires
        t.valid(),
    ensures
        r@ == naive_datetime_text(t.secs, t.nanos),
{
    chrono::DateTime::from_timestamp(t.secs, t.nanos).expect("a valid timestamp").naive_utc().to_string()
}

/// The mathematical value of a token session method.
pub struct TokenSpec {
    pub database: Option<Seq<char>>,
    pub table_name: Seq<char>,
    pub token_field: Seq<char>,
    pub user_id_field: Seq<char>,
    pub created_field: Seq<char>,
    pub max_age: usize,
}

/// `SELECT uid, created FROM table WHERE token = ?`
pub open spec fn session_lookup_sql(cfg: TokenSpec) -> Seq<char> {
    "SELECT "@ + cfg.user_id_field + ", "@ + cfg.created_field + " FROM "@ + cfg.table_name
        + " WHERE "@ + cfg.token_field + " = ?"@
}

/// `INSERT INTO table VALUES (?, ?, ?)`
pub open spec fn session_insert_sql(cfg: TokenSpec) -> Seq<char> {
    "INSERT INTO "@ + cfg.table_name + " VALUES (?, ?, ?)"@
}

/// `DELETE FROM table WHERE token = ? AND uid = ?`
pub open spec fn session_delete_one_sql(cfg: TokenSpec) -> Seq<char> {
    "DELETE FROM "@ + cfg.table_name + " WHERE "@ + cfg.token_field + " = ? AND "@
        + cfg.user_id_field + " = ?"@
}

/// `DELETE FROM table WHERE uid = ?`
pub open spec fn session_delete_all_sql(cfg: TokenSpec) -> Seq<char> {
    "DELETE FROM "@ + cfg.table_name + " WHERE "@ + cfg.user_id_field + " = ?"@
}

/// A session created at `created` is live at `now` when `now` is not before its
/// creation and it is younger than `max_age` seconds.
pub open spec fn session_live(created: Timestamp, max_age: nat, now: Timestamp) -> bool {
    created.instant() <= now.instant() < created.instant() + max_age * 1_000_000_000
}

/// What the session lookup gives. `row` is `None` where no row came back;
/// otherwise it holds the row's user id and creation time, each `None` where the
/// row lacks it (or holds it with another type).
pub open spec fn session_outcome(
    row: Option<(Option<u32>, Option<Timestamp>)>,
    cfg: TokenSpec,
    now: Timestamp,
) -> Result<Option<usize>, AuthFailure> {
    match row {
        None => Ok(None),
        Some((None, _)) => Err(AuthFailure::UnexpectedColumn {
            field: cfg.user_id_field,
            table: cfg.table_name,
            expected: ColumnType::IntUnsigned,
        }),
        Some((Some(_), None)) => Err(AuthFailure::UnexpectedColumn {
            field: cfg.created_field,
            table: cfg.table_name,
            expected: ColumnType::DateTime,
        }),
        Some((Some(id), Some(created))) => if session_live(created, cfg.max_age as nat, now) {
            Ok(Some(id as usize))
        } else {
            Ok(None)
        },
    }
}

/// Whether the session is live (see `session_live`); the sum of the creation time
/// and the maximum age must be a time `chrono` can hold.
pub fn is_session_live(created: Timestamp, max_age: usize, now: Timestamp) -> (b: bool)
    requires
        created.valid(),
        now.valid(),
        created.secs + max_age <= MAX_DATETIME_SECS,
    ensures
        b == session_live(created, max_age as nat, now),
{
    let c: i128 = created.secs as i128 * 1_000_000_000i128 + created.nanos as i128;
    let n: i128 = now.secs as i128 * 1_000_000_000i128 + now.nanos as i128;
    let age: i128 = max_age as i128 * 1_000_000_000i128;
    let expired = c + age <= n || c > n;
    !expired
}

/// Sessions kept as random tokens in a MySQL table.
#[derive(Debug)]
pub struct MySQLToken {
    /// Will use the primary database by default.
    database: Option<String>,
    table_name: String,
    token_field: String,
    /// Must not be primary key.
    user_id_field: String,
    created_field: String,
    /// Max age of sessions.
    max_age: usize,
}

impl View for MySQLToken {
    type V = TokenSpec;

    closed spec fn view(&self) -> TokenSpec {
        TokenSpec {
            database: self.database.deep_view(),
            table_name: self.table_name@,
            token_field: self.token_field@,
            user_id_field: self.user_id_field@,
            created_field: self.created_field@,
            max_age: self.max_age,
        }
    }
}

/// The defaults of a token session method: table `sessions_auth` with columns
/// `session_id`, `user_id` and `created_at`, sessions of a day, the primary database.
pub open spec fn default_token() -> TokenSpec {
    TokenSpec {
        database: None,
        table_name: "sessions_auth"@,
        token_field: "session_id"@,
        user_id_field: "user_id"@,
        created_field: "created_at"@,
        max_age: 86400,
    }
}

impl MySQLToken {
    pub fn new(
        database: Option<String>,
        table_name: String,
        token_field: String,
        user_id_field: String,
        created_field: String,
        max_age: usize,
    ) -> (r: Self)
        ensures
            r@ == (TokenSpec {
                database: database.deep_view(),
                table_name: table_name@,
                token_field: token_field@,
                user_id_field: user_id_field@,
                created_field: created_field@,
                max_age,
            }),
    {
        MySQLToken { database, table_name, token_field, user_id_field, created_field, max_age }
    }

    /// The method's name.
    pub fn name(&self) -> (r: &'static str)
        ensures
            r@ == "mysqltoken"@,
    {
        "mysqltoken"
    }

    /// The databases the method uses: the configured one, or none (the primary one).
    pub fn databases(&self) -> (r: Vec<String>)
        ensures
            string_seqs(r@) == databases_of(self@.database),
    {
        databases_list(&self.database)
    }

    /// The maximum age of a session, in seconds.
    pub fn max_age(&self) -> (r: Option<usize>)
        ensures
            r == Some(self@.max_age),
    {
        Some(self.max_age)
    }

    /// The statement that looks the token up.
    pub fn check_statement(&self, token: String) -> (r: Statement)
        ensures
            r@ == (StatementSpec { sql: session_lookup_sql(self@), values: seq![ValueSpec::Text(token@)] }),
    {
        let mut sql = String::from_str("SELECT ");
        sql.append(self.user_id_field.as_str());
        sql.append(", ");
        sql.append(self.created_field.as_str());
        sql.append(" FROM ");
        sql.append(self.table_name.as_str());
        sql.append(" WHERE ");
        sql.append(self.token_field.as_str());
        sql.append(" = ?");
        let ghost tv = token@;
        let mut values: Vec<SqlValue> = Vec::new();
        values.push(SqlValue::Text(token));
        let r = Statement { sql, values };
        assert(r@.values =~= seq![ValueSpec::Text(tv)]);
        r
    }

    /// The user the token belongs to, if its session is live at `now` (see
    /// `session_outcome`).
    pub fn check_result(&self, row: Option<(Option<u32>, Option<Timestamp>)>, now: Timestamp) -> (r: Result<Option<usize>, AuthError>)
        requires
            now.valid(),
            row matches Some((Some(_), Some(created))) ==> created.valid() && created.secs
                + self@.max_age <= MAX_DATETIME_SECS,
        ensures
            match r {
                Ok(v) => session_outcome(row, self@, now) == Ok::<Option<usize>, AuthFailure>(v),
                Err(e) => session_outcome(row, self@, now) == Err::<Option<usize>, AuthFailure>(e@),
            },
    {
        match row {
            None => Ok(None),
            Some((None, _)) => Err(AuthError::UnexpectedColumn {
                field: self.user_id_field.clone(),
                table: self.table_name.clone(),
                expected: ColumnType::IntUnsigned,
            }),
            Some((Some(_), None)) => Err(AuthError::UnexpectedColumn {
                field: self.created_field.clone(),
                table: self.table_name.clone(),
                expected: ColumnType::DateTime,
            }),
            Some((Some(id), Some(created))) => {
                if is_session_live(created, self.max_age, now) {
                    Ok(Some(id as usize))
                } else {
                    Ok(None)
                }
            },
        }
    }

    /// A new session for `user_id` created at `now`: a fresh token of `TOKEN_LEN`
    /// letters and digits, and the statement that stores it.
    pub fn new_session(&self, user_id: usize, now: Timestamp) -> (r: (String, Statement))
        requires
            now.valid(),
        ensures
            r.0@.len() == TOKEN_LEN,
            forall|i: int| 0 <= i < r.0@.len() ==> is_alphanumeric(#[trigger] r.0@[i]),
            r.1@ == (StatementSpec {
                sql: session_insert_sql(self@),
                values: seq![
                    ValueSpec::Text(r.0@),
                    ValueSpec::Text(decimal(user_id as nat)),
                    ValueSpec::Text(naive_datetime_text(now.secs, now.nanos)),
                ],
            }),
    {
        let token = random_alphanumeric(TOKEN_LEN);
        let mut sql = String::from_str("INSERT INTO ");
        sql.append(self.table_name.as_str());
        sql.append(" VALUES (?, ?, ?)");
        let mut values: Vec<SqlValue> = Vec::new();
        values.push(SqlValue::Text(token.clone()));
        values.push(SqlValue::Text(decimal_text(user_id)));
        values.push(SqlValue::Text(datetime_text(now)));
        let st = Statement { sql, values };
        assert(st@.values =~= seq![
            ValueSpec::Text(token@),
            ValueSpec::Text(decimal(user_id as nat)),
            ValueSpec::Text(naive_datetime_text(now.secs, now.nanos)),
        ]);
        (token, st)
    }

    /// The statement that ends the user's session with `token`, or all of the
    /// user's sessions where no token is given.
    pub fn invalidate_statement(&self, user_id: usize, token: Option<String>) -> (r: Statement)
        ensures
            match token {
                Some(t) => r@ == (StatementSpec {
                    sql: session_delete_one_sql(self@),
                    values: seq![ValueSpec::Text(t@), ValueSpec::Text(decimal(user_id as nat))],
                }),
                None => r@ == (StatementSpec {
                    sql: session_delete_all_sql(self@),
                    values: seq![ValueSpec::Text(decimal(user_id as nat))],
                }),
            },
    {
        let mut sql = String::from_str("DELETE FROM ");
        sql.append(self.table_name.as_str());
        sql.append(" WHERE ");
        let mut values: Vec<SqlValue> = Vec::new();
        match token {
            Some(t) => {
                sql.append(self.token_field.as_str());
                sql.append(" = ? AND ");
                sql.append(self.user_id_field.as_str());
                sql.append(" = ?");
                let ghost tv = t@;
                values.push(SqlValue::Text(t));
                values.push(SqlValue::Text(decimal_text(user_id)));
                let st = Statement { sql, values };
                assert(st@.values =~= seq![ValueSpec::Text(tv), ValueSpec::Text(decimal(user_id as nat))]);
                st
            },
            None => {
                sql.append(self.user_id_field.as_str());
                sql.append(" = ?");
                values.push(SqlValue::Text(decimal_text(user_id)));
                let st = Statement { sql, values };
                assert(st@.values =~= seq![ValueSpec::Text(decimal(user_id as nat))]);
                st
            },
        }
    }

    pub fn database(&self) -> (r: &Option<String>)
        ensures
            r.deep_view() == self@.database,
    {
        &self.database
    }

    pub fn table_name(&self) -> (r: &String)
        ensures
            r@ == self@.table_name,
    {
        &self.table_name
    }

    pub fn token_field(&self) -> (r: &String)
        ensures
            r@ == self@.token_field,
    {
        &self.token_field
    }

    pub fn user_id_field(&self) -> (r: &String)
        ensures
            r@ == self@.user_id_field,
    {
        &self.user_id_field
    }

    pub fn created_field(&self) -> (r: &String)
        ensures
            r@ == self@.created_field,
    {
        &self.created_field
    }
}

impl Default for MySQLToken {
    fn default() -> (r: Self)
        ensures
            r@ == default_token(),
    {
        MySQLToken {
            database: None,
            table_name: String::from_str("sessions_auth"),
            token_field: String::from_str("session_id"),
            user_id_field: String::from_str("user_id"),
            created_field: String::from_str("created_at"),
            max_age: 86400,
        }
    }
}

} // verus!

verus! {

/// A row of the sessions table, as the statements of a token method store it: the
/// token, the user id (an `INT UNSIGNED`) and the creation time.
pub struct SessionRow {
    pub token: Seq<char>,
    pub user_id: u32,
    pub created: Timestamp,
}

/// The table after `session_insert_sql` stored `row` (the statement `new_session` makes).
pub open spec fn insert_row(table: Seq<SessionRow>, row: SessionRow) -> Seq<SessionRow> {
    table.push(row)
}

/// The first row holding `token`: what `session_lookup_sql` selects.
pub open spec fn lookup_row(table: Seq<SessionRow>, token: Seq<char>) -> Option<SessionRow>
    decreases table.len(),
{
    if table.len() == 0 {
        None
    } else {
        match lookup_row(table.drop_last(), token) {
            Some(r) => Some(r),
            None => if table.last().token == token {
                Some(table.last())
            } else {
                None
            },
        }
    }
}

/// The table after `session_delete_one_sql` for `token` and `user_id`.
pub open spec fn delete_token(table: Seq<SessionRow>, token: Seq<char>, user_id: u32) -> Seq<SessionRow>
    decreases table.len(),
{
    if table.len() == 0 {
        table
    } else if table.last().token == token && table.last().user_id == user_id {
        delete_token(table.drop_last(), token, user_id)
    } else {
        delete_token(table.drop_last(), token, user_id).push(table.last())
    }
}

/// The table after `session_delete_all_sql` for `user_id`.
pub open spec fn delete_user(table: Seq<SessionRow>, user_id: u32) -> Seq<SessionRow>
    decreases table.len(),
{
    if table.len() == 0 {
        table
    } else if table.last().user_id == user_id {
        delete_user(table.drop_last(), user_id)
    } else {
        delete_user(table.drop_last(), user_id).push(table.last())
    }
}

/// What the session lookup reads from the row it selected (the argument of
/// `MySQLToken::check_result`).
pub open spec fn read_row(row: Option<SessionRow>) -> Option<(Option<u32>, Option<Timestamp>)> {
    match row {
        Some(r) => Some((Some(r.user_id), Some(r.created))),
        None => None,
    }
}

/// Every row holding `token` belongs to `user_id`.
pub open spec fn token_of_user(table: Seq<SessionRow>, token: Seq<char>, user_id: u32) -> bool {
    forall|i: int| 0 <= i < table.len() && (#[trigger] table[i]).token == token ==> table[i].user_id == user_id
}

/// A token that `new_session` issued (and stored) for a user is accepted, for that
/// user, exactly while its session is live.
pub proof fn law_issued_token_accepted_while_live(
    cfg: TokenSpec,
    table: Seq<SessionRow>,
    token: Seq<char>,
    user_id: u32,
    created: Timestamp,
    now: Timestamp,
)
    requires
        lookup_row(table, token) is None,
    ensures
        session_outcome(
            read_row(lookup_row(insert_row(table, SessionRow { token, user_id, created }), token)),
            cfg,
            now,
        ) == (if session_live(created, cfg.max_age as nat, now) {
            Ok::<Option<usize>, AuthFailure>(Some(user_id as usize))
        } else {
            Ok::<Option<usize>, AuthFailure>(None)
        }),
{
    let row = SessionRow { token, user_id, created };
    assert(insert_row(table, row).drop_last() =~= table);
    assert(lookup_row(insert_row(table, row), token) == Some(row));
}

proof fn lemma_delete_token_refuses(table: Seq<SessionRow>, token: Seq<char>, user_id: u32)
    requires
        token_of_user(table, token, user_id),
    ensures
        lookup_row(delete_token(table, token, user_id), token) is None,
    decreases table.len(),
{
    if table.len() > 0 {
        assert(token_of_user(table.drop_last(), token, user_id)) by {
            assert forall|i: int| 0 <= i < table.drop_last().len() && (#[trigger] table.drop_last()[i]).token
                == token implies table.drop_last()[i].user_id == user_id by {
                assert(table.drop_last()[i] == table[i]);
            }
        }
        lemma_delete_token_refuses(table.drop_last(), token, user_id);
        let rest = delete_token(table.drop_last(), token, user_id);
        if !(table.last().token == token && table.last().user_id == user_id) {
            assert(table[table.len() - 1].token == token ==> table[table.len() - 1].user_id == user_id);
            assert(rest.push(table.last()).drop_last() =~= rest);
        }
    }
}

proof fn lemma_delete_user_refuses(table: Seq<SessionRow>, token: Seq<char>, user_id: u32)
    requires
        token_of_user(table, token, user_id),
    ensures
        lookup_row(delete_user(table, user_id), token) is None,
    decreases table.len(),
{
    if table.len() > 0 {
        assert(token_of_user(table.drop_last(), token, user_id)) by {
            assert forall|i: int| 0 <= i < table.drop_last().len() && (#[trigger] table.drop_last()[i]).token
                == token implies table.drop_last()[i].user_id == user_id by {
                assert(table.drop_last()[i] == table[i]);
            }
        }
        lemma_delete_user_refuses(table.drop_last(), token, user_id);
        let rest = delete_user(table.drop_last(), user_id);
        if table.last().user_id != user_id {
            assert(table[table.len() - 1].token == token ==> table[table.len() - 1].user_id == user_id);
            assert(rest.push(table.last()).drop_last() =~= rest);
        }
    }
}

/// Once a user's token is invalidated (that token, or all of the user's sessions),
/// the token is refused at any time.
pub proof fn law_invalidated_token_refused(
    cfg: TokenSpec,
    table: Seq<SessionRow>,
    token: Seq<char>,
    user_id: u32,
    now: Timestamp,
)
    requires
        token_of_user(table, token, user_id),
    ensures
        session_outcome(read_row(lookup_row(delete_token(table, token, user_id), token)), cfg, now)
            == Ok::<Option<usize>, AuthFailure>(None),
        session_outcome(read_row(lookup_row(delete_user(table, user_id), token)), cfg, now)
            == Ok::<Option<usize>, AuthFailure>(None),
{
    lemma_delete_token_refuses(table, token, user_id);
    lemma_delete_user_refuses(table, token, user_id);
}

/// For every configuration, the session statements work on the configured table
/// and columns: the lookup reads the configured user id and creation columns,
/// filtered on the configured token column (`MySQLToken::check_statement` binds the
/// token as its one value); a new session is stored as one row of three values;
/// ending one session filters on the token and user id columns, in that order;
/// ending all of a user's sessions filters on the user id column.
pub proof fn law_session_statements_use_configured_columns(cfg: TokenSpec)
    ensures
        session_lookup_sql(cfg) == "SELECT "@ + cfg.user_id_field + ", "@ + cfg.created_field + " FROM "@
            + cfg.table_name + " WHERE "@ + cfg.token_field + " = ?"@,
        session_insert_sql(cfg) == "INSERT INTO "@ + cfg.table_name + " VALUES (?, ?, ?)"@,
        session_delete_one_sql(cfg) == "DELETE FROM "@ + cfg.table_name + " WHERE "@ + cfg.token_field
            + " = ? AND "@ + cfg.user_id_field + " = ?"@,
        session_delete_all_sql(cfg) == "DELETE FROM "@ + cfg.table_name + " WHERE "@ + cfg.user_id_field
            + " = ?"@,
{
}

} // verus!
