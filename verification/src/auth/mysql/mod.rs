//! Name & password authentication on a MySQL users table, with sessions and roles
//! kept in tables of their own.
use vstd::prelude::*;

pub mod role;
pub mod session;

use crate::auth::statement::{
    entry_value, find_entry, marks_list, marks_text, join_strings, read_user, string_seqs,
    user_outcome, value_specs, AuthError, AuthFailure, ColumnType, SqlValue, Statement,
    StatementSpec, ValueSpec,
};
use crate::text::{chars_of, contains_text, has_infix, join, lowercase, to_lowercase};
use vstd::string::StringExecFns;

verus! {

/// The mathematical value of a name & password authentication method.
pub struct SimpleAuthSpec {
    pub database: Option<Seq<char>>,
    pub table_name: Seq<char>,
    pub user_id_field: Seq<char>,
    pub name_field: Seq<char>,
    pub password_field: Seq<char>,
    pub extra_fields: Seq<Seq<char>>,
    pub totp_field: Option<Seq<char>>,
}

/// `SELECT uid FROM table WHERE name = ? AND password = ?`
pub open spec fn login_sql(cfg: SimpleAuthSpec) -> Seq<char> {
    "SELECT "@ + cfg.user_id_field + " FROM "@ + cfg.table_name + " WHERE "@ + cfg.name_field
        + " = ? AND "@ + cfg.password_field + " = ?"@
}

/// `INSERT INTO table (name,password,extra...) VALUES (?, ?, ...)`, one `?` per column.
pub open spec fn signup_sql(cfg: SimpleAuthSpec) -> Seq<char> {
    "INSERT INTO "@ + cfg.table_name + " ("@ + join(
        seq![cfg.name_field, cfg.password_field] + cfg.extra_fields,
        ","@,
    ) + ") VALUES ("@ + marks_list(cfg.extra_fields.len() + 2) + ")"@
}

/// `SELECT uid FROM table WHERE name = ?`
pub open spec fn user_id_sql(cfg: SimpleAuthSpec) -> Seq<char> {
    "SELECT "@ + cfg.user_id_field + " FROM "@ + cfg.table_name + " WHERE "@ + cfg.name_field
        + " = ?"@
}

/// The statement that checks a name & password, bound to the request's entries
/// for the name field and the password field; the first missing entry is the error.
pub open spec fn login_statement(cfg: SimpleAuthSpec, entries: Seq<(String, String)>) -> Result<StatementSpec, AuthFailure> {
    match entry_value(entries, cfg.name_field) {
        None => Err(AuthFailure::FieldNotFound(cfg.name_field)),
        Some(name) => match entry_value(entries, cfg.password_field) {
            None => Err(AuthFailure::FieldNotFound(cfg.password_field)),
            Some(password) => Ok(StatementSpec {
                sql: login_sql(cfg),
                values: seq![ValueSpec::Text(name), ValueSpec::Text(password)],
            }),
        },
    }
}

/// The entries for the extra fields, in order; the first missing one is the error.
pub open spec fn extra_values(fields: Seq<Seq<char>>, entries: Seq<(String, String)>) -> Result<Seq<ValueSpec>, Seq<char>>
    decreases fields.len(),
{
    if fields.len() == 0 {
        Ok(Seq::<ValueSpec>::empty())
    } else {
        match extra_values(fields.drop_last(), entries) {
            Err(f) => Err(f),
            Ok(vs) => match entry_value(entries, fields.last()) {
                Some(v) => Ok(vs.push(ValueSpec::Text(v))),
                None => Err(fields.last()),
            },
        }
    }
}

/// The statements that sign a user up: the insertion of the name, password and
/// extra fields, and the query of the new user's id.
pub open spec fn signup_statements(cfg: SimpleAuthSpec, entries: Seq<(String, String)>) -> Result<(StatementSpec, StatementSpec), AuthFailure> {
    match entry_value(entries, cfg.name_field) {
        None => Err(AuthFailure::FieldNotFound(cfg.name_field)),
        Some(name) => match entry_value(entries, cfg.password_field) {
            None => Err(AuthFailure::FieldNotFound(cfg.password_field)),
            Some(password) => match extra_values(cfg.extra_fields, entries) {
                Err(f) => Err(AuthFailure::FieldNotFound(f)),
                Ok(extras) => Ok((
                    StatementSpec {
                        sql: signup_sql(cfg),
                        values: seq![ValueSpec::Text(name), ValueSpec::Text(password)] + extras,
                    },
                    StatementSpec { sql: user_id_sql(cfg), values: seq![ValueSpec::Text(name)] },
                )),
            },
        },
    }
}

/// What a failed insertion means: an account that already exists where the
/// lowercased error text mentions a duplicate, the database's failure otherwise.
pub open spec fn signup_failure(db_message: Seq<char>) -> AuthFailure {
    if has_infix(lowercase("Query execution error: "@ + db_message), "duplicate"@) {
        AuthFailure::DuplicateAccount
    } else {
        AuthFailure::QueryFailed(db_message)
    }
}

/// What the query of the new user's id gives: a row is expected.
pub open spec fn signup_outcome(row: Option<Option<u32>>, cfg: SimpleAuthSpec) -> Result<usize, AuthFailure> {
    match row {
        None => Err(AuthFailure::UnexpectedOutput),
        Some(None) => Err(AuthFailure::UnexpectedColumn {
            field: cfg.user_id_field,
            table: cfg.table_name,
            expected: ColumnType::IntUnsigned,
        }),
        Some(Some(id)) => Ok(id as usize),
    }
}

/// The fields of a name & password method, shared by the methods that hold them.
pub(crate) struct SimpleAuthFields<'a> {
    pub table_name: &'a String,
    pub user_id_field: &'a String,
    pub name_field: &'a String,
    pub password_field: &'a String,
    pub extra_fields: &'a Vec<String>,
}

impl<'a> SimpleAuthFields<'a> {
    /// The fields as a method's value (with no database and no TOTP field, which
    /// the statements do not use).
    pub(crate) open spec fn cfg(&self) -> SimpleAuthSpec {
        SimpleAuthSpec {
            database: None,
            table_name: self.table_name@,
            user_id_field: self.user_id_field@,
            name_field: self.name_field@,
            password_field: self.password_field@,
            extra_fields: string_seqs(self.extra_fields@),
            totp_field: None,
        }
    }

    /// See `login_statement`.
    pub(crate) fn login(&self, entries: &Vec<(String, String)>) -> (r: Result<Statement, AuthError>)
        ensures
            match r {
                Ok(s) => login_statement(self.cfg(), entries@) == Ok::<StatementSpec, AuthFailure>(s@),
                Err(e) => login_statement(self.cfg(), entries@) == Err::<StatementSpec, AuthFailure>(e@),
            },
    {
        let name = match find_entry(entries, self.name_field) {
            Some(v) => v,
            None => return Err(AuthError::FieldNotFound(self.name_field.clone())),
        };
        let password = match find_entry(entries, self.password_field) {
            Some(v) => v,
            None => return Err(AuthError::FieldNotFound(self.password_field.clone())),
        };
        let mut sql = String::from_str("SELECT ");
        sql.append(self.user_id_field.as_str());
        sql.append(" FROM ");
        sql.append(self.table_name.as_str());
        sql.append(" WHERE ");
        sql.append(self.name_field.as_str());
        sql.append(" = ? AND ");
        sql.append(self.password_field.as_str());
        sql.append(" = ?");
        let mut values: Vec<SqlValue> = Vec::new();
        values.push(SqlValue::Text(name));
        values.push(SqlValue::Text(password));
        let st = Statement { sql, values };
        assert(st@.values =~= seq![ValueSpec::Text(name@), ValueSpec::Text(password@)]);
        Ok(st)
    }

    /// See `signup_statements`.
    pub(crate) fn signup(&self, entries: &Vec<(String, String)>) -> (r: Result<(Statement, Statement), AuthError>)
        ensures
            match r {
                Ok((a, b)) => signup_statements(self.cfg(), entries@) == Ok::<(StatementSpec, StatementSpec), AuthFailure>((a@, b@)),
                Err(e) => signup_statements(self.cfg(), entries@) == Err::<(StatementSpec, StatementSpec), AuthFailure>(e@),
            },
    {
        let ghost cfg = self.cfg();
        let name = match find_entry(entries, self.name_field) {
            Some(v) => v,
            None => return Err(AuthError::FieldNotFound(self.name_field.clone())),
        };
        let password = match find_entry(entries, self.password_field) {
            Some(v) => v,
            None => return Err(AuthError::FieldNotFound(self.password_field.clone())),
        };
        let mut values: Vec<SqlValue> = Vec::new();
        values.push(SqlValue::Text(name.clone()));
        values.push(SqlValue::Text(password));
        let ghost first = value_specs(values@);
        assert(first =~= seq![ValueSpec::Text(name@), ValueSpec::Text(password@)]);
        let ghost fs = cfg.extra_fields;
        let mut i: usize = 0;
        assert(fs.take(0) =~= Seq::<Seq<char>>::empty());
        assert(value_specs(values@) =~= first + Seq::<ValueSpec>::empty());
        while i < self.extra_fields.len()
            invariant
                i <= self.extra_fields.len(),
                cfg == self.cfg(),
                fs == cfg.extra_fields,
                entry_value(entries@, cfg.name_field) == Some(name@),
                entry_value(entries@, cfg.password_field) == Some(password@),
                first == seq![ValueSpec::Text(name@), ValueSpec::Text(password@)],
                fs.len() == self.extra_fields.len(),
                extra_values(fs.take(i as int), entries@) matches Ok(vs) && value_specs(values@) == first + vs,
            decreases self.extra_fields.len() - i,
        {
            assert(fs.take(i + 1).drop_last() =~= fs.take(i as int));
            assert(fs[i as int] == self.extra_fields@[i as int]@);
            match find_entry(entries, &self.extra_fields[i]) {
                Some(v) => {
                    let ghost before = value_specs(values@);
                    values.push(SqlValue::Text(v));
                    assert(value_specs(values@) =~= before.push(ValueSpec::Text(v@)));
                    assert(value_specs(values@) =~= first + extra_values(fs.take(i + 1), entries@)->Ok_0);
                },
                None => {
                    assert(fs.take(i + 1).last() == fs[i as int]);
                    assert(extra_values(fs.take(i + 1), entries@) == Err::<Seq<ValueSpec>, Seq<char>>(fs[i as int]));
                    proof {
                        lemma_extra_err(fs, i + 1, entries@);
                    }
                    let f = self.extra_fields[i].clone();
                    assert(f@ == fs[i as int]);
                    assert(entry_value(entries@, cfg.name_field) == Some(name@));
                    assert(entry_value(entries@, cfg.password_field) == Some(password@));
                    assert(signup_statements(cfg, entries@) == Err::<(StatementSpec, StatementSpec), AuthFailure>(AuthFailure::FieldNotFound(f@)));
                    return Err(AuthError::FieldNotFound(f));
                },
            }
            i += 1;
        }
        assert(fs.take(self.extra_fields.len() as int) =~= fs);
        let mut columns: Vec<String> = Vec::new();
        columns.push(self.name_field.clone());
        columns.push(self.password_field.clone());
        let mut k: usize = 0;
        while k < self.extra_fields.len()
            invariant
                k <= self.extra_fields.len(),
                cfg == self.cfg(),
                string_seqs(columns@) == seq![cfg.name_field, cfg.password_field] + cfg.extra_fields.take(k as int),
            decreases self.extra_fields.len() - k,
        {
            let ghost before = string_seqs(columns@);
            columns.push(self.extra_fields[k].clone());
            assert(string_seqs(columns@) =~= before.push(cfg.extra_fields[k as int]));
            assert(cfg.extra_fields.take(k + 1) =~= cfg.extra_fields.take(k as int).push(cfg.extra_fields[k as int]));
            assert(seq![cfg.name_field, cfg.password_field] + cfg.extra_fields.take(k + 1) =~= (seq![cfg.name_field, cfg.password_field] + cfg.extra_fields.take(k as int)).push(cfg.extra_fields[k as int]));
            k += 1;
        }
        assert(cfg.extra_fields.take(self.extra_fields.len() as int) =~= cfg.extra_fields);
        let mut insert = String::from_str("INSERT INTO ");
        insert.append(self.table_name.as_str());
        insert.append(" (");
        let cols = join_strings(&columns, ",");
        insert.append(cols.as_str());
        insert.append(") VALUES (");
        let marks = marks_text(columns.len());
        insert.append(marks.as_str());
        insert.append(")");
        let mut select = String::from_str("SELECT ");
        select.append(self.user_id_field.as_str());
        select.append(" FROM ");
        select.append(self.table_name.as_str());
        select.append(" WHERE ");
        select.append(self.name_field.as_str());
        select.append(" = ?");
        let mut select_values: Vec<SqlValue> = Vec::new();
        select_values.push(SqlValue::Text(name));
        let a = Statement { sql: insert, values };
        let b = Statement { sql: select, values: select_values };
        assert(b@.values =~= seq![ValueSpec::Text(name@)]);
        assert(string_seqs(columns@).len() == columns@.len());
        assert(a@.values == seq![ValueSpec::Text(name@), ValueSpec::Text(password@)] + extra_values(cfg.extra_fields, entries@)->Ok_0);
        assert(a@.sql == signup_sql(cfg));
        assert(b@.sql == user_id_sql(cfg));
        Ok((a, b))
    }
}

proof fn lemma_extra_err(fs: Seq<Seq<char>>, j: int, entries: Seq<(String, String)>)
    requires
        0 <= j <= fs.len(),
        extra_values(fs.take(j), entries) is Err,
    ensures
        extra_values(fs, entries) == extra_values(fs.take(j), entries),
    decreases fs.len(),
{
    if j == fs.len() {
        assert(fs.take(j) =~= fs);
    } else {
        assert(fs.drop_last().take(j) =~= fs.take(j));
        lemma_extra_err(fs.drop_last(), j, entries);
    }
}

/// What a failed insertion means (see `signup_failure`); `db_message` is the
/// database's error text.
pub fn classify_signup_failure(db_message: String) -> (r: AuthError)
    ensures
        r@ == signup_failure(db_message@),
{
    let mut full = String::from_str("Query execution error: ");
    full.append(db_message.as_str());
    let lowered = to_lowercase(full.as_str());
    let hay = chars_of(lowered.as_str());
    let needle = chars_of("duplicate");
    if contains_text(&hay, &needle) {
        AuthError::DuplicateAccount
    } else {
        AuthError::QueryFailed(db_message)
    }
}

/// Reads the new user's id from the first row (`row` as in `read_user`).
pub(crate) fn read_new_user(row: Option<Option<u32>>, user_id_field: &String, table: &String, Ghost(cfg): Ghost<SimpleAuthSpec>) -> (r: Result<usize, AuthError>)
    requires
        user_id_field@ == cfg.user_id_field,
        table@ == cfg.table_name,
    ensures
        match r {
            Ok(v) => signup_outcome(row, cfg) == Ok::<usize, AuthFailure>(v),
            Err(e) => signup_outcome(row, cfg) == Err::<usize, AuthFailure>(e@),
        },
{
    match row {
        None => Err(AuthError::UnexpectedOutput),
        Some(None) => Err(AuthError::UnexpectedColumn {
            field: user_id_field.clone(),
            table: table.clone(),
            expected: ColumnType::IntUnsigned,
        }),
        Some(Some(id)) => Ok(id as usize),
    }
}

/// Name & password authentication on a MySQL table.
#[derive(Debug)]
pub struct MySQLSimpleAuthentication {
    /// Will use the primary database by default.
    database: Option<String>,
    table_name: String,
    user_id_field: String,
    /// This field references to the user's name, emails, IDs... and must not be primary key.
    name_field: String,
    password_field: String,
    /// Specifies all other the fields the user table contains, useful for signing up new users.
    extra_fields: Vec<String>,
    totp_field: Option<String>,
}

impl View for MySQLSimpleAuthentication {
    type V = SimpleAuthSpec;

    closed spec fn view(&self) -> SimpleAuthSpec {
        SimpleAuthSpec {
            database: self.database.deep_view(),
            table_name: self.table_name@,
            user_id_field: self.user_id_field@,
            name_field: self.name_field@,
            password_field: self.password_field@,
            extra_fields: string_seqs(self.extra_fields@),
            totp_field: self.totp_field.deep_view(),
        }
    }
}

/// The databases a method with `database` uses: that one, or none (the primary one).
pub open spec fn databases_of(database: Option<Seq<char>>) -> Seq<Seq<char>> {
    match database {
        Some(d) => seq![d],
        None => Seq::<Seq<char>>::empty(),
    }
}

/// The databases a method configured with `database` uses.
pub fn databases_list(database: &Option<String>) -> (r: Vec<String>)
    ensures
        string_seqs(r@) == databases_of(database.deep_view()),
{
    let mut r: Vec<String> = Vec::new();
    if let Some(d) = database {
        r.push(d.clone());
    }
    assert(string_seqs(r@) =~= databases_of(database.deep_view()));
    r
}

impl MySQLSimpleAuthentication {
    pub fn new(
        database: Option<String>,
        table_name: String,
        user_id_field: String,
        name_field: String,
        password_field: String,
        extra_fields: Vec<String>,
        totp_field: Option<String>,
    ) -> (r: Self)
        ensures
            r@ == (SimpleAuthSpec {
                database: database.deep_view(),
                table_name: table_name@,
                user_id_field: user_id_field@,
                name_field: name_field@,
                password_field: password_field@,
                extra_fields: string_seqs(extra_fields@),
                totp_field: totp_field.deep_view(),
            }),
    {
        MySQLSimpleAuthentication {
            database,
            table_name,
            user_id_field,
            name_field,
            password_field,
            extra_fields,
            totp_field,
        }
    }

    fn fields(&self) -> (f: SimpleAuthFields<'_>)
        ensures
            f.cfg() == (SimpleAuthSpec { database: None, totp_field: None, ..self@ }),
    {
        SimpleAuthFields {
            table_name: &self.table_name,
            user_id_field: &self.user_id_field,
            name_field: &self.name_field,
            password_field: &self.password_field,
            extra_fields: &self.extra_fields,
        }
    }

    /// The method's name.
    pub fn name(&self) -> (r: &'static str)
        ensures
            r@ == "mysqlsimple"@,
    {
        "mysqlsimple"
    }

    /// The databases the method uses: the configured one, or none (the primary one).
    pub fn databases(&self) -> (r: Vec<String>)
        ensures
            string_seqs(r@) == databases_of(self@.database),
    {
        databases_list(&self.database)
    }

    /// The statement that checks the request's name & password (see `login_statement`).
    pub fn check_statement(&self, entries: &Vec<(String, String)>) -> (r: Result<Statement, AuthError>)
        ensures
            match r {
                Ok(s) => login_statement(self@, entries@) == Ok::<StatementSpec, AuthFailure>(s@),
                Err(e) => login_statement(self@, entries@) == Err::<StatementSpec, AuthFailure>(e@),
            },
    {
        self.fields().login(entries)
    }

    /// The user the check finds: `row` is `None` where no row came back and
    /// `Some(None)` where the row holds no `INT UNSIGNED` user id.
    pub fn check_result(&self, row: Option<Option<u32>>) -> (r: Result<Option<usize>, AuthError>)
        ensures
            match r {
                Ok(v) => user_outcome(row, self@.user_id_field, self@.table_name) == Ok::<Option<usize>, AuthFailure>(v),
                Err(e) => user_outcome(row, self@.user_id_field, self@.table_name) == Err::<Option<usize>, AuthFailure>(e@),
            },
    {
        read_user(row, &self.user_id_field, &self.table_name)
    }

    /// The statements that sign the request's user up (see `signup_statements`).
    pub fn signup_statements(&self, entries: &Vec<(String, String)>) -> (r: Result<(Statement, Statement), AuthError>)
        ensures
            match r {
                Ok((a, b)) => signup_statements(self@, entries@) == Ok::<(StatementSpec, StatementSpec), AuthFailure>((a@, b@)),
                Err(e) => signup_statements(self@, entries@) == Err::<(StatementSpec, StatementSpec), AuthFailure>(e@),
            },
    {
        self.fields().signup(entries)
    }

    /// The new user's id, read from the first row of the second signup statement.
    pub fn signup_result(&self, row: Option<Option<u32>>) -> (r: Result<usize, AuthError>)
        ensures
            match r {
                Ok(v) => signup_outcome(row, self@) == Ok::<usize, AuthFailure>(v),
                Err(e) => signup_outcome(row, self@) == Err::<usize, AuthFailure>(e@),
            },
    {
        read_new_user(row, &self.user_id_field, &self.table_name, Ghost(self@))
    }

    pub fn database(&self) -> (r: &Option<String>)
        ensures
            r.deep_view() == self@.database,
    {
        &self.database
    }

    pub fn table_name(&self) -> (r: &String)
        ensures
            r@ == self@.table_name,
    {
        &self.table_name
    }

    pub fn user_id_field(&self) -> (r: &String)
        ensures
            r@ == self@.user_id_field,
    {
        &self.user_id_field
    }

    pub fn name_field(&self) -> (r: &String)
        ensures
            r@ == self@.name_field,
    {
        &self.name_field
    }

    pub fn password_field(&self) -> (r: &String)
        ensures
            r@ == self@.password_field,
    {
        &self.password_field
    }

    pub fn extra_fields(&self) -> (r: &Vec<String>)
        ensures
            string_seqs(r@) == self@.extra_fields,
    {
        &self.extra_fields
    }

    pub fn totp_field(&self) -> (r: &Option<String>)
        ensures
            r.deep_view() == self@.totp_field,
    {
        &self.totp_field
    }
}

/// The defaults of a name & password method: table `users_auth` with columns
/// `user_id`, `email` and `password`, no extra field, no TOTP field, the primary database.
pub open spec fn default_simple_auth() -> SimpleAuthSpec {
    SimpleAuthSpec {
        database: None,
        table_name: "users_auth"@,
        user_id_field: "user_id"@,
        name_field: "email"@,
        password_field: "password"@,
        extra_fields: Seq::<Seq<char>>::empty(),
        totp_field: None,
    }
}

impl Default for MySQLSimpleAuthentication {
    fn default() -> (r: Self)
        ensures
            r@ == default_simple_auth(),
    {
        let r = MySQLSimpleAuthentication {
            database: None,
            table_name: String::from_str("users_auth"),
            user_id_field: String::from_str("user_id"),
            name_field: String::from_str("email"),
            password_field: String::from_str("password"),
            extra_fields: Vec::new(),
            totp_field: None,
        };
        assert(string_seqs(r.extra_fields@) =~= Seq::<Seq<char>>::empty());
        r
    }
}

/// How many times `c` occurs in `s`.
pub open spec fn occurrences(s: Seq<char>, c: char) -> nat
    decreases s.len(),
{
    if s.len() == 0 {
        0
    } else {
        occurrences(s.drop_last(), c) + if s.last() == c { 1nat } else { 0nat }
    }
}

proof fn lemma_occurrences_concat(a: Seq<char>, b: Seq<char>, c: char)
    ensures
        occurrences(a + b, c) == occurrences(a, c) + occurrences(b, c),
    decreases b.len(),
{
    if b.len() == 0 {
        assert(a + b =~= a);
    } else {
        assert((a + b).drop_last() =~= a + b.drop_last());
        lemma_occurrences_concat(a, b.drop_last(), c);
    }
}

proof fn lemma_marks_count(n: nat)
    ensures
        occurrences(marks_list(n), '?') == n,
    decreases n,
{
    reveal_strlit("?");
    reveal_strlit(", ");
    let ms = Seq::new(n, |i: int| "?"@);
    assert(occurrences("?"@, '?') == 1) by {
        reveal_with_fuel(occurrences, 2);
        assert("?"@.drop_last() =~= Seq::<char>::empty());
        assert("?"@.last() == '?');
    }
    assert(occurrences(", "@, '?') == 0) by {
        reveal_with_fuel(occurrences, 3);
        assert(", "@.drop_last().drop_last() =~= Seq::<char>::empty());
        assert(", "@.drop_last().last() == ',');
        assert(", "@.last() == ' ');
    }
    if n == 0 {
    } else if n == 1 {
        assert(marks_list(1) == "?"@);
    } else {
        lemma_marks_count((n - 1) as nat);
        assert(ms.drop_last() =~= Seq::new((n - 1) as nat, |i: int| "?"@));
        assert(marks_list(n) == marks_list((n - 1) as nat) + ", "@ + "?"@);
        lemma_occurrences_concat(marks_list((n - 1) as nat), ", "@, '?');
        lemma_occurrences_concat(marks_list((n - 1) as nat) + ", "@, "?"@, '?');
    }
}

/// Signing up binds one value per column, and the insertion's VALUES list holds
/// exactly one `?` per column: the name, the password and each extra field.
pub proof fn law_signup_binds_every_column(cfg: SimpleAuthSpec, entries: Seq<(String, String)>)
    ensures
        signup_statements(cfg, entries) matches Ok((insert, select)) ==> {
            &&& insert.values.len() == cfg.extra_fields.len() + 2
            &&& occurrences(marks_list(cfg.extra_fields.len() + 2), '?') == insert.values.len()
            &&& select.values.len() == 1
        },
{
    lemma_marks_count(cfg.extra_fields.len() + 2);
    if let Ok((insert, select)) = signup_statements(cfg, entries) {
        lemma_extra_values_len(cfg.extra_fields, entries);
    }
}

proof fn lemma_extra_values_len(fields: Seq<Seq<char>>, entries: Seq<(String, String)>)
    ensures
        extra_values(fields, entries) matches Ok(vs) ==> vs.len() == fields.len(),
    decreases fields.len(),
{
    if fields.len() > 0 {
        lemma_extra_values_len(fields.drop_last(), entries);
    }
}

/// Logging in looks the user up in the configured table by the configured name and
/// password columns, for every configuration: the statement selects the user id
/// column `WHERE <name column> = ? AND <password column> = ?`, with the request's
/// entries for those two columns bound in that order. It is made exactly when the
/// request has both entries. The user id lookup after a signup selects the same
/// column by the configured name column alone.
pub proof fn law_login_uses_configured_columns(cfg: SimpleAuthSpec, entries: Seq<(String, String)>)
    ensures
        user_id_sql(cfg) == "SELECT "@ + cfg.user_id_field + " FROM "@ + cfg.table_name + " WHERE "@
            + cfg.name_field + " = ?"@,
        (login_statement(cfg, entries) is Ok) <==> (entry_value(entries, cfg.name_field) is Some
            && entry_value(entries, cfg.password_field) is Some),
        login_statement(cfg, entries) matches Ok(st) ==> {
            &&& st.sql == "SELECT "@ + cfg.user_id_field + " FROM "@ + cfg.table_name + " WHERE "@
                + cfg.name_field + " = ? AND "@ + cfg.password_field + " = ?"@
            &&& st.values == seq![
                ValueSpec::Text(entry_value(entries, cfg.name_field)->0),
                ValueSpec::Text(entry_value(entries, cfg.password_field)->0),
            ]
        },
{
}

} // verus!
