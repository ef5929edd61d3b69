//! Name & password authentication configured with the id of the database it
//! checks against (`db_id`).
use vstd::prelude::*;

use crate::auth::mysql::{
    default_simple_auth, login_statement, signup_outcome, signup_statements, MySQLSimpleAuthentication,
    SimpleAuthSpec,
};
use crate::auth::statement::{string_seqs, user_outcome, AuthError, AuthFailure, Statement, StatementSpec};

verus! {

/// Name & password authentication on a MySQL table, run on the connection of the
/// database it names.
#[derive(Debug)]
pub struct MySQLSimpleAuthenticationMethod(MySQLSimpleAuthentication);

impl View for MySQLSimpleAuthenticationMethod {
    type V = SimpleAuthSpec;

    closed spec fn view(&self) -> SimpleAuthSpec {
        self.0@
    }
}

impl MySQLSimpleAuthenticationMethod {
    pub fn new(
        database_id: Option<String>,
        table_name: String,
        user_id_field: String,
        name_field: String,
        password_field: String,
        extra_fields: Vec<String>,
        totp_field: Option<String>,
    ) -> (r: Self)
        ensures
            r@ == (SimpleAuthSpec {
                database: database_id.deep_view(),
                table_name: table_name@,
                user_id_field: user_id_field@,
                name_field: name_field@,
                password_field: password_field@,
                extra_fields: string_seqs(extra_fields@),
                totp_field: totp_field.deep_view(),
            }),
    {
        MySQLSimpleAuthenticationMethod(
            MySQLSimpleAuthentication::new(
                database_id,
                table_name,
                user_id_field,
                name_field,
                password_field,
                extra_fields,
                totp_field,
            ),
        )
    }

    /// The method's name.
    pub fn name(&self) -> (r: &'static str)
        ensures
            r@ == "mysqlsimple"@,
    {
        "mysqlsimple"
    }

    /// The id of the database the method checks against (the primary one where none).
    pub fn db_id(&self) -> (r: Option<String>)
        ensures
            r.deep_view() == self@.database,
    {
        match self.0.database() {
            Some(d) => Some(d.clone()),
            None => None,
        }
    }

    /// See `MySQLSimpleAuthentication::check_statement`.
    pub fn check_statement(&self, entries: &Vec<(String, String)>) -> (r: Result<Statement, AuthError>)
        ensures
            match r {
                Ok(s) => login_statement(self@, entries@) == Ok::<StatementSpec, AuthFailure>(s@),
                Err(e) => login_statement(self@, entries@) == Err::<StatementSpec, AuthFailure>(e@),
            },
    {
        self.0.check_statement(entries)
    }

    /// See `MySQLSimpleAuthentication::check_result`.
    pub fn check_result(&self, row: Option<Option<u32>>) -> (r: Result<Option<usize>, AuthError>)
        ensures
            match r {
                Ok(v) => user_outcome(row, self@.user_id_field, self@.table_name) == Ok::<Option<usize>, AuthFailure>(v),
                Err(e) => user_outcome(row, self@.user_id_field, self@.table_name) == Err::<Option<usize>, AuthFailure>(e@),
            },
    {
        self.0.check_result(row)
    }

    /// See `MySQLSimpleAuthentication::signup_statements`.
    pub fn signup_statements(&self, entries: &Vec<(String, String)>) -> (r: Result<(Statement, Statement), AuthError>)
        ensures
            match r {
                Ok((a, b)) => signup_statements(self@, entries@) == Ok::<(StatementSpec, StatementSpec), AuthFailure>((a@, b@)),
                Err(e) => signup_statements(self@, entries@) == Err::<(StatementSpec, StatementSpec), AuthFailure>(e@),
            },
    {
        self.0.signup_statements(entries)
    }

    /// See `MySQLSimpleAuthentication::signup_result`.
    pub fn signup_result(&self, row: Option<Option<u32>>) -> (r: Result<usize, AuthError>)
        ensures
            match r {
                Ok(v) => signup_outcome(row, self@) == Ok::<usize, AuthFailure>(v),
                Err(e) => signup_outcome(row, self@) == Err::<usize, AuthFailure>(e@),
            },
    {
        self.0.signup_result(row)
    }

    /// The method's settings.
    pub fn settings(&self) -> (r: &MySQLSimpleAuthentication)
        ensures
            r@ == self@,
    {
        &self.0
    }
}

impl Default for MySQLSimpleAuthenticationMethod {
    fn default() -> (r: Self)
        ensures
            r@ == default_simple_auth(),
    {
        MySQLSimpleAuthenticationMethod(MySQLSimpleAuthentication::default())
    }
}

} // verus!
