//! Users' roles kept in a MySQL table.
use vstd::prelude::*;

use crate::auth::mysql::{databases_list, databases_of};
use crate::auth::statement::{
    decimal_text, string_seqs, AuthError, AuthFailure, ColumnType, SqlValue, Statement,
    StatementSpec, ValueSpec,
};
use crate::text::decimal;
use vstd::string::StringExecFns;

verus! {

/// The mathematical value of a role method.
pub struct RoleSpec {
    pub database: Option<Seq<char>>,
    pub table_name: Seq<char>,
    pub user_id_field: Seq<char>,
    pub role_field: Seq<char>,
}

/// `SELECT role FROM table WHERE uid = ?`
pub open spec fn role_sql(cfg: RoleSpec) -> Seq<char> {
    "SELECT "@ + cfg.role_field + " FROM "@ + cfg.table_name + " WHERE "@ + cfg.user_id_field
        + " = ?"@
}

/// What the role lookup gives: `row` is `None` where no row came back and
/// `Some(None)` where the row holds no `VARCHAR` role. The error names the user id
/// field and the table.
pub open spec fn role_outcome(row: Option<Option<String>>, cfg: RoleSpec) -> Result<Option<Seq<char>>, AuthFailure> {
    match row {
        None => Ok(None),
        Some(None) => Err(AuthFailure::UnexpectedColumn {
            field: cfg.user_id_field,
            table: cfg.table_name,
            expected: ColumnType::Varchar,
        }),
        Some(Some(role)) => Ok(Some(role@)),
    }
}

/// Users' roles kept in a MySQL table.
#[derive(Debug)]
pub struct MySQLRole {
    /// Will use the primary database by default.
    database: Option<String>,
    table_name: String,
    user_id_field: String,
    /// Must not be primary key.
    role_field: String,
}

impl View for MySQLRole {
    type V = RoleSpec;

    closed spec fn view(&self) -> RoleSpec {
        RoleSpec {
            database: self.database.deep_view(),
            table_name: self.table_name@,
            user_id_field: self.user_id_field@,
            role_field: self.role_field@,
        }
    }
}

/// The defaults of a role method: table `roles_auth` with columns `user_id` and
/// `role`, the primary database.
pub open spec fn default_role() -> RoleSpec {
    RoleSpec {
        database: None,
        table_name: "roles_auth"@,
        user_id_field: "user_id"@,
        role_field: "role"@,
    }
}

impl MySQLRole {
    pub fn new(database: Option<String>, table_name: String, user_id_field: String, role_field: String) -> (r: Self)
        ensures
            r@ == (RoleSpec {
                database: database.deep_view(),
                table_name: table_name@,
                user_id_field: user_id_field@,
                role_field: role_field@,
            }),
    {
        MySQLRole { database, table_name, user_id_field, role_field }
    }

    /// The method's name.
    pub fn name(&self) -> (r: &'static str)
        ensures
            r@ == "mysqlrole"@,
    {
        "mysqlrole"
    }

    /// The databases the method uses: the configured one, or none (the primary one).
    pub fn databases(&self) -> (r: Vec<String>)
        ensures
            string_seqs(r@) == databases_of(self@.database),
    {
        databases_list(&self.database)
    }

    /// The statement that looks the user's role up.
    pub fn get_statement(&self, user_id: usize) -> (r: Statement)
        ensures
            r@ == (StatementSpec {
                sql: role_sql(self@),
                values: seq![ValueSpec::Text(decimal(user_id as nat))],
            }),
    {
        let mut sql = String::from_str("SELECT ");
        sql.append(self.role_field.as_str());
        sql.append(" FROM ");
        sql.append(self.table_name.as_str());
        sql.append(" WHERE ");
        sql.append(self.user_id_field.as_str());
        sql.append(" = ?");
        let mut values: Vec<SqlValue> = Vec::new();
        values.push(SqlValue::Text(decimal_text(user_id)));
        let st = Statement { sql, values };
        assert(st@.values =~= seq![ValueSpec::Text(decimal(user_id as nat))]);
        st
    }

    /// The user's role, read from the first row (see `role_outcome`).
    pub fn get_result(&self, row: Option<Option<String>>) -> (r: Result<Option<String>, AuthError>)
        ensures
            match r {
                Ok(v) => role_outcome(row, self@) == Ok::<Option<Seq<char>>, AuthFailure>(v.deep_view()),
                Err(e) => role_outcome(row, self@) == Err::<Option<Seq<char>>, AuthFailure>(e@),
            },
    {
        match row {
            None => Ok(None),
            Some(None) => Err(AuthError::UnexpectedColumn {
                field: self.user_id_field.clone(),
                table: self.table_name.clone(),
                expected: ColumnType::Varchar,
            }),
            Some(Some(role)) => Ok(Some(role)),
        }
    }

    pub fn database(&self) -> (r: &Option<String>)
        ensures
            r.deep_view() == self@.database,
    {
        &self.database
    }

    pub fn table_name(&self) -> (r: &String)
        ensures
            r@ == self@.table_name,
    {
        &self.table_name
    }

    pub fn user_id_field(&self) -> (r: &String)
        ensures
            r@ == self@.user_id_field,
    {
        &self.user_id_field
    }

    pub fn role_field(&self) -> (r: &String)
        ensures
            r@ == self@.role_field,
    {
        &self.role_field
    }
}

impl Default for MySQLRole {
    fn default() -> (r: Self)
        ensures
            r@ == default_role(),
    {
        MySQLRole {
            database: None,
            table_name: String::from_str("roles_auth"),
            user_id_field: String::from_str("user_id"),
            role_field: String::from_str("role"),
        }
    }
}

/// For every configuration, the role lookup reads the configured role column from
/// the configured table, filtered on the configured user id column.
pub proof fn law_role_lookup_uses_configured_columns(cfg: RoleSpec)
    ensures
        role_sql(cfg) == "SELECT "@ + cfg.role_field + " FROM "@ + cfg.table_name + " WHERE "@
            + cfg.user_id_field + " = ?"@,
{
}

} // verus!
