//! Generating the CRUD endpoints of a discovered MySQL schema.
use vstd::prelude::*;

use crate::auth::statement::string_seqs;
use crate::http_execute::any_sql::{
    client_index, law_bound_in_order, lemma_substitute_plain, marks, params_order, placeholder,
    prepared, rewrite_segment, rewritten, ExecFailure,
};
use crate::http_executor::mysql::{executor_of, ExecutorSpec, MySQLExecutor};
use crate::http_executor::query::{
    nonempty_pieces, split_query, statements_of, SQLBehaviour, SQLQueryWrapper, SqlQuerySpec,
    WrapperSpec,
};
use crate::request::{HttpMethod, ParamValue};
use crate::text::{
    chars_of, concat, lemma_concat_contains, lemma_split_around, lemma_split_prefix,
    lemma_split_without_sep, lemma_trim_lacks, lowercase, split, string_of, to_lowercase, trim,
    trim_end, trim_start, trimmable, trimmed,
};
use vstd::string::StringExecFns;

verus! {

/// A column of a discovered table: its name, and whether it is the primary key.
#[derive(Debug)]
pub struct ColumnSchema {
    pub name: String,
    pub primary: bool,
}

/// A discovered table: its name, its comment and its columns in order.
#[derive(Debug)]
pub struct TableSchema {
    pub name: String,
    pub comment: String,
    pub columns: Vec<ColumnSchema>,
}

pub struct ColumnSpec {
    pub name: Seq<char>,
    pub primary: bool,
}

pub struct TableSpec {
    pub name: Seq<char>,
    pub comment: Seq<char>,
    pub columns: Seq<ColumnSpec>,
}

impl View for ColumnSchema {
    type V = ColumnSpec;

    open spec fn view(&self) -> ColumnSpec {
        ColumnSpec { name: self.name@, primary: self.primary }
    }
}

impl View for TableSchema {
    type V = TableSpec;

    open spec fn view(&self) -> TableSpec {
        TableSpec {
            name: self.name@,
            comment: self.comment@,
            columns: self.columns@.map_values(|c: ColumnSchema| c@),
        }
    }
}

pub open spec fn table_specs(ts: Seq<TableSchema>) -> Seq<TableSpec> {
    ts.map_values(|t: TableSchema| t@)
}

/// A table whose comment is `view` (in any case) is a view.
pub open spec fn is_view(t: TableSpec) -> bool {
    lowercase(t.comment) == "view"@
}

/// The name of the first primary key column.
pub open spec fn key_column(cols: Seq<ColumnSpec>) -> Option<Seq<char>>
    decreases cols.len(),
{
    if cols.len() == 0 {
        None
    } else if cols[0].primary {
        Some(cols[0].name)
    } else {
        key_column(cols.drop_first())
    }
}

/// The names of the columns that are not primary keys, in order.
pub open spec fn value_columns(cols: Seq<ColumnSpec>) -> Seq<Seq<char>>
    decreases cols.len(),
{
    if cols.len() == 0 {
        Seq::<Seq<char>>::empty()
    } else if cols.last().primary {
        value_columns(cols.drop_last())
    } else {
        value_columns(cols.drop_last()).push(cols.last().name)
    }
}

/// The items, each preceded by `", "`.
pub open spec fn comma_fold(items: Seq<Seq<char>>) -> Seq<char>
    decreases items.len(),
{
    if items.len() == 0 {
        Seq::<char>::empty()
    } else {
        comma_fold(items.drop_last()) + ", "@ + items.last()
    }
}

/// `{ c }` for a column `c`: a placeholder for the client parameter `c`.
pub open spec fn placeholder_of(c: Seq<char>) -> Seq<char> {
    "{ "@ + c + " }"@
}

/// `c = { c }` for a column `c`.
pub open spec fn assignment_of(c: Seq<char>) -> Seq<char> {
    c + " = { "@ + c + " }"@
}

/// The columns, comma separated, without leading or trailing spaces or commas.
pub open spec fn column_list(cols: Seq<Seq<char>>) -> Seq<char> {
    trim(comma_fold(cols), true)
}

pub open spec fn placeholder_list(cols: Seq<Seq<char>>) -> Seq<char> {
    trim(comma_fold(cols.map_values(|c: Seq<char>| placeholder_of(c))), true)
}

pub open spec fn assignment_list(cols: Seq<Seq<char>>) -> Seq<char> {
    trim(comma_fold(cols.map_values(|c: Seq<char>| assignment_of(c))), true)
}

/// An endpoint to register: what the HTTP target runs and how it is described.
#[derive(Debug)]
pub struct EndpointPlan {
    pub id: String,
    pub description: String,
    pub method: HttpMethod,
    pub route: String,
    pub version: String,
    pub executor: MySQLExecutor,
    pub query_params: Vec<String>,
    pub body_params: Vec<String>,
    pub capture_all_params: bool,
    pub auto_generated: bool,
    pub deprecated: bool,
    pub tags: Vec<String>,
    pub databases: Vec<String>,
}

pub struct EndpointSpec {
    pub id: Seq<char>,
    pub description: Seq<char>,
    pub method: HttpMethod,
    pub route: Seq<char>,
    pub version: Seq<char>,
    pub executor: ExecutorSpec,
    pub query_params: Seq<Seq<char>>,
    pub body_params: Seq<Seq<char>>,
    pub capture_all_params: bool,
    pub auto_generated: bool,
    pub deprecated: bool,
    pub tags: Seq<Seq<char>>,
    pub databases: Seq<Seq<char>>,
}

impl View for EndpointPlan {
    type V = EndpointSpec;

    open spec fn view(&self) -> EndpointSpec {
        EndpointSpec {
            id: self.id@,
            description: self.description@,
            method: self.method,
            route: self.route@,
            version: self.version@,
            executor: self.executor@,
            query_params: string_seqs(self.query_params@),
            body_params: string_seqs(self.body_params@),
            capture_all_params: self.capture_all_params,
            auto_generated: self.auto_generated,
            deprecated: self.deprecated,
            tags: string_seqs(self.tags@),
            databases: string_seqs(self.databases@),
        }
    }
}

pub open spec fn plan_specs(ps: Seq<EndpointPlan>) -> Seq<EndpointSpec> {
    ps.map_values(|p: EndpointPlan| p@)
}

/// The executor of one query: included or not, with a behaviour, on the primary database.
pub open spec fn single_executor(sql: Seq<char>, included: bool, behaviour: SQLBehaviour) -> ExecutorSpec {
    executor_of(WrapperSpec::Single {
        database: None,
        query: SqlQuerySpec { query: sql, included, behaviour },
    })
}

pub open spec fn route_one(t: TableSpec) -> Seq<char> {
    lowercase(t.name) + "/{id}"@
}

pub open spec fn route_many(t: TableSpec) -> Seq<char> {
    lowercase(t.name)
}

/// GET one row by its primary key: `SELECT * FROM t WHERE pk = {id}`, unique.
pub open spec fn get_one_endpoint(db: Seq<char>, t: TableSpec, pk: Seq<char>) -> EndpointSpec {
    EndpointSpec {
        id: t.name + "_GetOne"@,
        description: "Get row from "@ + t.name + " by it's primary key."@,
        method: HttpMethod::Get,
        route: route_one(t),
        executor: single_executor(
            "SELECT * FROM "@ + t.name + " WHERE "@ + pk + " = {id}"@,
            true,
            SQLBehaviour::Unique,
        ),
        body_params: Seq::<Seq<char>>::empty(),
        version: "v1"@,
        query_params: Seq::<Seq<char>>::empty(),
        capture_all_params: false,
        auto_generated: true,
        deprecated: false,
        tags: seq![t.name, "get_one"@],
        databases: seq![db],
    }
}

/// GET all rows: `SELECT * FROM t`.
pub open spec fn get_many_endpoint(db: Seq<char>, t: TableSpec) -> EndpointSpec {
    EndpointSpec {
        id: t.name + "_GetMany"@,
        description: "Get all rows from "@ + t.name + "."@,
        method: HttpMethod::Get,
        route: route_many(t),
        executor: single_executor("SELECT * FROM "@ + t.name, true, SQLBehaviour::Permissive),
        body_params: Seq::<Seq<char>>::empty(),
        version: "v1"@,
        query_params: Seq::<Seq<char>>::empty(),
        capture_all_params: false,
        auto_generated: true,
        deprecated: false,
        tags: seq![t.name, "get_all"@],
        databases: seq![db],
    }
}

/// POST a row: `INSERT INTO t (c1, c2) VALUES ({ c1 }, { c2 })` over the columns
/// that are not primary keys, which are the body parameters.
pub open spec fn post_endpoint(db: Seq<char>, t: TableSpec, cols: Seq<Seq<char>>) -> EndpointSpec {
    EndpointSpec {
        id: t.name + "_Post"@,
        description: "Insert data into "@ + t.name + "."@,
        method: HttpMethod::Post,
        route: route_many(t),
        executor: single_executor(
            "INSERT INTO "@ + t.name + " ("@ + column_list(cols) + ") VALUES ("@ + placeholder_list(
                cols,
            ) + ")"@,
            false,
            SQLBehaviour::Permissive,
        ),
        body_params: cols,
        version: "v1"@,
        query_params: Seq::<Seq<char>>::empty(),
        capture_all_params: false,
        auto_generated: true,
        deprecated: false,
        tags: seq![t.name, "post"@],
        databases: seq![db],
    }
}

/// PUT a row: `UPDATE t SET c1 = { c1 }, c2 = { c2 } WHERE pk = {id} `.
pub open spec fn put_endpoint(db: Seq<char>, t: TableSpec, pk: Seq<char>, cols: Seq<Seq<char>>) -> EndpointSpec {
    EndpointSpec {
        id: t.name + "_Put"@,
        description: "Updates "@ + t.name + " on row with the given primary key."@,
        method: HttpMethod::Put,
        route: route_one(t),
        executor: single_executor(
            "UPDATE "@ + t.name + " SET "@ + assignment_list(cols) + " WHERE "@ + pk + " = {id} "@,
            false,
            SQLBehaviour::Permissive,
        ),
        body_params: cols,
        version: "v1"@,
        query_params: Seq::<Seq<char>>::empty(),
        capture_all_params: false,
        auto_generated: true,
        deprecated: false,
        tags: seq![t.name, "put"@],
        databases: seq![db],
    }
}

/// DELETE a row: `DELETE FROM t WHERE pk = {id} `.
pub open spec fn delete_endpoint(db: Seq<char>, t: TableSpec, pk: Seq<char>) -> EndpointSpec {
    EndpointSpec {
        id: t.name + "_Delete"@,
        description: "Deletes data from "@ + t.name + " with the given primary key."@,
        method: HttpMethod::Delete,
        route: route_one(t),
        executor: single_executor(
            "DELETE FROM "@ + t.name + " WHERE "@ + pk + " = {id} "@,
            false,
            SQLBehaviour::Permissive,
        ),
        body_params: Seq::<Seq<char>>::empty(),
        version: "v1"@,
        query_params: Seq::<Seq<char>>::empty(),
        capture_all_params: false,
        auto_generated: true,
        deprecated: false,
        tags: seq![t.name, "delete"@],
        databases: seq![db],
    }
}

/// The endpoints of a table, in the order GET, POST, PUT, DELETE: a view gets only
/// GET many; a table without a primary key gets GET many and POST; any other table
/// gets GET one, GET many, POST, PUT and DELETE.
pub open spec fn table_endpoints(db: Seq<char>, t: TableSpec) -> Seq<EndpointSpec> {
    let pk = key_column(t.columns);
    let cols = value_columns(t.columns);
    let keyed = pk is Some && !is_view(t);
    (if keyed { seq![get_one_endpoint(db, t, pk->0)] } else { Seq::<EndpointSpec>::empty() })
        + seq![get_many_endpoint(db, t)]
        + (if !is_view(t) { seq![post_endpoint(db, t, cols)] } else { Seq::<EndpointSpec>::empty() })
        + (if keyed {
            seq![put_endpoint(db, t, pk->0, cols), delete_endpoint(db, t, pk->0)]
        } else {
            Seq::<EndpointSpec>::empty()
        })
}

/// The endpoints of the tables that are not skipped, table after table.
pub open spec fn schema_endpoints(db: Seq<char>, skip: Seq<Seq<char>>, tables: Seq<TableSpec>) -> Seq<EndpointSpec>
    decreases tables.len(),
{
    if tables.len() == 0 {
        Seq::<EndpointSpec>::empty()
    } else if skip.contains(tables.last().name) {
        schema_endpoints(db, skip, tables.drop_last())
    } else {
        schema_endpoints(db, skip, tables.drop_last()) + table_endpoints(db, tables.last())
    }
}

/// How each column is written in a comma separated list.
#[derive(Clone, Copy, PartialEq, Eq, Structural, Debug)]
pub enum ListItem {
    /// `c`
    Name,
    /// `{ c }`
    Placeholder,
    /// `c = { c }`
    Assignment,
}

pub open spec fn item_text(kind: ListItem, c: Seq<char>) -> Seq<char> {
    match kind {
        ListItem::Name => c,
        ListItem::Placeholder => placeholder_of(c),
        ListItem::Assignment => assignment_of(c),
    }
}

/// The columns written as `kind` says, comma separated, without leading or
/// trailing spaces or commas.
fn list_text(cols: &Vec<String>, kind: ListItem) -> (r: String)
    ensures
        r@ == trim(comma_fold(string_seqs(cols@).map_values(|c: Seq<char>| item_text(kind, c))), true),
{
    let ghost items = string_seqs(cols@).map_values(|c: Seq<char>| item_text(kind, c));
    let mut s = String::new();
    let mut i: usize = 0;
    assert(items.take(0) =~= Seq::<Seq<char>>::empty());
    while i < cols.len()
        invariant
            i <= cols.len(),
            items == string_seqs(cols@).map_values(|c: Seq<char>| item_text(kind, c)),
            s@ == comma_fold(items.take(i as int)),
        decreases cols.len() - i,
    {
        assert(items.take(i + 1).drop_last() =~= items.take(i as int));
        assert(items[i as int] == item_text(kind, cols@[i as int]@));
        s.append(", ");
        match kind {
            ListItem::Name => {
                s.append(cols[i].as_str());
            },
            ListItem::Placeholder => {
                s.append("{ ");
                s.append(cols[i].as_str());
                s.append(" }");
            },
            ListItem::Assignment => {
                s.append(cols[i].as_str());
                s.append(" = { ");
                s.append(cols[i].as_str());
                s.append(" }");
            },
        }
        i += 1;
    }
    assert(items.take(cols.len() as int) =~= items);
    let chars = chars_of(s.as_str());
    let t = trimmed(&chars, true);
    string_of(&t)
}

fn column_list_text(cols: &Vec<String>) -> (r: String)
    ensures
        r@ == column_list(string_seqs(cols@)),
{
    let r = list_text(cols, ListItem::Name);
    assert(string_seqs(cols@).map_values(|c: Seq<char>| item_text(ListItem::Name, c)) =~= string_seqs(cols@));
    r
}

fn placeholder_list_text(cols: &Vec<String>) -> (r: String)
    ensures
        r@ == placeholder_list(string_seqs(cols@)),
{
    let r = list_text(cols, ListItem::Placeholder);
    assert(string_seqs(cols@).map_values(|c: Seq<char>| item_text(ListItem::Placeholder, c)) =~= string_seqs(cols@).map_values(|c: Seq<char>| placeholder_of(c)));
    r
}

fn assignment_list_text(cols: &Vec<String>) -> (r: String)
    ensures
        r@ == assignment_list(string_seqs(cols@)),
{
    let r = list_text(cols, ListItem::Assignment);
    assert(string_seqs(cols@).map_values(|c: Seq<char>| item_text(ListItem::Assignment, c)) =~= string_seqs(cols@).map_values(|c: Seq<char>| assignment_of(c)));
    r
}

pub open spec fn column_specs(cols: Seq<ColumnSchema>) -> Seq<ColumnSpec> {
    cols.map_values(|c: ColumnSchema| c@)
}

/// The name of the first primary key column (see `key_column`).
pub fn key_column_name(cols: &Vec<ColumnSchema>) -> (r: Option<String>)
    ensures
        r.deep_view() == key_column(column_specs(cols@)),
{
    let ghost cs = column_specs(cols@);
    let mut i: usize = 0;
    assert(cs.subrange(0, cs.len() as int) =~= cs);
    while i < cols.len()
        invariant
            i <= cols.len(),
            cs == column_specs(cols@),
            key_column(cs) == key_column(cs.subrange(i as int, cs.len() as int)),
        decreases cols.len() - i,
    {
        let ghost rest = cs.subrange(i as int, cs.len() as int);
        assert(rest[0] == cols@[i as int]@);
        if cols[i].primary {
            return Some(cols[i].name.clone());
        }
        assert(rest.drop_first() =~= cs.subrange(i + 1, cs.len() as int));
        i += 1;
    }
    None
}

/// The names of the columns that are not primary keys (see `value_columns`).
pub fn value_column_names(cols: &Vec<ColumnSchema>) -> (r: Vec<String>)
    ensures
        string_seqs(r@) == value_columns(column_specs(cols@)),
{
    let ghost cs = column_specs(cols@);
    let mut out: Vec<String> = Vec::new();
    let mut i: usize = 0;
    assert(cs.take(0) =~= Seq::<ColumnSpec>::empty());
    while i < cols.len()
        invariant
            i <= cols.len(),
            cs == column_specs(cols@),
            string_seqs(out@) == value_columns(cs.take(i as int)),
        decreases cols.len() - i,
    {
        assert(cs.take(i + 1).drop_last() =~= cs.take(i as int));
        assert(cs[i as int] == cols@[i as int]@);
        if !cols[i].primary {
            let ghost before = string_seqs(out@);
            out.push(cols[i].name.clone());
            assert(string_seqs(out@) =~= before.push(cols@[i as int].name@));
        }
        i += 1;
    }
    assert(cs.take(cols.len() as int) =~= cs);
    out
}

fn single_executor_of(sql: String, included: bool, behaviour: SQLBehaviour) -> (r: MySQLExecutor)
    ensures
        r@ == single_executor(sql@, included, behaviour),
{
    let w = SQLQueryWrapper::new(sql).with_include(included).with_behaviour(behaviour);
    MySQLExecutor::from(w)
}

fn pair(a: String, b: &str) -> (r: Vec<String>)
    ensures
        string_seqs(r@) == seq![a@, b@],
{
    let mut r: Vec<String> = Vec::new();
    r.push(a);
    r.push(String::from_str(b));
    assert(string_seqs(r@) =~= seq![r@[0]@, b@]);
    r
}

fn one(a: &String) -> (r: Vec<String>)
    ensures
        string_seqs(r@) == seq![a@],
{
    let mut r: Vec<String> = Vec::new();
    r.push(a.clone());
    assert(string_seqs(r@) =~= seq![a@]);
    r
}

fn none() -> (r: Vec<String>)
    ensures
        string_seqs(r@) == Seq::<Seq<char>>::empty(),
{
    let r: Vec<String> = Vec::new();
    assert(string_seqs(r@) =~= Seq::<Seq<char>>::empty());
    r
}

fn named(name: &String, suffix: &str) -> (r: String)
    ensures
        r@ == name@ + suffix@,
{
    let mut r = name.clone();
    r.append(suffix);
    r
}

fn described(prefix: &str, name: &String, suffix: &str) -> (r: String)
    ensures
        r@ == prefix@ + name@ + suffix@,
{
    let mut r = String::from_str(prefix);
    r.append(name.as_str());
    r.append(suffix);
    r
}

fn get_one_plan(db: &String, t: &TableSchema, pk: &String, route: String) -> (p: EndpointPlan)
    requires
        route@ == route_one(t@),
    ensures
        p@ == get_one_endpoint(db@, t@, pk@),
{
    let mut sql = String::from_str("SELECT * FROM ");
    sql.append(t.name.as_str());
    sql.append(" WHERE ");
    sql.append(pk.as_str());
    sql.append(" = {id}");
    EndpointPlan {
        id: named(&t.name, "_GetOne"),
        description: described("Get row from ", &t.name, " by it's primary key."),
        method: HttpMethod::Get,
        route,
        executor: single_executor_of(sql, true, SQLBehaviour::Unique),
        body_params: none(),
        version: String::from_str("v1"),
        query_params: none(),
        capture_all_params: false,
        auto_generated: true,
        deprecated: false,
        tags: pair(t.name.clone(), "get_one"),
        databases: one(db),
    }
}

fn get_many_plan(db: &String, t: &TableSchema, route: String) -> (p: EndpointPlan)
    requires
        route@ == route_many(t@),
    ensures
        p@ == get_many_endpoint(db@, t@),
{
    let mut sql = String::from_str("SELECT * FROM ");
    sql.append(t.name.as_str());
    EndpointPlan {
        id: named(&t.name, "_GetMany"),
        description: described("Get all rows from ", &t.name, "."),
        method: HttpMethod::Get,
        route,
        executor: single_executor_of(sql, true, SQLBehaviour::Permissive),
        body_params: none(),
        version: String::from_str("v1"),
        query_params: none(),
        capture_all_params: false,
        auto_generated: true,
        deprecated: false,
        tags: pair(t.name.clone(), "get_all"),
        databases: one(db),
    }
}

fn post_plan(db: &String, t: &TableSchema, cols: &Vec<String>, route: String) -> (p: EndpointPlan)
    requires
        route@ == route_many(t@),
    ensures
        p@ == post_endpoint(db@, t@, string_seqs(cols@)),
{
    let mut sql = String::from_str("INSERT INTO ");
    sql.append(t.name.as_str());
    sql.append(" (");
    sql.append(column_list_text(cols).as_str());
    sql.append(") VALUES (");
    sql.append(placeholder_list_text(cols).as_str());
    sql.append(")");
    let mut body: Vec<String> = Vec::new();
    let mut i: usize = 0;
    while i < cols.len()
        invariant
            i <= cols.len(),
            string_seqs(body@) == string_seqs(cols@).take(i as int),
        decreases cols.len() - i,
    {
        let ghost before = string_seqs(body@);
        body.push(cols[i].clone());
        assert(string_seqs(body@) =~= before.push(cols@[i as int]@));
        assert(string_seqs(cols@).take(i + 1) =~= string_seqs(cols@).take(i as int).push(cols@[i as int]@));
        i += 1;
    }
    assert(string_seqs(cols@).take(cols.len() as int) =~= string_seqs(cols@));
    EndpointPlan {
        id: named(&t.name, "_Post"),
        description: described("Insert data into ", &t.name, "."),
        method: HttpMethod::Post,
        route,
        executor: single_executor_of(sql, false, SQLBehaviour::Permissive),
        body_params: body,
        version: String::from_str("v1"),
        query_params: none(),
        capture_all_params: false,
        auto_generated: true,
        deprecated: false,
        tags: pair(t.name.clone(), "post"),
        databases: one(db),
    }
}

fn put_plan(db: &String, t: &TableSchema, pk: &String, cols: Vec<String>, route: String) -> (p: EndpointPlan)
    requires
        route@ == route_one(t@),
    ensures
        p@ == put_endpoint(db@, t@, pk@, string_seqs(cols@)),
{
    let mut sql = String::from_str("UPDATE ");
    sql.append(t.name.as_str());
    sql.append(" SET ");
    sql.append(assignment_list_text(&cols).as_str());
    sql.append(" WHERE ");
    sql.append(pk.as_str());
    sql.append(" = {id} ");
    EndpointPlan {
        id: named(&t.name, "_Put"),
        description: described("Updates ", &t.name, " on row with the given primary key."),
        method: HttpMethod::Put,
        route,
        executor: single_executor_of(sql, false, SQLBehaviour::Permissive),
        body_params: cols,
        version: String::from_str("v1"),
        query_params: none(),
        capture_all_params: false,
        auto_generated: true,
        deprecated: false,
        tags: pair(t.name.clone(), "put"),
        databases: one(db),
    }
}

fn delete_plan(db: &String, t: &TableSchema, pk: &String, route: String) -> (p: EndpointPlan)
    requires
        route@ == route_one(t@),
    ensures
        p@ == delete_endpoint(db@, t@, pk@),
{
    let mut sql = String::from_str("DELETE FROM ");
    sql.append(t.name.as_str());
    sql.append(" WHERE ");
    sql.append(pk.as_str());
    sql.append(" = {id} ");
    EndpointPlan {
        id: named(&t.name, "_Delete"),
        description: described("Deletes data from ", &t.name, " with the given primary key."),
        method: HttpMethod::Delete,
        route,
        executor: single_executor_of(sql, false, SQLBehaviour::Permissive),
        body_params: none(),
        version: String::from_str("v1"),
        query_params: none(),
        capture_all_params: false,
        auto_generated: true,
        deprecated: false,
        tags: pair(t.name.clone(), "delete"),
        databases: one(db),
    }
}

/// Appends the endpoints of table `t` (see `table_endpoints`) to `out`.
fn push_table_plans(db: &String, t: &TableSchema, out: &mut Vec<EndpointPlan>)
    ensures
        plan_specs(final(out)@) == plan_specs(old(out)@) + table_endpoints(db@, t@),
{
    let ghost start = plan_specs(out@);
    let lowered_comment = to_lowercase(t.comment.as_str());
    let view = crate::auth::statement::str_eq(lowered_comment.as_str(), "view");
    let pk = key_column_name(&t.columns);
    let cols = value_column_names(&t.columns);
    let many = to_lowercase(t.name.as_str());
    let mut one_route = many.clone();
    one_route.append("/{id}");
    assert(t@.columns == column_specs(t.columns@));
    let ghost keyed = pk.deep_view() is Some && !is_view(t@);
    if let Some(k) = &pk {
        if !view {
            let p = get_one_plan(db, t, k, one_route.clone());
            let ghost before = plan_specs(out@);
            out.push(p);
            assert(plan_specs(out@) =~= before.push(get_one_endpoint(db@, t@, k@)));
        }
    }
    assert(plan_specs(out@) =~= start + (if keyed { seq![get_one_endpoint(db@, t@, key_column(t@.columns)->0)] } else { Seq::<EndpointSpec>::empty() }));
    let ghost after_one = plan_specs(out@);
    let p = get_many_plan(db, t, many.clone());
    out.push(p);
    assert(plan_specs(out@) =~= after_one.push(get_many_endpoint(db@, t@)));
    let ghost after_many = plan_specs(out@);
    if !view {
        let p = post_plan(db, t, &cols, many);
        out.push(p);
        assert(plan_specs(out@) =~= after_many.push(post_endpoint(db@, t@, value_columns(t@.columns))));
    }
    let ghost after_post = plan_specs(out@);
    if let Some(k) = &pk {
        if !view {
            let p = put_plan(db, t, k, cols, one_route.clone());
            out.push(p);
            let p = delete_plan(db, t, k, one_route);
            out.push(p);
            assert(plan_specs(out@) =~= after_post + seq![
                put_endpoint(db@, t@, k@, value_columns(t@.columns)),
                delete_endpoint(db@, t@, k@),
            ]);
        }
    }
    assert(plan_specs(out@) =~= start + table_endpoints(db@, t@));
}

/// The discovery of a MySQL database's schema, from which CRUD endpoints are generated.
#[derive(Debug)]
pub struct MySQLSchemaDiscovery {
    database: String,
    /// Tables to leave out (the authentication, session and role tables are left out too).
    skip_tables: Vec<String>,
}

pub struct DiscoverySpec {
    pub database: Seq<char>,
    pub skip_tables: Seq<Seq<char>>,
}

impl View for MySQLSchemaDiscovery {
    type V = DiscoverySpec;

    closed spec fn view(&self) -> DiscoverySpec {
        DiscoverySpec { database: self.database@, skip_tables: string_seqs(self.skip_tables@) }
    }
}

/// One step of the bitwise CRC-32 division, reflected, by the IEEE polynomial.
pub open spec fn crc32_bit(c: u32) -> u32 {
    if (c & 1u32) == 1u32 {
        (c >> 1u32) ^ 0xEDB8_8320u32
    } else {
        c >> 1u32
    }
}

/// `k` steps of the division.
pub open spec fn crc32_bits(c: u32, k: nat) -> u32
    decreases k,
{
    if k == 0 {
        c
    } else {
        crc32_bits(crc32_bit(c), (k - 1) as nat)
    }
}

/// The register after the bytes `data`, from `c`: each byte is xored into the
/// low bits, then divided through its eight bits.
pub open spec fn crc32_update(c: u32, data: Seq<u8>) -> u32
    decreases data.len(),
{
    if data.len() == 0 {
        c
    } else {
        crc32_update(crc32_bits(c ^ (data[0] as u32), 8), data.drop_first())
    }
}

/// The CRC-32 (IEEE) checksum of `data`: the register starts with all bits set
/// and is inverted at the end.
pub open spec fn crc32(data: Seq<u8>) -> u32 {
    crc32_update(0xFFFF_FFFFu32, data) ^ 0xFFFF_FFFFu32
}

/// Calls `crc32fast::hash`, which returns the CRC-32 (IEEE) checksum of `data`
/// (see `crc32`).
#[verifier::external_body]
pub(crate) fn crc32_hash(data: &[u8]) -> (r: u32)
    ensures
        r == crc32(data@),
{
    crc32fast::hash(data)
}

fn name_listed(names: &Vec<String>, name: &String) -> (r: bool)
    ensures
        r == string_seqs(names@).contains(name@),
{
    let mut i: usize = 0;
    while i < names.len()
        invariant
            i <= names.len(),
            forall|k: int| 0 <= k < i ==> string_seqs(names@)[k] != name@,
        decreases names.len() - i,
    {
        if crate::auth::statement::str_eq(names[i].as_str(), name.as_str()) {
            assert(string_seqs(names@)[i as int] == name@);
            return true;
        }
        i += 1;
    }
    false
}

impl MySQLSchemaDiscovery {
    pub fn new(database: String, skip_tables: Vec<String>) -> (r: Self)
        ensures
            r@ == (DiscoverySpec { database: database@, skip_tables: string_seqs(skip_tables@) }),
    {
        MySQLSchemaDiscovery { database, skip_tables }
    }

    /// The generator's name.
    pub fn name(&self) -> (r: &'static str)
        ensures
            r@ == "mysql_schema"@,
    {
        "mysql_schema"
    }

    /// The generator's id: its name and its database, `mysql_schema:<database>`.
    pub fn id(&self) -> (r: String)
        ensures
            r@ == "mysql_schema"@ + ":"@ + self@.database,
    {
        let mut r = String::from_str("mysql_schema");
        r.append(":");
        r.append(self.database.as_str());
        r
    }

    /// The checksum of the discovered schema's description.
    pub fn checksum(&self, description: &[u8]) -> (r: u32)
        ensures
            r == crc32(description@),
    {
        crc32_hash(description)
    }

    /// The endpoints of the discovered tables (see `schema_endpoints`).
    pub fn plan_endpoints(&self, tables: &Vec<TableSchema>) -> (r: Vec<EndpointPlan>)
        ensures
            plan_specs(r@) == schema_endpoints(self@.database, self@.skip_tables, table_specs(tables@)),
    {
        let ghost ts = table_specs(tables@);
        let mut out: Vec<EndpointPlan> = Vec::new();
        let mut i: usize = 0;
        assert(ts.take(0) =~= Seq::<TableSpec>::empty());
        assert(plan_specs(out@) =~= Seq::<EndpointSpec>::empty());
        while i < tables.len()
            invariant
                i <= tables.len(),
                ts == table_specs(tables@),
                plan_specs(out@) == schema_endpoints(self@.database, self@.skip_tables, ts.take(i as int)),
            decreases tables.len() - i,
        {
            assert(ts.take(i + 1).drop_last() =~= ts.take(i as int));
            assert(ts[i as int] == tables@[i as int]@);
            if !name_listed(&self.skip_tables, &tables[i].name) {
                push_table_plans(&self.database, &tables[i], &mut out);
            }
            i += 1;
        }
        assert(ts.take(tables.len() as int) =~= ts);
        out
    }

    /// Where, among the configured connections given by their database ids in
    /// order, the discovery's connection is: the first with the discovery's
    /// database id (`None` when no connection has it).
    pub fn connection_index(&self, ids: &Vec<String>) -> (r: Option<usize>)
        ensures
            match r {
                Some(i) => {
                    &&& i < ids.len()
                    &&& ids@[i as int]@ == self@.database
                    &&& forall|j: int| 0 <= j < i ==> (#[trigger] ids@[j])@ != self@.database
                },
                None => forall|j: int| 0 <= j < ids.len() ==> (#[trigger] ids@[j])@ != self@.database,
            },
    {
        let mut i: usize = 0;
        while i < ids.len()
            invariant
                i <= ids.len(),
                forall|j: int| 0 <= j < i ==> (#[trigger] ids@[j])@ != self@.database,
            decreases ids.len() - i,
        {
            if ids[i] == self.database {
                return Some(i);
            }
            i += 1;
        }
        None
    }

    pub fn database(&self) -> (r: &String)
        ensures
            r@ == self@.database,
    {
        &self.database
    }

    pub fn skip_tables(&self) -> (r: &Vec<String>)
        ensures
            string_seqs(r@) == self@.skip_tables,
    {
        &self.skip_tables
    }
}

pub open spec fn methods_of(es: Seq<EndpointSpec>) -> Seq<HttpMethod> {
    es.map_values(|e: EndpointSpec| e.method)
}

/// A view gets only GET many; a table without a primary key gets GET many and
/// POST; any other table gets GET one, GET many, POST, PUT and DELETE.
pub proof fn law_endpoints_by_table_kind(db: Seq<char>, t: TableSpec)
    ensures
        is_view(t) ==> methods_of(table_endpoints(db, t)) == seq![HttpMethod::Get],
        !is_view(t) && key_column(t.columns) is None ==> methods_of(table_endpoints(db, t)) == seq![
            HttpMethod::Get,
            HttpMethod::Post,
        ],
        !is_view(t) && key_column(t.columns) is Some ==> methods_of(table_endpoints(db, t)) == seq![
            HttpMethod::Get,
            HttpMethod::Get,
            HttpMethod::Post,
            HttpMethod::Put,
            HttpMethod::Delete,
        ],
{
    let es = table_endpoints(db, t);
    if is_view(t) {
        assert(methods_of(es) =~= seq![HttpMethod::Get]);
    } else if key_column(t.columns) is None {
        assert(methods_of(es) =~= seq![HttpMethod::Get, HttpMethod::Post]);
    } else {
        assert(methods_of(es) =~= seq![
            HttpMethod::Get,
            HttpMethod::Get,
            HttpMethod::Post,
            HttpMethod::Put,
            HttpMethod::Delete,
        ]);
    }
}

/// What every generated endpoint carries alike: version `v1`, no query
/// parameters, no capture of all parameters, marked auto-generated, not deprecated.
pub open spec fn generated_defaults(e: EndpointSpec) -> bool {
    &&& e.version == "v1"@
    &&& e.query_params.len() == 0
    &&& !e.capture_all_params
    &&& e.auto_generated
    &&& !e.deprecated
}

/// Every generated endpoint uses the discovery's database, carries the generated
/// defaults (see `generated_defaults`), and none comes from a skipped table (each
/// endpoint's first tag is its table's name).
pub proof fn law_endpoints_use_database_and_skip(db: Seq<char>, skip: Seq<Seq<char>>, tables: Seq<TableSpec>)
    ensures
        forall|i: int|
            0 <= i < schema_endpoints(db, skip, tables).len() ==> {
                &&& (#[trigger] schema_endpoints(db, skip, tables)[i]).databases == seq![db]
                &&& generated_defaults(schema_endpoints(db, skip, tables)[i])
                &&& !skip.contains(schema_endpoints(db, skip, tables)[i].tags[0])
            },
    decreases tables.len(),
{
    if tables.len() > 0 {
        law_endpoints_use_database_and_skip(db, skip, tables.drop_last());
        let prev = schema_endpoints(db, skip, tables.drop_last());
        if !skip.contains(tables.last().name) {
            let es = table_endpoints(db, tables.last());
            assert forall|j: int| 0 <= j < es.len() implies (#[trigger] es[j]).databases == seq![db]
                && generated_defaults(es[j]) && es[j].tags[0] == tables.last().name by {
            }
            let all = prev + es;
            assert forall|i: int| 0 <= i < all.len() implies {
                &&& (#[trigger] all[i]).databases == seq![db]
                &&& generated_defaults(all[i])
                &&& !skip.contains(all[i].tags[0])
            } by {
                if i >= prev.len() {
                    assert(all[i] == es[i - prev.len()]);
                }
            }
        }
    }
}

/// A name that the generated statements can hold as they are: no braces, no `|`, no `;`.
pub open spec fn plain_name(s: Seq<char>) -> bool {
    !s.contains('{') && !s.contains('}') && !s.contains('|') && !s.contains(';')
}

/// The GET one endpoint runs one statement, and its only placeholder is the route's
/// `{id}`: for a request that sends `id`, the statement selects by the primary key
/// with `?` in its place, and the one value bound is the `id` parameter's.
pub proof fn law_get_one_binds_id<V>(db: Seq<char>, t: TableSpec, pk: Seq<char>, params: Seq<(String, ParamValue<V>)>)
    requires
        plain_name(t.name),
        plain_name(pk),
        client_index(params, "id"@) is Some,
    ensures
        get_one_endpoint(db, t, pk).executor.queries.len() == 1,
        get_one_endpoint(db, t, pk).executor.queries[0].behaviour == SQLBehaviour::Unique,
        prepared(get_one_endpoint(db, t, pk).executor.queries[0].query, HttpMethod::Get, params)
            == Ok::<(Seq<char>, Seq<int>), ExecFailure>(
            (
                "SELECT * FROM "@ + t.name + " WHERE "@ + pk + " = ?"@,
                seq![client_index(params, "id"@)->0],
            ),
        ),
{
    reveal_strlit("SELECT * FROM ");
    reveal_strlit(" WHERE ");
    reveal_strlit(" = {id}");
    reveal_strlit(" = ?");
    reveal_strlit(" = ");
    reveal_strlit("id}");
    reveal_strlit("id");
    reveal_strlit("?");
    let head = "SELECT * FROM "@ + t.name + " WHERE "@ + pk + " = "@;
    let tail = "id}"@;
    let sql = "SELECT * FROM "@ + t.name + " WHERE "@ + pk + " = {id}"@;
    assert(" = {id}"@ =~= " = "@ + seq!['{'] + tail);
    assert(sql =~= head + seq!['{'] + tail);
    // The literal parts hold none of the special characters.
    assert forall|c: char| c == '{' || c == '}' || c == '|' || c == ';' implies !head.contains(c) by {
        assert(!"SELECT * FROM "@.contains(c));
        assert(!" WHERE "@.contains(c));
        assert(!" = "@.contains(c));
        lemma_concat_contains("SELECT * FROM "@, t.name, c);
        lemma_concat_contains("SELECT * FROM "@ + t.name, " WHERE "@, c);
        lemma_concat_contains("SELECT * FROM "@ + t.name + " WHERE "@, pk, c);
        lemma_concat_contains("SELECT * FROM "@ + t.name + " WHERE "@ + pk, " = "@, c);
    }
    // One statement, run as configured.
    assert(!sql.contains(';')) by {
        lemma_concat_contains(head + seq!['{'], tail, ';');
        lemma_concat_contains(head, seq!['{'], ';');
    }
    lemma_split_without_sep(sql, ';');
    assert(sql.len() > 0);
    assert(split(sql, ';').drop_last() =~= Seq::<Seq<char>>::empty());
    assert(nonempty_pieces(Seq::<Seq<char>>::empty()) == Seq::<Seq<char>>::empty());
    assert(nonempty_pieces(split(sql, ';')) == Seq::<Seq<char>>::empty().push(sql));
    assert(statements_of(sql) =~= seq![sql]);
    let q = SqlQuerySpec { query: sql, included: true, behaviour: SQLBehaviour::Unique };
    assert(split_query(q) =~= seq![q]);
    // The placeholder.
    lemma_split_without_sep(head, '{');
    lemma_split_without_sep(tail, '{');
    lemma_split_around(head, tail, '{');
    let segs = split(sql, '{');
    assert(segs == seq![head, tail]);
    assert("id"@ =~= seq!['i', 'd']);
    assert(tail =~= "id"@ + seq!['}'] + Seq::<char>::empty());
    assert(!"id"@.contains('}'));
    lemma_split_without_sep("id"@, '}');
    lemma_split_without_sep(Seq::<char>::empty(), '}');
    lemma_split_around("id"@, Seq::<char>::empty(), '}');
    assert(split(tail, '}') == seq!["id"@, Seq::<char>::empty()]);
    assert(trim_start("id"@, false) == "id"@);
    assert(trim_end("id"@, false) == "id"@);
    assert(placeholder(tail) == "id"@);
    assert(segs.drop_first().map_values(|seg: Seq<char>| placeholder(seg)) =~= seq!["id"@]);
    assert(seq!["id"@].drop_last() =~= Seq::<Seq<char>>::empty());
    assert(params_order(sql) == seq!["id"@]);
    // The statement with `?` in its place.
    lemma_split_without_sep(head, '}');
    assert(rewrite_segment(head) == head);
    assert(tail.skip(2) =~= seq!['}']);
    assert(marks(seq!['}']) =~= "?"@);
    assert(rewrite_segment(tail) == "?"@);
    let rs = segs.map_values(|seg: Seq<char>| rewrite_segment(seg));
    assert(rs =~= seq![head, "?"@]);
    assert(rs.drop_last() =~= seq![head]);
    assert(seq![head].drop_last() =~= Seq::<Seq<char>>::empty());
    assert(Seq::<char>::empty() + head =~= head);
    assert(concat(Seq::<Seq<char>>::empty()) == Seq::<char>::empty());
    assert(concat(seq![head]) == concat(Seq::<Seq<char>>::empty()) + head);
    assert(concat(seq![head]) == head);
    assert(concat(rs) == concat(rs.drop_last()) + rs.last());
    assert(rewritten(sql) == head + "?"@);
    assert(head + "?"@ =~= "SELECT * FROM "@ + t.name + " WHERE "@ + pk + " = ?"@);
    assert(!(head + "?"@).contains('|')) by {
        lemma_concat_contains(head, "?"@, '|');
    }
    lemma_substitute_plain(head + "?"@, params);
    assert forall|k: int| 0 <= k < params_order(sql).len() implies (#[trigger] client_index(
        params,
        params_order(sql)[k],
    )) is Some by {
    }
    law_bound_in_order(params_order(sql), params, HttpMethod::Get, head + "?"@);
    assert(params_order(sql).map_values(|n: Seq<char>| client_index(params, n)->0) =~= seq![
        client_index(params, "id"@)->0,
    ]);
}

/// A column name the generated statements carry through as it is: plain, not
/// empty, and neither starting nor ending with white space or a comma.
pub open spec fn well_named(c: Seq<char>) -> bool {
    plain_name(c) && c.len() > 0 && !trimmable(c[0], true) && !trimmable(c.last(), true)
}

pub open spec fn all_well_named(cs: Seq<Seq<char>>) -> bool {
    forall|i: int| 0 <= i < cs.len() ==> well_named(#[trigger] cs[i])
}

spec fn pfold(cs: Seq<Seq<char>>) -> Seq<char> {
    comma_fold(cs.map_values(|c: Seq<char>| placeholder_of(c)))
}

spec fn afold(cs: Seq<Seq<char>>) -> Seq<char> {
    comma_fold(cs.map_values(|c: Seq<char>| assignment_of(c)))
}

proof fn lemma_all_well_named_init(cs: Seq<Seq<char>>)
    requires
        all_well_named(cs),
        cs.len() > 0,
    ensures
        all_well_named(cs.drop_last()),
        well_named(cs.last()),
{
    assert forall|i: int| 0 <= i < cs.drop_last().len() implies well_named(#[trigger] cs.drop_last()[i]) by {
        assert(cs.drop_last()[i] == cs[i]);
    }
    assert(well_named(cs[cs.len() - 1]));
}

proof fn lemma_pfold_step(cs: Seq<Seq<char>>)
    requires
        cs.len() > 0,
    ensures
        pfold(cs) == pfold(cs.drop_last()) + ", "@ + placeholder_of(cs.last()),
{
    let m = cs.map_values(|c: Seq<char>| placeholder_of(c));
    assert(m.drop_last() =~= cs.drop_last().map_values(|c: Seq<char>| placeholder_of(c)));
    assert(m.last() == placeholder_of(cs.last()));
}

proof fn lemma_afold_step(cs: Seq<Seq<char>>)
    requires
        cs.len() > 0,
    ensures
        afold(cs) == afold(cs.drop_last()) + ", "@ + assignment_of(cs.last()),
{
    let m = cs.map_values(|c: Seq<char>| assignment_of(c));
    assert(m.drop_last() =~= cs.drop_last().map_values(|c: Seq<char>| assignment_of(c)));
    assert(m.last() == assignment_of(cs.last()));
}

/// `" c }" + tail` names `c`.
proof fn lemma_padded_placeholder(c: Seq<char>, tail: Seq<char>)
    requires
        well_named(c),
        !tail.contains('}'),
    ensures
        placeholder(" "@ + c + " }"@ + tail) == c,
{
    reveal_strlit(" ");
    reveal_strlit(" }");
    let inner = " "@ + c + " "@;
    let s = " "@ + c + " }"@ + tail;
    assert(s =~= inner + seq!['}'] + tail);
    assert(!inner.contains('}')) by {
        lemma_concat_contains(" "@, c, '}');
        lemma_concat_contains(" "@ + c, " "@, '}');
    }
    lemma_split_without_sep(inner, '}');
    lemma_split_without_sep(tail, '}');
    lemma_split_around(inner, tail, '}');
    assert(split(s, '}') == seq![inner, tail]);
    assert(inner.drop_first() =~= c + " "@);
    assert(crate::text::is_white(' '));
    assert(trim_start(inner, false) == trim_start(c + " "@, false));
    assert((c + " "@)[0] == c[0]);
    assert(trim_start(c + " "@, false) == c + " "@);
    assert((c + " "@).drop_last() =~= c);
    assert(trim_end(c + " "@, false) == trim_end(c, false));
    assert(trim_end(c, false) == c);
}

/// The text after the leading `", "` of the placeholder list, followed by a tail
/// without braces, splits at `{` into an empty head and one piece per column,
/// each naming its column.
proof fn lemma_pfold_split(cs: Seq<Seq<char>>, tail: Seq<char>)
    requires
        cs.len() > 0,
        all_well_named(cs),
        !tail.contains('{'),
        !tail.contains('}'),
    ensures
        pfold(cs).len() >= 2,
        split(pfold(cs).skip(2) + tail, '{')[0] == Seq::<char>::empty(),
        split(pfold(cs).skip(2) + tail, '{').drop_first().map_values(|seg: Seq<char>| placeholder(seg)) == cs,
    decreases cs.len(),
{
    reveal_strlit(", ");
    reveal_strlit("{ ");
    reveal_strlit(" }");
    reveal_strlit(" ");
    lemma_all_well_named_init(cs);
    lemma_pfold_step(cs);
    let c = cs.last();
    let f = pfold(cs.drop_last());
    let rest = " "@ + c + " }"@ + tail;
    assert(placeholder_of(c) =~= seq!['{'] + (" "@ + c + " }"@));
    assert(!rest.contains('{')) by {
        lemma_concat_contains(" "@, c, '{');
        lemma_concat_contains(" "@ + c, " }"@, '{');
        lemma_concat_contains(" "@ + c + " }"@, tail, '{');
    }
    lemma_split_without_sep(rest, '{');
    lemma_padded_placeholder(c, tail);
    if cs.len() == 1 {
        assert(cs.drop_last() =~= Seq::<Seq<char>>::empty());
        assert(f =~= Seq::<char>::empty());
        let x = pfold(cs).skip(2) + tail;
        assert(x =~= Seq::<char>::empty() + seq!['{'] + rest);
        lemma_split_around(Seq::<char>::empty(), rest, '{');
        assert(split(Seq::<char>::empty(), '{') =~= seq![Seq::<char>::empty()]);
        assert(split(x, '{') == seq![Seq::<char>::empty(), rest]);
        assert(split(x, '{').drop_first().map_values(|seg: Seq<char>| placeholder(seg)) =~= cs);
    } else {
        lemma_pfold_split(cs.drop_last(), ", "@);
        let x = pfold(cs).skip(2) + tail;
        let y = f.skip(2) + ", "@;
        assert(x =~= y + seq!['{'] + rest);
        lemma_split_around(y, rest, '{');
        crate::text::lemma_split_nonempty(y, '{');
        let sy = split(y, '{');
        assert(split(x, '{') == sy + seq![rest]);
        assert((sy + seq![rest]).drop_first() =~= sy.drop_first().push(rest));
        assert(sy.drop_first().push(rest).map_values(|seg: Seq<char>| placeholder(seg)) =~= sy.drop_first().map_values(
            |seg: Seq<char>| placeholder(seg),
        ).push(placeholder(rest)));
        assert(cs.drop_last().push(c) =~= cs);
    }
}

/// The assignment list after its leading `", "`, followed by a tail without
/// braces, splits at `{` into `"c1 = "` and one piece per column, each naming it.
proof fn lemma_afold_split(cs: Seq<Seq<char>>, tail: Seq<char>)
    requires
        cs.len() > 0,
        all_well_named(cs),
        !tail.contains('{'),
        !tail.contains('}'),
    ensures
        afold(cs).len() >= 2,
        split(afold(cs).skip(2) + tail, '{')[0] == cs[0] + " = "@,
        split(afold(cs).skip(2) + tail, '{').drop_first().map_values(|seg: Seq<char>| placeholder(seg)) == cs,
    decreases cs.len(),
{
    reveal_strlit(", ");
    reveal_strlit(" = { ");
    reveal_strlit(" = ");
    reveal_strlit(" }");
    reveal_strlit(" ");
    lemma_all_well_named_init(cs);
    lemma_afold_step(cs);
    let c = cs.last();
    let f = afold(cs.drop_last());
    let rest = " "@ + c + " }"@ + tail;
    assert(assignment_of(c) =~= c + " = "@ + seq!['{'] + (" "@ + c + " }"@));
    assert(!rest.contains('{')) by {
        lemma_concat_contains(" "@, c, '{');
        lemma_concat_contains(" "@ + c, " }"@, '{');
        lemma_concat_contains(" "@ + c + " }"@, tail, '{');
    }
    lemma_split_without_sep(rest, '{');
    lemma_padded_placeholder(c, tail);
    if cs.len() == 1 {
        assert(cs.drop_last() =~= Seq::<Seq<char>>::empty());
        assert(f =~= Seq::<char>::empty());
        let head = c + " = "@;
        let x = afold(cs).skip(2) + tail;
        assert(x =~= head + seq!['{'] + rest);
        assert(!head.contains('{')) by {
            lemma_concat_contains(c, " = "@, '{');
        }
        lemma_split_without_sep(head, '{');
        lemma_split_around(head, rest, '{');
        assert(split(x, '{') == seq![head, rest]);
        assert(cs[0] == c);
        assert(split(x, '{').drop_first().map_values(|seg: Seq<char>| placeholder(seg)) =~= cs);
    } else {
        let mid = ", "@ + c + " = "@;
        assert(!mid.contains('{') && !mid.contains('}')) by {
            lemma_concat_contains(", "@, c, '{');
            lemma_concat_contains(", "@ + c, " = "@, '{');
            lemma_concat_contains(", "@, c, '}');
            lemma_concat_contains(", "@ + c, " = "@, '}');
        }
        lemma_afold_split(cs.drop_last(), mid);
        let x = afold(cs).skip(2) + tail;
        let y = f.skip(2) + mid;
        assert(x =~= y + seq!['{'] + rest);
        lemma_split_around(y, rest, '{');
        crate::text::lemma_split_nonempty(y, '{');
        let sy = split(y, '{');
        assert(split(x, '{') == sy + seq![rest]);
        assert(cs.drop_last()[0] == cs[0]);
        assert((sy + seq![rest]).drop_first() =~= sy.drop_first().push(rest));
        assert(sy.drop_first().push(rest).map_values(|seg: Seq<char>| placeholder(seg)) =~= sy.drop_first().map_values(
            |seg: Seq<char>| placeholder(seg),
        ).push(placeholder(rest)));
        assert(cs.drop_last().push(c) =~= cs);
    }
}

proof fn lemma_pfold_shape(cs: Seq<Seq<char>>)
    requires
        cs.len() > 0,
    ensures
        pfold(cs).len() >= 3,
        pfold(cs)[0] == ',',
        pfold(cs)[1] == ' ',
        pfold(cs)[2] == '{',
        pfold(cs).last() == '}',
    decreases cs.len(),
{
    reveal_strlit(", ");
    reveal_strlit("{ ");
    reveal_strlit(" }");
    lemma_pfold_step(cs);
    let f = pfold(cs.drop_last());
    let tail = ", "@ + placeholder_of(cs.last());
    assert(pfold(cs) == f + tail);
    assert(tail.last() == '}');
    if cs.len() == 1 {
        assert(f =~= Seq::<char>::empty()) by {
            assert(cs.drop_last().map_values(|c: Seq<char>| placeholder_of(c)) =~= Seq::<Seq<char>>::empty());
        }
        assert(tail[0] == ',' && tail[1] == ' ' && tail[2] == '{');
        assert(pfold(cs) =~= tail);
    } else {
        lemma_pfold_shape(cs.drop_last());
        assert(pfold(cs)[0] == f[0] && pfold(cs)[1] == f[1] && pfold(cs)[2] == f[2]);
    }
}

proof fn lemma_afold_shape(cs: Seq<Seq<char>>)
    requires
        cs.len() > 0,
        all_well_named(cs),
    ensures
        afold(cs).len() >= 3,
        afold(cs)[0] == ',',
        afold(cs)[1] == ' ',
        !trimmable(afold(cs)[2], true),
        afold(cs).last() == '}',
    decreases cs.len(),
{
    reveal_strlit(", ");
    reveal_strlit(" = { ");
    reveal_strlit(" }");
    lemma_all_well_named_init(cs);
    lemma_afold_step(cs);
    let f = afold(cs.drop_last());
    let c = cs.last();
    let tail = ", "@ + assignment_of(c);
    assert(afold(cs) == f + tail);
    assert(tail.last() == '}');
    if cs.len() == 1 {
        assert(f =~= Seq::<char>::empty()) by {
            assert(cs.drop_last().map_values(|c: Seq<char>| assignment_of(c)) =~= Seq::<Seq<char>>::empty());
        }
        assert(tail[0] == ',' && tail[1] == ' ' && tail[2] == c[0]);
        assert(afold(cs) =~= tail);
    } else {
        lemma_afold_shape(cs.drop_last());
        assert(afold(cs)[0] == f[0] && afold(cs)[1] == f[1] && afold(cs)[2] == f[2]);
    }
}

/// Trimming a list that starts with `", "` and then a kept character, and ends
/// with `}`, drops exactly the `", "`.
proof fn lemma_trim_list(s: Seq<char>)
    requires
        s.len() >= 3,
        s[0] == ',',
        s[1] == ' ',
        !trimmable(s[2], true),
        s.last() == '}',
    ensures
        trim(s, true) == s.skip(2),
{
    assert(crate::text::is_white(' '));
    assert(s.drop_first()[0] == ' ');
    assert(s.drop_first().drop_first() =~= s.skip(2));
    assert(s.skip(2)[0] == s[2]);
    assert(trim_start(s.drop_first(), true) == trim_start(s.skip(2), true));
    assert(trim_start(s, true) == s.skip(2));
    assert(s.skip(2).last() == '}');
    assert(trim_end(s.skip(2), true) == s.skip(2));
}

proof fn lemma_fold_lacks(items: Seq<Seq<char>>, ch: char)
    requires
        forall|i: int| 0 <= i < items.len() ==> !(#[trigger] items[i]).contains(ch),
        ch != ',',
        ch != ' ',
    ensures
        !comma_fold(items).contains(ch),
    decreases items.len(),
{
    reveal_strlit(", ");
    if items.len() > 0 {
        assert forall|i: int| 0 <= i < items.drop_last().len() implies !(#[trigger] items.drop_last()[i]).contains(ch) by {
            assert(items.drop_last()[i] == items[i]);
        }
        lemma_fold_lacks(items.drop_last(), ch);
        assert(!items[items.len() - 1].contains(ch));
        assert(!", "@.contains(ch));
        lemma_concat_contains(comma_fold(items.drop_last()), ", "@, ch);
        lemma_concat_contains(comma_fold(items.drop_last()) + ", "@, items.last(), ch);
    }
}

proof fn lemma_nonempty_identity(cs: Seq<Seq<char>>)
    requires
        forall|i: int| 0 <= i < cs.len() ==> (#[trigger] cs[i]).len() > 0,
    ensures
        nonempty_pieces(cs) == cs,
    decreases cs.len(),
{
    if cs.len() == 0 {
        assert(nonempty_pieces(cs) =~= cs);
    } else {
        assert forall|i: int| 0 <= i < cs.drop_last().len() implies (#[trigger] cs.drop_last()[i]).len() > 0 by {
            assert(cs.drop_last()[i] == cs[i]);
        }
        lemma_nonempty_identity(cs.drop_last());
        assert(cs[cs.len() - 1].len() > 0);
        assert(cs.drop_last().push(cs.last()) =~= cs);
    }
}

/// The GET many endpoint of a table is a GET on the table's lower-cased name that
/// selects every row of the table, and every query it runs is included in the
/// response with no check on the rows: the response holds all the rows the select
/// returns. For a table name without `;` it runs exactly `SELECT * FROM <table>`.
pub proof fn law_get_many_answers_every_row(db: Seq<char>, t: TableSpec)
    ensures
        get_many_endpoint(db, t).method == HttpMethod::Get,
        get_many_endpoint(db, t).route == lowercase(t.name),
        get_many_endpoint(db, t).executor.queries.len() >= 1,
        forall|i: int|
            0 <= i < get_many_endpoint(db, t).executor.queries.len() ==> {
                &&& (#[trigger] get_many_endpoint(db, t).executor.queries[i]).included
                &&& get_many_endpoint(db, t).executor.queries[i].behaviour == SQLBehaviour::Permissive
            },
        !t.name.contains(';') ==> get_many_endpoint(db, t).executor.queries == seq![
            SqlQuerySpec { query: "SELECT * FROM "@ + t.name, included: true, behaviour: SQLBehaviour::Permissive },
        ],
{
    reveal_strlit("SELECT * FROM ");
    let sql = "SELECT * FROM "@ + t.name;
    let q = SqlQuerySpec { query: sql, included: true, behaviour: SQLBehaviour::Permissive };
    assert(get_many_endpoint(db, t).executor.queries == split_query(q));
    crate::http_executor::query::law_statements_are_whole(q);
    assert(!"SELECT * FROM "@.contains(';'));
    lemma_concat_contains("SELECT * FROM "@, t.name, ';');
    if !t.name.contains(';') {
        lemma_single_statement(sql, true, SQLBehaviour::Permissive);
    } else {
        crate::text::lemma_split_nonempty(t.name, ';');
        lemma_split_prefix("SELECT * FROM "@, t.name, ';');
        lemma_nonempty_pieces_has_first(split(sql, ';'));
    }
}

/// A one-statement executor runs at least one query, each with the options it was
/// given, where its text starts with a head that is not empty and holds no `;`.
proof fn lemma_single_executor_options(head: Seq<char>, rest: Seq<char>, included: bool, behaviour: SQLBehaviour)
    requires
        head.len() > 0,
        !head.contains(';'),
    ensures
        single_executor(head + rest, included, behaviour).queries.len() >= 1,
        forall|i: int|
            0 <= i < single_executor(head + rest, included, behaviour).queries.len() ==> {
                &&& (#[trigger] single_executor(head + rest, included, behaviour).queries[i]).included == included
                &&& single_executor(head + rest, included, behaviour).queries[i].behaviour == behaviour
            },
{
    let q = SqlQuerySpec { query: head + rest, included, behaviour };
    assert(single_executor(head + rest, included, behaviour).queries == split_query(q));
    crate::http_executor::query::law_statements_are_whole(q);
    crate::text::lemma_split_nonempty(rest, ';');
    lemma_split_prefix(head, rest, ';');
    lemma_nonempty_pieces_has_first(split(head + rest, ';'));
}

/// What each generated endpoint's queries are for: GET one and GET many answer with
/// their rows (GET one expecting at most one), while POST, PUT and DELETE run
/// without adding anything to the response. Each endpoint runs at least one query,
/// and every query it runs has these options.
pub proof fn law_endpoint_query_options(db: Seq<char>, t: TableSpec, pk: Seq<char>, cols: Seq<Seq<char>>)
    ensures
        get_one_endpoint(db, t, pk).executor.queries.len() >= 1,
        forall|i: int|
            0 <= i < get_one_endpoint(db, t, pk).executor.queries.len() ==> {
                &&& (#[trigger] get_one_endpoint(db, t, pk).executor.queries[i]).included
                &&& get_one_endpoint(db, t, pk).executor.queries[i].behaviour == SQLBehaviour::Unique
            },
        post_endpoint(db, t, cols).executor.queries.len() >= 1,
        forall|i: int|
            0 <= i < post_endpoint(db, t, cols).executor.queries.len() ==> {
                &&& !(#[trigger] post_endpoint(db, t, cols).executor.queries[i]).included
                &&& post_endpoint(db, t, cols).executor.queries[i].behaviour == SQLBehaviour::Permissive
            },
        put_endpoint(db, t, pk, cols).executor.queries.len() >= 1,
        forall|i: int|
            0 <= i < put_endpoint(db, t, pk, cols).executor.queries.len() ==> {
                &&& !(#[trigger] put_endpoint(db, t, pk, cols).executor.queries[i]).included
                &&& put_endpoint(db, t, pk, cols).executor.queries[i].behaviour == SQLBehaviour::Permissive
            },
        delete_endpoint(db, t, pk).executor.queries.len() >= 1,
        forall|i: int|
            0 <= i < delete_endpoint(db, t, pk).executor.queries.len() ==> {
                &&& !(#[trigger] delete_endpoint(db, t, pk).executor.queries[i]).included
                &&& delete_endpoint(db, t, pk).executor.queries[i].behaviour == SQLBehaviour::Permissive
            },
{
    reveal_strlit("SELECT * FROM ");
    reveal_strlit("INSERT INTO ");
    reveal_strlit("UPDATE ");
    reveal_strlit("DELETE FROM ");
    let one = "SELECT * FROM "@ + t.name + " WHERE "@ + pk + " = {id}"@;
    let one_rest = t.name + " WHERE "@ + pk + " = {id}"@;
    assert(one =~= "SELECT * FROM "@ + one_rest);
    lemma_single_executor_options("SELECT * FROM "@, one_rest, true, SQLBehaviour::Unique);
    let post = "INSERT INTO "@ + t.name + " ("@ + column_list(cols) + ") VALUES ("@ + placeholder_list(cols) + ")"@;
    let post_rest = t.name + " ("@ + column_list(cols) + ") VALUES ("@ + placeholder_list(cols) + ")"@;
    assert(post =~= "INSERT INTO "@ + post_rest);
    lemma_single_executor_options("INSERT INTO "@, post_rest, false, SQLBehaviour::Permissive);
    let put = "UPDATE "@ + t.name + " SET "@ + assignment_list(cols) + " WHERE "@ + pk + " = {id} "@;
    let put_rest = t.name + " SET "@ + assignment_list(cols) + " WHERE "@ + pk + " = {id} "@;
    assert(put =~= "UPDATE "@ + put_rest);
    lemma_single_executor_options("UPDATE "@, put_rest, false, SQLBehaviour::Permissive);
    let del = "DELETE FROM "@ + t.name + " WHERE "@ + pk + " = {id} "@;
    let del_rest = t.name + " WHERE "@ + pk + " = {id} "@;
    assert(del =~= "DELETE FROM "@ + del_rest);
    lemma_single_executor_options("DELETE FROM "@, del_rest, false, SQLBehaviour::Permissive);
}

/// A list of pieces whose first piece is not empty keeps at least that one.
proof fn lemma_nonempty_pieces_has_first(ps: Seq<Seq<char>>)
    requires
        ps.len() > 0,
        ps[0].len() > 0,
    ensures
        nonempty_pieces(ps).len() >= 1,
    decreases ps.len(),
{
    if ps.len() > 1 {
        assert(ps.drop_last()[0] == ps[0]);
        lemma_nonempty_pieces_has_first(ps.drop_last());
    }
}

/// A statement without `;` is run as the one query it is.
proof fn lemma_single_statement(sql: Seq<char>, included: bool, behaviour: SQLBehaviour)
    requires
        !sql.contains(';'),
        sql.len() > 0,
    ensures
        single_executor(sql, included, behaviour).queries == seq![
            SqlQuerySpec { query: sql, included, behaviour },
        ],
{
    lemma_split_without_sep(sql, ';');
    assert(split(sql, ';').drop_last() =~= Seq::<Seq<char>>::empty());
    assert(nonempty_pieces(Seq::<Seq<char>>::empty()) == Seq::<Seq<char>>::empty());
    assert(nonempty_pieces(split(sql, ';')) == Seq::<Seq<char>>::empty().push(sql));
    assert(statements_of(sql) =~= seq![sql]);
    let q = SqlQuerySpec { query: sql, included, behaviour };
    assert(split_query(q) =~= seq![q]);
}

/// The columns' names, like any well named text, hold no brace, `|` or `;`.
proof fn lemma_names_lack(cs: Seq<Seq<char>>, ch: char)
    requires
        all_well_named(cs),
        ch == '{' || ch == '}' || ch == '|' || ch == ';',
    ensures
        forall|i: int| 0 <= i < cs.len() ==> !(#[trigger] cs[i]).contains(ch),
{
    assert forall|i: int| 0 <= i < cs.len() implies !(#[trigger] cs[i]).contains(ch) by {
        assert(well_named(cs[i]));
    }
}

/// The POST endpoint runs one statement, whose placeholders are exactly its body
/// parameters, in order (for a table whose name and value columns are well named).
pub proof fn law_post_names_its_body_params(db: Seq<char>, t: TableSpec)
    requires
        plain_name(t.name),
        all_well_named(value_columns(t.columns)),
    ensures
        post_endpoint(db, t, value_columns(t.columns)).executor.queries.len() == 1,
        params_order(post_endpoint(db, t, value_columns(t.columns)).executor.queries[0].query)
            == post_endpoint(db, t, value_columns(t.columns)).body_params,
{
    reveal_strlit("INSERT INTO ");
    reveal_strlit(" (");
    reveal_strlit(") VALUES (");
    reveal_strlit(")");
    let cols = value_columns(t.columns);
    let cl = column_list(cols);
    let pl = placeholder_list(cols);
    let head = "INSERT INTO "@ + t.name + " ("@ + cl + ") VALUES ("@;
    let sql = head + pl + ")"@;
    assert(sql == "INSERT INTO "@ + t.name + " ("@ + cl + ") VALUES ("@ + pl + ")"@);
    // Neither list holds a brace, `|` or `;` other than the placeholders' braces.
    assert forall|ch: char| ch == '{' || ch == '}' || ch == '|' || ch == ';' implies !cl.contains(ch) by {
        lemma_names_lack(cols, ch);
        lemma_fold_lacks(cols, ch);
        lemma_trim_lacks(comma_fold(cols), true, ch);
    }
    assert forall|ch: char| ch == '{' || ch == '}' || ch == '|' || ch == ';' implies !head.contains(ch) by {
        lemma_concat_contains("INSERT INTO "@, t.name, ch);
        lemma_concat_contains("INSERT INTO "@ + t.name, " ("@, ch);
        lemma_concat_contains("INSERT INTO "@ + t.name + " ("@, cl, ch);
        lemma_concat_contains("INSERT INTO "@ + t.name + " ("@ + cl, ") VALUES ("@, ch);
    }
    assert(!pl.contains(';')) by {
        let ps = cols.map_values(|c: Seq<char>| placeholder_of(c));
        assert forall|i: int| 0 <= i < ps.len() implies !(#[trigger] ps[i]).contains(';') by {
            reveal_strlit("{ ");
            reveal_strlit(" }");
            assert(well_named(cols[i]));
            lemma_concat_contains("{ "@, cols[i], ';');
            lemma_concat_contains("{ "@ + cols[i], " }"@, ';');
        }
        lemma_fold_lacks(ps, ';');
        lemma_trim_lacks(comma_fold(ps), true, ';');
    }
    assert(!sql.contains(';')) by {
        lemma_concat_contains(head, pl, ';');
        lemma_concat_contains(head + pl, ")"@, ';');
    }
    assert(sql.len() > 0);
    lemma_single_statement(sql, false, SQLBehaviour::Permissive);
    assert(forall|i: int| 0 <= i < cols.len() ==> (#[trigger] cols[i]).len() > 0);
    lemma_nonempty_identity(cols);
    if cols.len() == 0 {
        assert(cols.map_values(|c: Seq<char>| placeholder_of(c)) =~= Seq::<Seq<char>>::empty());
        assert(pl =~= Seq::<char>::empty());
        assert(!sql.contains('{')) by {
            lemma_concat_contains(head, pl, '{');
            lemma_concat_contains(head + pl, ")"@, '{');
        }
        lemma_split_without_sep(sql, '{');
        assert(split(sql, '{').drop_first() =~= Seq::<Seq<char>>::empty());
        assert(split(sql, '{').drop_first().map_values(|seg: Seq<char>| placeholder(seg)) =~= Seq::<Seq<char>>::empty());
        assert(params_order(sql) =~= cols);
    } else {
        lemma_pfold_shape(cols);
        lemma_trim_list(pfold(cols));
        assert(pl == pfold(cols).skip(2));
        lemma_pfold_split(cols, ")"@);
        let x = pl + ")"@;
        assert(sql =~= head + x);
        lemma_split_prefix(head, x, '{');
        crate::text::lemma_split_nonempty(x, '{');
        let sx = split(x, '{');
        assert(split(sql, '{').drop_first() =~= sx.drop_first());
        assert(params_order(sql) == nonempty_pieces(cols));
    }
}

/// The PUT endpoint runs one statement, whose placeholders are its body
/// parameters, in order, followed by the route's `id` (for a table whose name,
/// primary key and value columns are well named).
pub proof fn law_put_names_its_body_params(db: Seq<char>, t: TableSpec, pk: Seq<char>)
    requires
        plain_name(t.name),
        plain_name(pk),
        all_well_named(value_columns(t.columns)),
    ensures
        put_endpoint(db, t, pk, value_columns(t.columns)).executor.queries.len() == 1,
        params_order(put_endpoint(db, t, pk, value_columns(t.columns)).executor.queries[0].query)
            == put_endpoint(db, t, pk, value_columns(t.columns)).body_params.push("id"@),
{
    reveal_strlit("UPDATE ");
    reveal_strlit(" SET ");
    reveal_strlit(" WHERE ");
    reveal_strlit(" = {id} ");
    reveal_strlit(" = ");
    reveal_strlit("id} ");
    reveal_strlit("id");
    reveal_strlit(" ");
    let cols = value_columns(t.columns);
    let al = assignment_list(cols);
    let h1 = "UPDATE "@ + t.name + " SET "@;
    let t2 = " WHERE "@ + pk + " = "@;
    let m = h1 + al + t2;
    let last = "id} "@;
    let sql = "UPDATE "@ + t.name + " SET "@ + al + " WHERE "@ + pk + " = {id} "@;
    assert(" = {id} "@ =~= " = "@ + seq!['{'] + last);
    assert(sql =~= m + seq!['{'] + last);
    assert forall|ch: char| ch == '{' || ch == '}' || ch == '|' || ch == ';' implies !h1.contains(ch)
        && !t2.contains(ch) by {
        lemma_concat_contains("UPDATE "@, t.name, ch);
        lemma_concat_contains("UPDATE "@ + t.name, " SET "@, ch);
        lemma_concat_contains(" WHERE "@, pk, ch);
        lemma_concat_contains(" WHERE "@ + pk, " = "@, ch);
    }
    assert(!al.contains(';')) by {
        let ps = cols.map_values(|c: Seq<char>| assignment_of(c));
        assert forall|i: int| 0 <= i < ps.len() implies !(#[trigger] ps[i]).contains(';') by {
            reveal_strlit(" = { ");
            reveal_strlit(" }");
            assert(well_named(cols[i]));
            lemma_concat_contains(cols[i], " = { "@, ';');
            lemma_concat_contains(cols[i] + " = { "@, cols[i], ';');
            lemma_concat_contains(cols[i] + " = { "@ + cols[i], " }"@, ';');
        }
        lemma_fold_lacks(ps, ';');
        lemma_trim_lacks(comma_fold(ps), true, ';');
    }
    assert(!sql.contains(';')) by {
        lemma_concat_contains(h1, al, ';');
        lemma_concat_contains(h1 + al, t2, ';');
        lemma_concat_contains(m, seq!['{'], ';');
        lemma_concat_contains(m + seq!['{'], last, ';');
    }
    assert(sql.len() > 0);
    lemma_single_statement(sql, false, SQLBehaviour::Permissive);
    // The route's `id` is the last placeholder.
    assert(!last.contains('{'));
    lemma_split_without_sep(last, '{');
    lemma_split_around(m, last, '{');
    crate::text::lemma_split_nonempty(m, '{');
    assert(last =~= "id"@ + seq!['}'] + " "@);
    assert(!"id"@.contains('}'));
    assert(!" "@.contains('}'));
    lemma_split_without_sep("id"@, '}');
    lemma_split_without_sep(" "@, '}');
    lemma_split_around("id"@, " "@, '}');
    assert(split(last, '}') == seq!["id"@, " "@]);
    assert("id"@ =~= seq!['i', 'd']);
    assert(trim_start("id"@, false) == "id"@);
    assert(trim_end("id"@, false) == "id"@);
    assert(placeholder(last) == "id"@);
    let sm = split(m, '{');
    assert(split(sql, '{') == sm + seq![last]);
    assert((sm + seq![last]).drop_first() =~= sm.drop_first().push(last));
    let pmap = sm.drop_first().map_values(|seg: Seq<char>| placeholder(seg));
    assert(sm.drop_first().push(last).map_values(|seg: Seq<char>| placeholder(seg)) =~= pmap.push("id"@));
    if cols.len() == 0 {
        assert(cols.map_values(|c: Seq<char>| assignment_of(c)) =~= Seq::<Seq<char>>::empty());
        assert(al =~= Seq::<char>::empty());
        assert(!m.contains('{')) by {
            lemma_concat_contains(h1, al, '{');
            lemma_concat_contains(h1 + al, t2, '{');
        }
        lemma_split_without_sep(m, '{');
        assert(pmap =~= Seq::<Seq<char>>::empty());
    } else {
        lemma_afold_shape(cols);
        lemma_trim_list(afold(cols));
        assert(al == afold(cols).skip(2));
        lemma_afold_split(cols, t2);
        let x = al + t2;
        assert(m =~= h1 + x);
        lemma_split_prefix(h1, x, '{');
        crate::text::lemma_split_nonempty(x, '{');
        assert(sm.drop_first() =~= split(x, '{').drop_first());
        assert(pmap == cols);
    }
    let all = cols.push("id"@);
    assert forall|i: int| 0 <= i < all.len() implies (#[trigger] all[i]).len() > 0 by {
        if i < cols.len() {
            assert(all[i] == cols[i]);
            assert(well_named(cols[i]));
        }
    }
    lemma_nonempty_identity(all);
    assert(split(sql, '{').drop_first().map_values(|seg: Seq<char>| placeholder(seg)) == pmap.push("id"@));
    assert(pmap.push("id"@) == all);
    assert(params_order(sql) == nonempty_pieces(all));
}

} // verus!
