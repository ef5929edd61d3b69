use waveless_sql::generator::mysql::{ColumnSchema, EndpointPlan, MySQLSchemaDiscovery, TableSchema};
use waveless_sql::http_executor::query::SQLBehaviour;
use waveless_sql::http_execute::any_sql::prepare_query;
use waveless_sql::request::{HttpMethod, ParamValue};

fn col(name: &str, primary: bool) -> ColumnSchema {
    ColumnSchema { name: name.to_string(), primary }
}

fn table(name: &str, comment: &str, columns: Vec<ColumnSchema>) -> TableSchema {
    TableSchema { name: name.to_string(), comment: comment.to_string(), columns }
}

fn sql(p: &EndpointPlan) -> Vec<String> {
    p.executor.queries().iter().map(|q| q.query().clone()).collect()
}

#[test]
fn keyed_table_gets_five_endpoints() {
    let g = MySQLSchemaDiscovery::new("main".to_string(), vec![]);
    let plans = g.plan_endpoints(&vec![table(
        "Users",
        "",
        vec![col("id", true), col("name", false), col("email", false)],
    )]);
    let methods: Vec<HttpMethod> = plans.iter().map(|p| p.method).collect();
    assert_eq!(
        methods,
        vec![HttpMethod::Get, HttpMethod::Get, HttpMethod::Post, HttpMethod::Put, HttpMethod::Delete]
    );
    let ids: Vec<&str> = plans.iter().map(|p| p.id.as_str()).collect();
    assert_eq!(ids, vec!["Users_GetOne", "Users_GetMany", "Users_Post", "Users_Put", "Users_Delete"]);
    let routes: Vec<&str> = plans.iter().map(|p| p.route.as_str()).collect();
    assert_eq!(routes, vec!["users/{id}", "users", "users", "users/{id}", "users/{id}"]);

    assert_eq!(sql(&plans[0]), vec!["SELECT * FROM Users WHERE id = {id}"]);
    assert_eq!(*plans[0].executor.queries()[0].behaviour(), SQLBehaviour::Unique);
    assert!(*plans[0].executor.queries()[0].included());
    assert_eq!(plans[0].description, "Get row from Users by it's primary key.");
    assert_eq!(plans[0].tags, vec!["Users".to_string(), "get_one".to_string()]);

    assert_eq!(sql(&plans[1]), vec!["SELECT * FROM Users"]);
    assert_eq!(plans[1].description, "Get all rows from Users.");
    assert_eq!(plans[1].tags, vec!["Users".to_string(), "get_all".to_string()]);

    assert_eq!(sql(&plans[2]), vec!["INSERT INTO Users (name, email) VALUES ({ name }, { email })"]);
    assert!(!*plans[2].executor.queries()[0].included());
    assert_eq!(plans[2].body_params, vec!["name".to_string(), "email".to_string()]);
    assert_eq!(plans[2].description, "Insert data into Users.");

    assert_eq!(sql(&plans[3]), vec!["UPDATE Users SET name = { name }, email = { email } WHERE id = {id} "]);
    assert_eq!(plans[3].body_params, vec!["name".to_string(), "email".to_string()]);
    assert_eq!(plans[3].description, "Updates Users on row with the given primary key.");

    assert_eq!(sql(&plans[4]), vec!["DELETE FROM Users WHERE id = {id} "]);
    assert!(plans[4].body_params.is_empty());
    assert_eq!(plans[4].tags, vec!["Users".to_string(), "delete".to_string()]);
    assert_eq!(plans[4].description, "Deletes data from Users with the given primary key.");

    for p in &plans {
        assert_eq!(p.databases, vec!["main".to_string()]);
        assert_eq!(p.executor.database(), &None);
        assert_eq!(p.version, "v1");
        assert!(p.query_params.is_empty());
        assert!(!p.capture_all_params);
        assert!(p.auto_generated);
        assert!(!p.deprecated);
    }
}

#[test]
fn view_gets_only_get_many() {
    let g = MySQLSchemaDiscovery::new("db".to_string(), vec![]);
    let plans = g.plan_endpoints(&vec![table("Report", "VIEW", vec![col("id", true), col("total", false)])]);
    assert_eq!(plans.len(), 1);
    assert_eq!(plans[0].id, "Report_GetMany");
    assert_eq!(plans[0].method, HttpMethod::Get);
}

#[test]
fn keyless_table_gets_get_many_and_post() {
    let g = MySQLSchemaDiscovery::new("db".to_string(), vec![]);
    let plans = g.plan_endpoints(&vec![table("Log", "events", vec![col("at", false), col("msg", false)])]);
    let ids: Vec<&str> = plans.iter().map(|p| p.id.as_str()).collect();
    assert_eq!(ids, vec!["Log_GetMany", "Log_Post"]);
    assert_eq!(sql(&plans[1]), vec!["INSERT INTO Log (at, msg) VALUES ({ at }, { msg })"]);
}

#[test]
fn skipped_tables_get_nothing() {
    let g = MySQLSchemaDiscovery::new("db".to_string(), vec!["users_auth".to_string()]);
    let plans = g.plan_endpoints(&vec![
        table("users_auth", "", vec![col("user_id", true)]),
        table("Items", "", vec![col("id", true)]),
    ]);
    assert_eq!(plans.len(), 5);
    assert!(plans.iter().all(|p| p.tags[0] == "Items"));
    assert_eq!(g.skip_tables(), &vec!["users_auth".to_string()]);
}

#[test]
fn only_key_column_table_has_empty_lists() {
    let g = MySQLSchemaDiscovery::new("db".to_string(), vec![]);
    let plans = g.plan_endpoints(&vec![table("K", "", vec![col("id", true)])]);
    assert_eq!(sql(&plans[2]), vec!["INSERT INTO K () VALUES ()"]);
    assert_eq!(sql(&plans[3]), vec!["UPDATE K SET  WHERE id = {id} "]);
}

#[test]
fn discovery_id_and_checksum() {
    let g = MySQLSchemaDiscovery::new("shop".to_string(), vec![]);
    assert_eq!(g.name(), "mysql_schema");
    assert_eq!(g.id(), "mysql_schema:shop");
    assert_eq!(g.database(), "shop");
    assert_eq!(g.checksum(b"123456789"), 0xCBF43926);
    assert_eq!(g.checksum(b""), 0);
}

#[test]
fn get_one_statement_binds_the_route_id() {
    let g = MySQLSchemaDiscovery::new("db".to_string(), vec![]);
    let plans = g.plan_endpoints(&vec![table("Users", "", vec![col("uid", true), col("name", false)])]);
    let params = vec![
        ("name".to_string(), ParamValue::Client(Some("x".to_string()))),
        ("id".to_string(), ParamValue::Client(Some("3".to_string()))),
    ];
    let p = prepare_query(&plans[0].executor.queries()[0], HttpMethod::Get, &params).unwrap();
    assert_eq!(p.sql, "SELECT * FROM Users WHERE uid = ?");
    assert_eq!(p.bindings, vec![1]);
    let p = prepare_query(&plans[2].executor.queries()[0], HttpMethod::Post, &params).unwrap();
    assert_eq!(p.sql, "INSERT INTO Users (name) VALUES (?)");
    assert_eq!(p.bindings, vec![0]);
    let p = prepare_query(&plans[3].executor.queries()[0], HttpMethod::Put, &params).unwrap();
    assert_eq!(p.sql, "UPDATE Users SET name = ? WHERE uid = ? ");
    assert_eq!(p.bindings, vec![0, 1]);
    let p = prepare_query(&plans[3].executor.queries()[0], HttpMethod::Put, &params[1..].to_vec()).unwrap();
    assert_eq!(p.sql, "UPDATE Users SET WHERE uid = ? ");
    assert_eq!(p.bindings, vec![0]);
}

#[test]
fn discovery_finds_its_connection_by_database_id() {
    let g = MySQLSchemaDiscovery::new("main".to_string(), vec![]);
    let ids = vec!["other".to_string(), "main".to_string(), "main".to_string()];
    assert_eq!(g.connection_index(&ids), Some(1));
    assert_eq!(g.connection_index(&vec!["other".to_string()]), None);
    assert_eq!(g.connection_index(&vec![]), None);
}
