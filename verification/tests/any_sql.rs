use waveless_sql::http_execute::any_sql::{
    prepare_query, QueryOutput, ResponseBody, RunPhase, SqlExecError, SqlRun,
};
use waveless_sql::http_executor::query::{SQLBehaviour, SQLQuery};
use waveless_sql::request::{HttpMethod, ParamValue};

fn q(text: &str) -> SQLQuery {
    SQLQuery::new(text.to_string(), true, SQLBehaviour::Permissive)
}

fn client(name: &str, v: i64) -> (String, ParamValue<i64>) {
    (name.to_string(), ParamValue::Client(Some(v)))
}

#[test]
fn placeholder_becomes_bound_mark() {
    let params = vec![client("id", 5)];
    let p = prepare_query(&q("SELECT * FROM t WHERE id = {id}"), HttpMethod::Get, &params).unwrap();
    assert_eq!(p.sql, "SELECT * FROM t WHERE id = ?");
    assert_eq!(p.bindings, vec![0]);
}

#[test]
fn placeholders_bind_in_the_order_they_appear() {
    let params = vec![client("b", 2), client("a", 1)];
    let p = prepare_query(
        &q("INSERT INTO t (a, b) VALUES ({ a }, { b })"),
        HttpMethod::Post,
        &params,
    )
    .unwrap();
    assert_eq!(p.sql, "INSERT INTO t (a, b) VALUES (?, ?)");
    assert_eq!(p.bindings, vec![1, 0]);
}

#[test]
fn repeated_placeholder_binds_twice() {
    let params = vec![client("x", 9)];
    let p = prepare_query(&q("SELECT {x}, {x}"), HttpMethod::Get, &params).unwrap();
    assert_eq!(p.sql, "SELECT ?, ?");
    assert_eq!(p.bindings, vec![0, 0]);
}

#[test]
fn plain_statement_runs_as_written() {
    let params: Vec<(String, ParamValue<i64>)> = vec![client("id", 1)];
    let p = prepare_query(&q("SELECT * FROM users"), HttpMethod::Delete, &params).unwrap();
    assert_eq!(p.sql, "SELECT * FROM users");
    assert!(p.bindings.is_empty());
}

#[test]
fn runtime_parameter_is_spliced() {
    let params: Vec<(String, ParamValue<i64>)> =
        vec![("user_id".to_string(), ParamValue::Internal("42".to_string())), client("id", 3)];
    let p = prepare_query(
        &q("SELECT * FROM t WHERE owner = | user_id | AND id = {id}"),
        HttpMethod::Get,
        &params,
    )
    .unwrap();
    assert_eq!(p.sql, "SELECT * FROM t WHERE owner = 42 AND id = ?");
    assert_eq!(p.bindings, vec![1]);
}

#[test]
fn missing_runtime_parameter_fails_with_its_piece() {
    let params: Vec<(String, ParamValue<i64>)> = vec![client("user_id", 1)];
    match prepare_query(&q("SELECT |user_id |"), HttpMethod::Get, &params) {
        Err(SqlExecError::MissingRuntimeParam(piece)) => assert_eq!(piece, "user_id "),
        other => panic!("unexpected {:?}", other),
    }
}

#[test]
fn missing_client_parameter_fails_outside_put() {
    let params: Vec<(String, ParamValue<i64>)> = vec![("id".to_string(), ParamValue::Client(None))];
    let e = prepare_query(&q("SELECT * FROM t WHERE id = {id}"), HttpMethod::Get, &params).unwrap_err();
    match &e {
        SqlExecError::MissingParam(name) => assert_eq!(name, "id"),
        other => panic!("unexpected {:?}", other),
    }
    assert_eq!(e.status(), 500);
}

#[test]
fn put_strips_an_absent_column() {
    let params = vec![client("b", 2), client("id", 7)];
    let p = prepare_query(
        &q("UPDATE t SET a = { a }, b = { b } WHERE id = {id} "),
        HttpMethod::Put,
        &params,
    )
    .unwrap();
    assert_eq!(p.sql, "UPDATE t SET  b = ? WHERE id = ? ");
    assert_eq!(p.bindings, vec![0, 1]);
}

#[test]
fn put_strips_a_trailing_column_with_its_comma() {
    let params = vec![client("a", 1), client("id", 7)];
    let p = prepare_query(&q("UPDATE t SET a = {a}, b = {b} WHERE id = {id}"), HttpMethod::Put, &params)
        .unwrap();
    assert_eq!(p.sql, "UPDATE t SET a = ? WHERE id = ?");
    assert_eq!(p.bindings, vec![0, 1]);
}

#[test]
fn put_with_an_unusable_name_fails() {
    let params: Vec<(String, ParamValue<i64>)> = vec![];
    match prepare_query(&q("UPDATE t SET x = {(}"), HttpMethod::Put, &params) {
        Err(SqlExecError::InvalidStripPattern(name, _)) => assert_eq!(name, "("),
        other => panic!("unexpected {:?}", other),
    }
}

#[test]
fn run_includes_only_marked_queries_in_order() {
    let queries = vec![
        SQLQuery::new("A".to_string(), true, SQLBehaviour::Permissive),
        SQLQuery::new("B".to_string(), false, SQLBehaviour::Permissive),
        SQLQuery::new("C".to_string(), true, SQLBehaviour::Unique),
    ];
    let params: Vec<(String, ParamValue<i64>)> = vec![];
    let mut run: SqlRun<u32> = SqlRun::new(queries, HttpMethod::Get);
    let mut seen = Vec::new();
    let mut rows = vec![vec![1, 2], vec![3], vec![4]].into_iter();
    while !run.is_done() {
        seen.push(run.prepare_next(&params).unwrap().sql);
        run.record(rows.next().unwrap()).unwrap();
    }
    assert_eq!(seen, vec!["A".to_string(), "B".to_string(), "C".to_string()]);
    match run.finish() {
        ResponseBody::Many(outs) => {
            assert_eq!(outs.len(), 2);
            match &outs[0] {
                QueryOutput::Rows(r) => assert_eq!(r, &vec![1, 2]),
                other => panic!("unexpected {:?}", other),
            }
            match &outs[1] {
                QueryOutput::Row(r) => assert_eq!(*r, 4),
                other => panic!("unexpected {:?}", other),
            }
        }
        other => panic!("unexpected {:?}", other),
    }
}

fn no_params() -> Vec<(String, ParamValue<i64>)> {
    vec![]
}

/// Prepares the next statement and records the rows it returned.
fn step(run: &mut SqlRun<u32>, rows: Vec<u32>) -> Result<(), SqlExecError> {
    run.prepare_next(&no_params()).unwrap();
    run.record(rows)
}

#[test]
fn run_with_one_included_query_answers_its_rows() {
    let queries = vec![
        SQLQuery::new("A".to_string(), false, SQLBehaviour::Permissive),
        SQLQuery::new("B".to_string(), true, SQLBehaviour::Permissive),
    ];
    let mut run: SqlRun<u32> = SqlRun::new(queries, HttpMethod::Get);
    step(&mut run, vec![]).unwrap();
    step(&mut run, vec![5, 6]).unwrap();
    match run.finish() {
        ResponseBody::One(QueryOutput::Rows(r)) => assert_eq!(r, vec![5, 6]),
        other => panic!("unexpected {:?}", other),
    }
}

#[test]
fn run_without_included_query_has_no_body() {
    let queries = vec![SQLQuery::new("A".to_string(), false, SQLBehaviour::Permissive)];
    let mut run: SqlRun<u32> = SqlRun::new(queries, HttpMethod::Post);
    step(&mut run, vec![1]).unwrap();
    assert!(matches!(run.finish(), ResponseBody::Empty));
    let run: SqlRun<u32> = SqlRun::new(vec![], HttpMethod::Get);
    assert!(run.is_done());
    assert!(matches!(run.finish(), ResponseBody::Empty));
}

#[test]
fn fail_on_empty_rejects_no_rows() {
    let queries = vec![
        SQLQuery::new("A".to_string(), true, SQLBehaviour::FailOnEmpty),
        SQLQuery::new("B".to_string(), true, SQLBehaviour::Permissive),
    ];
    let mut run: SqlRun<u32> = SqlRun::new(queries, HttpMethod::Get);
    let e = step(&mut run, vec![]).unwrap_err();
    assert!(matches!(e, SqlExecError::EmptyResult));
    assert_eq!(e.status(), 400);
    assert_eq!(run.phase(), RunPhase::Failed);
    assert!(!run.is_done());
}

#[test]
fn fail_on_empty_accepts_rows() {
    let queries = vec![SQLQuery::new("A".to_string(), true, SQLBehaviour::FailOnEmpty)];
    let mut run: SqlRun<u32> = SqlRun::new(queries, HttpMethod::Get);
    step(&mut run, vec![1]).unwrap();
    assert!(run.is_done());
    assert_eq!(run.phase(), RunPhase::Ready);
}

#[test]
fn unique_rejects_more_than_one_row() {
    let queries = vec![SQLQuery::new("A".to_string(), true, SQLBehaviour::Unique)];
    let mut run: SqlRun<u32> = SqlRun::new(queries, HttpMethod::Get);
    let e = step(&mut run, vec![1, 2]).unwrap_err();
    assert!(matches!(e, SqlExecError::NotUnique));
    assert_eq!(e.status(), 400);
    assert_eq!(run.phase(), RunPhase::Failed);
}

#[test]
fn unique_answers_its_one_row() {
    let queries = vec![SQLQuery::new("A".to_string(), true, SQLBehaviour::Unique)];
    let mut run: SqlRun<u32> = SqlRun::new(queries, HttpMethod::Get);
    step(&mut run, vec![8]).unwrap();
    match run.finish() {
        ResponseBody::One(QueryOutput::Row(r)) => assert_eq!(r, 8),
        other => panic!("unexpected {:?}", other),
    }
}

#[test]
fn unique_accepts_an_empty_result() {
    let queries = vec![
        SQLQuery::new("A".to_string(), true, SQLBehaviour::Unique),
        SQLQuery::new("B".to_string(), true, SQLBehaviour::Permissive),
    ];
    let mut run: SqlRun<u32> = SqlRun::new(queries, HttpMethod::Get);
    step(&mut run, vec![]).unwrap();
    assert_eq!(run.phase(), RunPhase::Ready);
    step(&mut run, vec![3]).unwrap();
    match run.finish() {
        ResponseBody::Many(outs) => {
            assert_eq!(outs.len(), 2);
            assert!(matches!(outs[0], QueryOutput::NoRow));
            match &outs[1] {
                QueryOutput::Rows(r) => assert_eq!(r, &vec![3]),
                other => panic!("unexpected {:?}", other),
            }
        }
        other => panic!("unexpected {:?}", other),
    }
}

#[test]
fn failed_query_ends_the_run() {
    let queries = vec![
        SQLQuery::new("A".to_string(), true, SQLBehaviour::Permissive),
        SQLQuery::new("B".to_string(), true, SQLBehaviour::Permissive),
    ];
    let mut run: SqlRun<u32> = SqlRun::new(queries, HttpMethod::Get);
    assert_eq!(run.phase(), RunPhase::Ready);
    run.prepare_next(&no_params()).unwrap();
    assert_eq!(run.phase(), RunPhase::Running);
    let e = run.fail_query("table missing".to_string());
    match &e {
        SqlExecError::QueryFailed(m) => assert_eq!(m, "table missing"),
        other => panic!("unexpected {:?}", other),
    }
    assert_eq!(e.status(), 500);
    assert_eq!(run.phase(), RunPhase::Failed);
    assert!(!run.is_done());
}

#[test]
fn missing_parameter_ends_the_run() {
    let queries = vec![SQLQuery::new("SELECT {id}".to_string(), true, SQLBehaviour::Permissive)];
    let mut run: SqlRun<u32> = SqlRun::new(queries, HttpMethod::Get);
    let e = run.prepare_next(&no_params()).unwrap_err();
    assert!(matches!(e, SqlExecError::MissingParam(_)));
    assert_eq!(run.phase(), RunPhase::Failed);
}

#[test]
fn excluded_wrapper_answers_without_body() {
    let w = waveless_sql::http_executor::query::SQLQueryWrapper::new("A; B".to_string()).with_include(false);
    let e = waveless_sql::http_executor::mysql::MySQLExecutor::from(w);
    let mut run: SqlRun<u32> = SqlRun::new(e.into_queries(), HttpMethod::Get);
    step(&mut run, vec![1, 2]).unwrap();
    step(&mut run, vec![3]).unwrap();
    assert!(run.is_done());
    assert!(matches!(run.finish(), ResponseBody::Empty));
}
