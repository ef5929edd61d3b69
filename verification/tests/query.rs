use waveless_sql::http_execute::mysql::MySQLExecute;
use waveless_sql::http_execute::postgres::{PostgresExecute, PostgresQuery, PostgresQueryWrapper};
use waveless_sql::http_executor::mysql::MySQLExecutor;
use waveless_sql::http_executor::query::{
    behaviour_skip, default_true, SQLBehaviour, SQLQuery, SQLQueryWrapper,
};

fn texts(queries: &Vec<SQLQuery>) -> Vec<String> {
    queries.iter().map(|q| q.query().clone()).collect()
}

#[test]
fn behaviour_defaults_to_permissive() {
    assert_eq!(SQLBehaviour::default(), SQLBehaviour::Permissive);
    assert!(behaviour_skip(&SQLBehaviour::Permissive));
    assert!(!behaviour_skip(&SQLBehaviour::Unique));
    assert!(!behaviour_skip(&SQLBehaviour::FailOnEmpty));
    assert!(default_true());
}

#[test]
fn new_wrapper_is_single_included_permissive() {
    match SQLQueryWrapper::new("SELECT 1".to_string()) {
        SQLQueryWrapper::Single { database, query } => {
            assert_eq!(database, None);
            assert_eq!(query.query(), "SELECT 1");
            assert!(*query.included());
            assert_eq!(*query.behaviour(), SQLBehaviour::Permissive);
        }
        SQLQueryWrapper::Many { .. } => panic!("expected a single query"),
    }
}

#[test]
fn builders_set_options_on_single() {
    let w = SQLQueryWrapper::new("SELECT 1".to_string())
        .with_database("main".to_string())
        .with_include(false)
        .with_behaviour(SQLBehaviour::Unique);
    match w {
        SQLQueryWrapper::Single { database, query } => {
            assert_eq!(database, Some("main".to_string()));
            assert!(!*query.included());
            assert_eq!(*query.behaviour(), SQLBehaviour::Unique);
            assert_eq!(query.query(), "SELECT 1");
        }
        SQLQueryWrapper::Many { .. } => panic!("expected a single query"),
    }
}

#[test]
fn builders_set_options_on_every_query_of_many() {
    let queries = vec![
        SQLQuery::new("SELECT 1".to_string(), true, SQLBehaviour::Permissive),
        SQLQuery::new("SELECT 2".to_string(), true, SQLBehaviour::FailOnEmpty),
    ];
    let w = SQLQueryWrapper::Many { database: None, queries }
        .with_include(false)
        .with_behaviour(SQLBehaviour::Unique)
        .with_database("db".to_string());
    match w {
        SQLQueryWrapper::Many { database, queries } => {
            assert_eq!(database, Some("db".to_string()));
            assert_eq!(texts(&queries), vec!["SELECT 1".to_string(), "SELECT 2".to_string()]);
            for q in &queries {
                assert!(!*q.included());
                assert_eq!(*q.behaviour(), SQLBehaviour::Unique);
            }
        }
        SQLQueryWrapper::Single { .. } => panic!("expected many queries"),
    }
}

#[test]
fn include_set_twice_keeps_the_last() {
    let w = SQLQueryWrapper::new("SELECT 1".to_string()).with_include(false).with_include(true);
    match w {
        SQLQueryWrapper::Single { query, .. } => assert!(*query.included()),
        SQLQueryWrapper::Many { .. } => panic!("expected a single query"),
    }
}

#[test]
fn executor_splits_a_single_query_into_statements() {
    let w = SQLQueryWrapper::new("SELECT 1; SELECT 2;;".to_string())
        .with_behaviour(SQLBehaviour::FailOnEmpty)
        .with_database("db".to_string());
    let e = MySQLExecutor::from(w);
    assert_eq!(e.database(), &Some("db".to_string()));
    assert_eq!(e.name(), "mysql");
    assert_eq!(texts(e.queries()), vec!["SELECT 1".to_string(), " SELECT 2".to_string()]);
    for q in e.queries() {
        assert!(*q.included());
        assert_eq!(*q.behaviour(), SQLBehaviour::FailOnEmpty);
    }
}

#[test]
fn executor_of_empty_text_has_no_query() {
    let e = MySQLExecutor::from(SQLQueryWrapper::new(String::new()));
    assert!(e.queries().is_empty());
    let e = MySQLExecutor::from(SQLQueryWrapper::new(";;".to_string()));
    assert!(e.queries().is_empty());
}

#[test]
fn executor_keeps_a_list_of_queries_as_it_is() {
    let queries = vec![
        SQLQuery::new("SELECT 1; SELECT 2".to_string(), false, SQLBehaviour::Permissive),
        SQLQuery::new("".to_string(), true, SQLBehaviour::Unique),
    ];
    let e = MySQLExecutor::from(SQLQueryWrapper::Many { database: None, queries });
    assert_eq!(e.database(), &None);
    assert_eq!(texts(e.queries()), vec!["SELECT 1; SELECT 2".to_string(), "".to_string()]);
    assert_eq!(*e.queries()[1].behaviour(), SQLBehaviour::Unique);
}

#[test]
fn execute_targets_split_like_the_executor() {
    let e = MySQLExecute::from(SQLQueryWrapper::new("A;B".to_string()).with_include(false));
    assert_eq!(texts(e.queries()), vec!["A".to_string(), "B".to_string()]);
    assert!(!*e.queries()[0].included());
    assert_eq!(e.name(), "mysql");

    let p = PostgresExecute::from(PostgresQueryWrapper::new(SQLQueryWrapper::new("A;;B;".to_string())));
    let qs: Vec<String> = p.queries().iter().map(|q| q.as_query().query().clone()).collect();
    assert_eq!(qs, vec!["A".to_string(), "B".to_string()]);
    assert_eq!(texts(&p.into_queries()), vec!["A".to_string(), "B".to_string()]);

    let q = PostgresQuery::new(SQLQuery::new("X".to_string(), true, SQLBehaviour::Unique));
    assert_eq!(q.as_query().query(), "X");
}

#[test]
fn queries_compare_by_text_inclusion_and_behaviour() {
    let a = SQLQuery::new("SELECT 1".to_string(), true, SQLBehaviour::Unique);
    assert!(a == a.clone());
    assert!(a != SQLQuery::new("SELECT 2".to_string(), true, SQLBehaviour::Unique));
    assert!(a != SQLQuery::new("SELECT 1".to_string(), false, SQLBehaviour::Unique));
    assert!(a != SQLQuery::new("SELECT 1".to_string(), true, SQLBehaviour::Permissive));
}

#[test]
fn wrappers_compare_by_kind_database_and_queries() {
    let w = SQLQueryWrapper::new("A; B".to_string()).with_database("main".to_string());
    assert!(w == w.clone());
    assert!(w != SQLQueryWrapper::new("A; B".to_string()));
    assert!(w != SQLQueryWrapper::new("A".to_string()).with_database("main".to_string()));
    let many = SQLQueryWrapper::Many {
        database: None,
        queries: vec![SQLQuery::new("A; B".to_string(), true, SQLBehaviour::Permissive)],
    };
    assert!(many != SQLQueryWrapper::new("A; B".to_string()));
    assert!(many == many.clone());
}

#[test]
fn executors_compare_by_database_and_queries() {
    let e = MySQLExecutor::from(SQLQueryWrapper::new("A; B".to_string()));
    assert!(e == e.clone());
    let listed = MySQLExecutor::new(
        None,
        vec![
            SQLQuery::new("A".to_string(), true, SQLBehaviour::Permissive),
            SQLQuery::new(" B".to_string(), true, SQLBehaviour::Permissive),
        ],
    );
    assert_eq!(texts(e.queries()), texts(listed.queries()));
    assert!(e == listed);
    assert!(e != MySQLExecutor::new(Some("main".to_string()), listed.queries().clone()));
    assert!(e != MySQLExecutor::new(None, vec![SQLQuery::new("A".to_string(), true, SQLBehaviour::Permissive)]));
}
