use waveless_sql::auth::method::MySQLSimpleAuthenticationMethod;
use waveless_sql::auth::mysql::role::MySQLRole;
use waveless_sql::auth::mysql::session::{is_session_live, MySQLToken, TOKEN_LEN};
use waveless_sql::auth::mysql::{classify_signup_failure, MySQLSimpleAuthentication};
use waveless_sql::auth::statement::{AuthError, ColumnType, SqlValue, Statement, Timestamp};

fn entries(pairs: &[(&str, &str)]) -> Vec<(String, String)> {
    pairs.iter().map(|(k, v)| (k.to_string(), v.to_string())).collect()
}

fn texts(st: &Statement) -> Vec<String> {
    st.values
        .iter()
        .map(|v| match v {
            SqlValue::Text(s) => s.clone(),
            other => panic!("unexpected value {:?}", other),
        })
        .collect()
}

fn ts(secs: i64) -> Timestamp {
    Timestamp { secs, nanos: 0 }
}

#[test]
fn simple_authentication_defaults() {
    let a = MySQLSimpleAuthentication::default();
    assert_eq!(a.table_name(), "users_auth");
    assert_eq!(a.user_id_field(), "user_id");
    assert_eq!(a.name_field(), "email");
    assert_eq!(a.password_field(), "password");
    assert!(a.extra_fields().is_empty());
    assert_eq!(a.totp_field(), &None);
    assert_eq!(a.database(), &None);
    assert_eq!(a.name(), "mysqlsimple");
    assert!(a.databases().is_empty());
}

#[test]
fn login_checks_name_and_password() {
    let a = MySQLSimpleAuthentication::default();
    let st = a
        .check_statement(&entries(&[("password", "secret"), ("email", "a@b.c")]))
        .unwrap();
    assert_eq!(st.sql, "SELECT user_id FROM users_auth WHERE email = ? AND password = ?");
    assert_eq!(texts(&st), vec!["a@b.c".to_string(), "secret".to_string()]);
}

#[test]
fn login_without_an_entry_names_the_field() {
    let a = MySQLSimpleAuthentication::default();
    match a.check_statement(&entries(&[("email", "a@b.c")])) {
        Err(AuthError::FieldNotFound(f)) => assert_eq!(f, "password"),
        other => panic!("unexpected {:?}", other),
    }
    match a.check_statement(&entries(&[])) {
        Err(AuthError::FieldNotFound(f)) => assert_eq!(f, "email"),
        other => panic!("unexpected {:?}", other),
    }
}

#[test]
fn login_result_reads_the_user_id() {
    let a = MySQLSimpleAuthentication::default();
    assert_eq!(a.check_result(None).unwrap(), None);
    assert_eq!(a.check_result(Some(Some(12))).unwrap(), Some(12));
    match a.check_result(Some(None)) {
        Err(AuthError::UnexpectedColumn { field, table, expected }) => {
            assert_eq!(field, "user_id");
            assert_eq!(table, "users_auth");
            assert_eq!(expected, ColumnType::IntUnsigned);
        }
        other => panic!("unexpected {:?}", other),
    }
}

#[test]
fn signup_inserts_one_mark_per_column() {
    let a = MySQLSimpleAuthentication::new(
        Some("main".to_string()),
        "people".to_string(),
        "id".to_string(),
        "mail".to_string(),
        "pw".to_string(),
        vec!["age".to_string(), "city".to_string()],
        None,
    );
    assert_eq!(a.databases(), vec!["main".to_string()]);
    let (insert, select) = a
        .signup_statements(&entries(&[("city", "Oz"), ("mail", "m"), ("pw", "p"), ("age", "9")]))
        .unwrap();
    assert_eq!(insert.sql, "INSERT INTO people (mail,pw,age,city) VALUES (?, ?, ?, ?)");
    assert_eq!(texts(&insert), vec!["m", "p", "9", "Oz"]);
    assert_eq!(select.sql, "SELECT id FROM people WHERE mail = ?");
    assert_eq!(texts(&select), vec!["m"]);
}

#[test]
fn signup_without_an_extra_entry_names_it() {
    let a = MySQLSimpleAuthentication::new(
        None,
        "people".to_string(),
        "id".to_string(),
        "mail".to_string(),
        "pw".to_string(),
        vec!["age".to_string(), "city".to_string()],
        None,
    );
    match a.signup_statements(&entries(&[("mail", "m"), ("pw", "p")])) {
        Err(AuthError::FieldNotFound(f)) => assert_eq!(f, "age"),
        other => panic!("unexpected {:?}", other),
    }
}

#[test]
fn signup_failure_recognises_duplicates() {
    assert!(matches!(
        classify_signup_failure("Duplicate entry 'a@b.c' for key 'email'".to_string()),
        AuthError::DuplicateAccount
    ));
    assert!(matches!(
        classify_signup_failure("DUPLICATE KEY".to_string()),
        AuthError::DuplicateAccount
    ));
    match classify_signup_failure("table missing".to_string()) {
        AuthError::QueryFailed(m) => assert_eq!(m, "table missing"),
        other => panic!("unexpected {:?}", other),
    }
}

#[test]
fn signup_result_expects_a_row() {
    let a = MySQLSimpleAuthentication::default();
    assert!(matches!(a.signup_result(None), Err(AuthError::UnexpectedOutput)));
    assert_eq!(a.signup_result(Some(Some(3))).unwrap(), 3);
    assert!(matches!(a.signup_result(Some(None)), Err(AuthError::UnexpectedColumn { .. })));
}

#[test]
fn method_with_database_id_behaves_alike() {
    let m = MySQLSimpleAuthenticationMethod::default();
    assert_eq!(m.db_id(), None);
    assert_eq!(m.name(), "mysqlsimple");
    let st = m.check_statement(&entries(&[("email", "e"), ("password", "p")])).unwrap();
    assert_eq!(st.sql, "SELECT user_id FROM users_auth WHERE email = ? AND password = ?");
    let m = MySQLSimpleAuthenticationMethod::new(
        Some("db2".to_string()),
        "u".to_string(),
        "i".to_string(),
        "n".to_string(),
        "p".to_string(),
        vec![],
        Some("totp".to_string()),
    );
    assert_eq!(m.db_id(), Some("db2".to_string()));
    assert_eq!(m.settings().totp_field(), &Some("totp".to_string()));
    let (insert, _) = m.signup_statements(&entries(&[("n", "x"), ("p", "y")])).unwrap();
    assert_eq!(insert.sql, "INSERT INTO u (n,p) VALUES (?, ?)");
    assert_eq!(m.check_result(Some(Some(4))).unwrap(), Some(4));
    assert_eq!(m.signup_result(Some(Some(5))).unwrap(), 5);
}

#[test]
fn token_defaults() {
    let t = MySQLToken::default();
    assert_eq!(t.table_name(), "sessions_auth");
    assert_eq!(t.token_field(), "session_id");
    assert_eq!(t.user_id_field(), "user_id");
    assert_eq!(t.created_field(), "created_at");
    assert_eq!(t.max_age(), Some(86400));
    assert_eq!(t.name(), "mysqltoken");
    assert!(t.databases().is_empty());
}

#[test]
fn token_lookup_statement() {
    let t = MySQLToken::default();
    let st = t.check_statement("abc".to_string());
    assert_eq!(st.sql, "SELECT user_id, created_at FROM sessions_auth WHERE session_id = ?");
    assert_eq!(texts(&st), vec!["abc"]);
}

#[test]
fn session_is_live_within_its_max_age() {
    let t = MySQLToken::new(None, "s".to_string(), "t".to_string(), "u".to_string(), "c".to_string(), 100);
    let created = ts(1_000);
    assert_eq!(t.check_result(Some((Some(7), Some(created))), ts(1_000)).unwrap(), Some(7));
    assert_eq!(t.check_result(Some((Some(7), Some(created))), ts(1_099)).unwrap(), Some(7));
    assert_eq!(t.check_result(Some((Some(7), Some(created))), ts(1_100)).unwrap(), None);
    assert_eq!(t.check_result(Some((Some(7), Some(created))), ts(999)).unwrap(), None);
    assert_eq!(
        t.check_result(Some((Some(7), Some(created))), Timestamp { secs: 1_099, nanos: 999_999_999 })
            .unwrap(),
        Some(7)
    );
    assert_eq!(t.check_result(None, ts(1_000)).unwrap(), None);
    assert!(is_session_live(ts(0), 1, ts(0)));
    assert!(!is_session_live(ts(0), 0, ts(0)));
}

#[test]
fn session_row_without_fields_fails() {
    let t = MySQLToken::default();
    match t.check_result(Some((None, Some(ts(0)))), ts(0)) {
        Err(AuthError::UnexpectedColumn { field, expected, .. }) => {
            assert_eq!(field, "user_id");
            assert_eq!(expected, ColumnType::IntUnsigned);
        }
        other => panic!("unexpected {:?}", other),
    }
    match t.check_result(Some((Some(1), None)), ts(0)) {
        Err(AuthError::UnexpectedColumn { field, table, expected }) => {
            assert_eq!(field, "created_at");
            assert_eq!(table, "sessions_auth");
            assert_eq!(expected, ColumnType::DateTime);
        }
        other => panic!("unexpected {:?}", other),
    }
}

#[test]
fn new_session_stores_a_random_token() {
    let t = MySQLToken::default();
    let now = Timestamp { secs: 1_700_000_000, nanos: 500_000_000 };
    let (token, st) = t.new_session(42, now);
    assert_eq!(token.chars().count(), TOKEN_LEN);
    assert!(token.chars().all(|c| c.is_ascii_alphanumeric()));
    assert_eq!(st.sql, "INSERT INTO sessions_auth VALUES (?, ?, ?)");
    assert_eq!(texts(&st), vec![token.clone(), "42".to_string(), "2023-11-14 22:13:20.500".to_string()]);
    let (other, _) = t.new_session(42, now);
    assert_ne!(token, other);
}

#[test]
fn new_session_at_the_epoch() {
    let t = MySQLToken::default();
    let (_, st) = t.new_session(0, ts(0));
    assert_eq!(texts(&st)[1..].to_vec(), vec!["0".to_string(), "1970-01-01 00:00:00".to_string()]);
}

#[test]
fn invalidate_one_or_all_sessions() {
    let t = MySQLToken::default();
    let one = t.invalidate_statement(1234567890, Some("tok".to_string()));
    assert_eq!(one.sql, "DELETE FROM sessions_auth WHERE session_id = ? AND user_id = ?");
    assert_eq!(texts(&one), vec!["tok", "1234567890"]);
    let all = t.invalidate_statement(5, None);
    assert_eq!(all.sql, "DELETE FROM sessions_auth WHERE user_id = ?");
    assert_eq!(texts(&all), vec!["5"]);
}

#[test]
fn role_lookup() {
    let r = MySQLRole::default();
    assert_eq!(r.table_name(), "roles_auth");
    assert_eq!(r.user_id_field(), "user_id");
    assert_eq!(r.role_field(), "role");
    assert_eq!(r.name(), "mysqlrole");
    let st = r.get_statement(7);
    assert_eq!(st.sql, "SELECT role FROM roles_auth WHERE user_id = ?");
    assert_eq!(texts(&st), vec!["7"]);
    assert_eq!(r.get_result(None).unwrap(), None);
    assert_eq!(r.get_result(Some(Some("admin".to_string()))).unwrap(), Some("admin".to_string()));
    match r.get_result(Some(None)) {
        Err(AuthError::UnexpectedColumn { field, expected, .. }) => {
            assert_eq!(field, "user_id");
            assert_eq!(expected, ColumnType::Varchar);
        }
        other => panic!("unexpected {:?}", other),
    }
    let r = MySQLRole::new(Some("d".to_string()), "t".to_string(), "u".to_string(), "r".to_string());
    assert_eq!(r.databases(), vec!["d".to_string()]);
}
