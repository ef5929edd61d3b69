use waveless_sql::databases::pool_size_bounds;
use waveless_sql::text::{chars_of, contains_text, split_chars, trimmed};
use waveless_sql::{assert_db_backends_length, register};

#[test]
fn exactly_one_backend_is_needed() {
    assert!(assert_db_backends_length(1, "exec".to_string()).is_ok());
    let e = assert_db_backends_length(0, "exec".to_string()).unwrap_err();
    assert_eq!(e.loaded, 0);
    assert_eq!(e.origin, "exec");
    assert_eq!(assert_db_backends_length(2, "m".to_string()).unwrap_err().loaded, 2);
    register();
}

#[test]
fn pool_sizes_default_to_cpus() {
    assert_eq!(pool_size_bounds(None, None, 4), (4, 8));
    assert_eq!(pool_size_bounds(Some(2), Some(3), 4), (2, 3));
    assert_eq!(pool_size_bounds(Some(1usize << 32 | 5), None, 1), (5, 2));
}

#[test]
fn text_helpers() {
    let pieces: Vec<String> = split_chars(&chars_of("a;;b"), ';')
        .iter()
        .map(|p| p.iter().collect())
        .collect();
    assert_eq!(pieces, vec!["a".to_string(), "".to_string(), "b".to_string()]);
    let t: String = trimmed(&chars_of(" ,\u{3000}x, y ,"), true).iter().collect();
    assert_eq!(t, "x, y");
    let t: String = trimmed(&chars_of("\t x y \n"), false).iter().collect();
    assert_eq!(t, "x y");
    assert!(contains_text(&chars_of("a duplicate"), &chars_of("dup")));
    assert!(!contains_text(&chars_of("du"), &chars_of("dup")));
    assert!(contains_text(&chars_of("x"), &chars_of("")));
}
