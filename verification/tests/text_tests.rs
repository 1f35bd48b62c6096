use gateway_client::text::{chars_of, clone_strings, decimal_string, join_with, same_text};

#[test]
fn chars_come_out_in_order() {
    assert_eq!(chars_of("héy"), vec!['h', 'é', 'y']);
    assert_eq!(chars_of(""), Vec::<char>::new());
}

#[test]
fn same_text_compares_characters() {
    assert!(same_text("user", "user"));
    assert!(!same_text("user", "User"));
    assert!(!same_text("user", "users"));
    assert!(same_text("", ""));
}

#[test]
fn strings_are_copied_in_order() {
    let v = vec!["a".to_string(), String::new(), "c".to_string()];
    assert_eq!(clone_strings(&v), v);
}

#[test]
fn join_puts_the_separator_between_neighbours() {
    assert_eq!(join_with(&vec![], "|"), "");
    assert_eq!(join_with(&vec!["a".to_string()], "|"), "a");
    assert_eq!(join_with(&vec!["a".to_string(), "b".to_string()], "|"), "a|b");
    assert_eq!(join_with(&vec!["".to_string(), "".to_string(), "x".to_string()], ", "), ", , x");
}

#[test]
fn integers_are_written_in_decimal() {
    assert_eq!(decimal_string(0), "0");
    assert_eq!(decimal_string(7), "7");
    assert_eq!(decimal_string(10), "10");
    assert_eq!(decimal_string(-1), "-1");
    assert_eq!(decimal_string(1700000000123456789), "1700000000123456789");
    assert_eq!(decimal_string(i64::MAX), "9223372036854775807");
    assert_eq!(decimal_string(i64::MIN), "-9223372036854775808");
    for n in [-1000i64, -999, 99, 100, 101, 123456] {
        assert_eq!(decimal_string(n), n.to_string());
    }
}
