use rissue::text::{ends_with, format_i64, replace};

#[test]
fn replace_every_occurrence() {
    assert_eq!(replace("a-b--c", "-", "="), "a=b==c");
    assert_eq!(replace("no dash", "-", "="), "no dash");
    assert_eq!(replace("", "-", "="), "");
    assert_eq!(replace("<p>{}</p>{}", "{}", "X"), "<p>X</p>X");
    assert_eq!(replace("{{}}", "{}", ""), "{}");
    assert_eq!(replace("aaa", "aa", "b"), "ba");
    assert_eq!(replace("é-ü", "-", "≠"), "é≠ü");
}

#[test]
fn suffix_test() {
    assert!(ends_with("app.js", ".js"));
    assert!(!ends_with("style.css", ".js"));
    assert!(!ends_with("js", ".js"));
    assert!(ends_with(".js", ".js"));
}

#[test]
fn decimal_formatting() {
    assert_eq!(format_i64(0), "0");
    assert_eq!(format_i64(7), "7");
    assert_eq!(format_i64(120), "120");
    assert_eq!(format_i64(-45), "-45");
    assert_eq!(format_i64(i64::MAX), i64::MAX.to_string());
    assert_eq!(format_i64(i64::MIN), i64::MIN.to_string());
}

#[test]
fn replace_empty_pattern_as_std() {
    assert_eq!(replace("ab", "", "x"), "ab".replace("", "x"));
    assert_eq!(replace("ab", "", "x"), "xaxbx");
    assert_eq!(replace("", "", "x"), "x");
    assert_eq!(replace("é", "", "-"), "-é-");
}
