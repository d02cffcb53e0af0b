use rhq::order::compare_str;
use rhq::{canonicalize_pretty, StrSkip};

#[test]
fn test_skipped_1() {
    assert_eq!("hoge".skip(1), "oge");
    assert_eq!("あいueo".skip(1), "いueo");
}

#[test]
fn skip_zero_keeps_everything() {
    assert_eq!("hoge".skip(0), "hoge");
}

#[test]
fn skip_past_the_end_is_empty() {
    assert_eq!("hoge".skip(4), "");
    assert_eq!("あい".skip(7), "");
    assert_eq!("".skip(1), "");
}

#[test]
fn pretty_path_on_windows_drops_verbatim_prefix() {
    assert_eq!(
        canonicalize_pretty(r"\\?\C:\Users\me\src", true),
        "C:/Users/me/src"
    );
}

#[test]
fn pretty_path_on_windows_without_prefix() {
    assert_eq!(canonicalize_pretty(r"C:\a\b", true), "C:/a/b");
}

#[test]
fn pretty_path_drops_repeated_prefix() {
    assert_eq!(canonicalize_pretty(r"\\?\\\?\x", true), "x");
}

#[test]
fn pretty_path_elsewhere_is_unchanged() {
    assert_eq!(canonicalize_pretty(r"/home/me/a\b", false), r"/home/me/a\b");
}

#[test]
fn compare_strings_in_str_order() {
    assert!(compare_str("a", "b") < 0);
    assert!(compare_str("b", "a") > 0);
    assert_eq!(compare_str("abc", "abc"), 0);
    assert!(compare_str("ab", "abc") < 0);
    assert!(compare_str("", "a") < 0);
    assert!(compare_str("z", "あ") < 0);
}
