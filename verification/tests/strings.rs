use avii_lang::strutil::{i64_to_dec, parse_index_lexeme, parse_int_lexeme, split_string, str_eq, u64_to_dec};

#[test]
fn decimal_rendering() {
    assert_eq!(u64_to_dec(0), "0");
    assert_eq!(u64_to_dec(907), "907");
    assert_eq!(i64_to_dec(-5), "-5");
    assert_eq!(i64_to_dec(i64::MIN), "-9223372036854775808");
    assert_eq!(i64_to_dec(i64::MAX), "9223372036854775807");
}

#[test]
fn integer_lexeme_parsing() {
    assert_eq!(parse_int_lexeme("0"), Some(0));
    assert_eq!(parse_int_lexeme("007"), Some(7));
    assert_eq!(parse_int_lexeme("9223372036854775807"), Some(i64::MAX));
    assert_eq!(parse_int_lexeme("9223372036854775808"), None);
    assert_eq!(parse_int_lexeme(""), None);
    assert_eq!(parse_int_lexeme("1.5"), None);
    assert_eq!(parse_int_lexeme("12a"), None);
}

#[test]
fn index_lexeme_parsing() {
    assert_eq!(parse_index_lexeme("2"), Some(2));
    assert_eq!(parse_index_lexeme("x"), None);
    assert_eq!(parse_index_lexeme(""), None);
}

#[test]
fn string_equality_by_characters() {
    assert!(str_eq("abc", "abc"));
    assert!(!str_eq("abc", "abd"));
    assert!(!str_eq("ab", "abc"));
    assert!(str_eq("", ""));
}

#[test]
fn splitting_on_delimiters() {
    assert_eq!(split_string("a,b,c", ","), vec!["a", "b", "c"]);
    assert_eq!(split_string("a,b,", ","), vec!["a", "b", ""]);
    assert_eq!(split_string("abc", "x"), vec!["abc"]);
    assert_eq!(split_string("aaa", "aa"), vec!["", "a"]);
    assert_eq!(split_string("", ","), vec![""]);
    assert_eq!(split_string("abc", ""), vec!["abc"]);
}
