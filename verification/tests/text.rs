use pubsys_ecr::text::{
    chars_of, clone_opt, contains_char, decimal_text, join, nth_piece, owned_opt, same_text,
    text_after_last,
};

#[test]
fn parts_between_separators() {
    assert_eq!(nth_piece("a:b::c", ':', 0), Some("a"));
    assert_eq!(nth_piece("a:b::c", ':', 1), Some("b"));
    assert_eq!(nth_piece("a:b::c", ':', 2), Some(""));
    assert_eq!(nth_piece("a:b::c", ':', 3), Some("c"));
    assert_eq!(nth_piece("a:b::c", ':', 4), None);
    assert_eq!(nth_piece("", ':', 0), Some(""));
    assert_eq!(nth_piece("ä:ö", ':', 1), Some("ö"));
}

#[test]
fn parts_join_back() {
    let s = "arn:aws:iam::1:role/R:";
    let mut parts = Vec::new();
    while let Some(part) = nth_piece(s, ':', parts.len()) {
        assert!(!part.contains(':'));
        parts.push(part.to_owned());
    }
    assert_eq!(parts.len(), 7);
    assert_eq!(join(&parts, ":"), s);
}

#[test]
fn rest_after_last_separator() {
    assert_eq!(text_after_last("a/b/c", '/'), Some("c"));
    assert_eq!(text_after_last("a/", '/'), Some(""));
    assert_eq!(text_after_last("a", '/'), None);
    assert_eq!(text_after_last("é/ñ", '/'), Some("ñ"));
}

#[test]
fn lists_join_with_separator() {
    assert_eq!(join(&vec![], ", "), "");
    assert_eq!(join(&vec!["a".to_owned()], ", "), "a");
    assert_eq!(
        join(&vec!["a".to_owned(), "".to_owned(), "c".to_owned()], ", "),
        "a, , c"
    );
}

#[test]
fn numbers_in_decimal() {
    assert_eq!(decimal_text(0), "0");
    assert_eq!(decimal_text(9), "9");
    assert_eq!(decimal_text(10), "10");
    assert_eq!(decimal_text(1234567890), "1234567890");
    assert_eq!(decimal_text(usize::MAX), usize::MAX.to_string());
}

#[test]
fn characters_and_comparison() {
    assert_eq!(chars_of("aß"), vec!['a', 'ß']);
    assert!(contains_char("a@b", '@'));
    assert!(!contains_char("ab", '@'));
    assert!(same_text("aws-cn", "aws-cn"));
    assert!(!same_text("aws", "aws-cn"));
    assert!(!same_text("aws-cn", "aws-cm"));
}

#[test]
fn optional_strings_are_copied() {
    assert_eq!(owned_opt(Some("a")), Some("a".to_owned()));
    assert_eq!(owned_opt(None), None);
    assert_eq!(clone_opt(&Some("a".to_owned())), Some("a".to_owned()));
    assert_eq!(clone_opt(&None), None);
}
