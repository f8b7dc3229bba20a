use sf_formula::parse::comment::parse_comment;
use sf_formula::token::Comment;

fn comment(input: &str) -> Result<Comment, ()> {
    match parse_comment(input, 0) {
        Some(((c, _), end)) if end == input.len() => Ok(c),
        _ => Err(()),
    }
}

#[test]
fn test_parse_comment() {
    assert_eq!(
        comment("/*This is a\nformula\r\n comment*/").unwrap(),
        Comment("This is a\nformula\r\n comment".to_string())
    );
    assert!(comment("/* /* comment */ */").is_err());
}

#[test]
fn comment_span_and_what_follows() {
    let src = "  /* a */ /* b */ x";
    let ((c, span), next) = parse_comment(src, 0).unwrap();
    assert_eq!(c, Comment(" a ".to_string()));
    assert_eq!((span.start, span.end), (2, 9));
    assert_eq!(&src[next..], "x");
    assert!(parse_comment("/* open", 0).is_none());
}
