use sf_formula::report::{offset_to_position, unexpected_token_message};
use sf_formula::{validate_expression, validate_expression_detailed, validate_expression_detailed_with_source};

#[test]
fn error_fields_describe_the_position() {
    let error = validate_expression_detailed("1 +\n  | 2").err().unwrap();
    assert_eq!(error.message, "unexpected \"|\"");
    assert_eq!((error.offset, error.end_offset), (6, 7));
    assert_eq!((error.line, error.column, error.end_line, error.end_column), (1, 2, 1, 3));
    assert_eq!(error.details, vec!["did you mean `||`?".to_string()]);
    assert_eq!(error.suggestion_ids, vec!["replace-single-pipe-with-double-pipe"]);
    assert!(error.rendered.contains("invalid formula expression"));
    assert!(error.rendered.contains("error occurred here"));
}

#[test]
fn suggestion_details_and_replacements() {
    let error = validate_expression_detailed("AND(1,)").err().unwrap();
    assert_eq!(error.suggestions.len(), 1);
    let s = &error.suggestions[0];
    assert_eq!(s.id, "remove-trailing-comma");
    assert_eq!(s.message, "remove trailing comma");
    assert_eq!(s.replacement.as_deref(), Some(""));
    assert_eq!(s.span.map(|sp| (sp.start, sp.end)), Some((5, 6)));
    assert_eq!(error.details, vec!["remove trailing comma".to_string()]);

    let error = validate_expression_detailed("AND(\n  Amount\n  B\n)").err().unwrap();
    let s = &error.suggestions[0];
    assert_eq!(s.span.map(|sp| (sp.start, sp.end)), Some((13, 13)));
    assert_eq!(s.replacement.as_deref(), Some(","));
}

#[test]
fn messages_escape_the_unexpected_character() {
    assert_eq!(unexpected_token_message("a\tb", 1), "unexpected \"\\t\"");
    assert_eq!(unexpected_token_message("a'b", 1), "unexpected \"\\'\"");
    assert_eq!(unexpected_token_message("aéb", 1), "unexpected \"\\u{e9}\"");
    assert_eq!(unexpected_token_message("a€", 1), "unexpected \"\\u{20ac}\"");
    assert_eq!(unexpected_token_message("ab", 2), "unexpected end of input");
    assert_eq!(unexpected_token_message("aéb", 2), "unexpected end of input");
}

#[test]
fn positions_count_lines_and_bytes() {
    assert_eq!(offset_to_position("ab\ncd\nef", 4), (1, 1));
    assert_eq!(offset_to_position("ab\ncd", 3), (1, 0));
    assert_eq!(offset_to_position("ab", 99), (0, 2));
    assert_eq!(offset_to_position("", 0), (0, 0));
}

#[test]
fn rendered_text_is_what_validate_expression_returns() {
    let detailed = validate_expression_detailed("1 !").err().unwrap();
    assert_eq!(validate_expression("1 !").err().unwrap(), detailed.rendered);
    assert_eq!(validate_expression("1 + 2"), Ok(()));
    let named = validate_expression_detailed_with_source("1 !", "my.sff").err().unwrap();
    assert!(named.rendered.contains("my.sff"));
    assert_eq!(named.offset, detailed.offset);
}

#[test]
fn unexpected_end_when_a_parenthesis_is_missing() {
    let error = validate_expression_detailed("(1").err().unwrap();
    assert_eq!(error.message, "unexpected end of input");
    assert_eq!((error.offset, error.end_offset), (2, 2));
    assert_eq!(error.suggestion_ids, vec!["insert-missing-closing-paren"]);
}
