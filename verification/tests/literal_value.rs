use sf_formula::parse::literal_value::{
    parse_checkbox, parse_literal, parse_null, parse_number, parse_string,
};
use sf_formula::token::LiteralValue;

fn full<T>(r: Option<(T, usize)>, input: &str) -> Result<T, ()> {
    match r {
        Some((v, end)) if end == input.len() => Ok(v),
        _ => Err(()),
    }
}

fn number(input: &str) -> Result<f64, ()> {
    full(parse_number(input, 0), input).map(|text| text.parse::<f64>().unwrap())
}

#[test]
fn test_number() {
    assert_eq!(number("0.5").unwrap(), 0.5);
    assert_eq!(number(".5").unwrap(), 0.5);
    assert_eq!(number("69420").unwrap(), 69420.);
    assert!(number("not3").is_err());
    assert!(number("2not").is_err());
}

#[test]
fn test_checkbox() {
    assert_eq!(full(parse_checkbox("True", 0), "True").unwrap(), true);
    assert_eq!(full(parse_checkbox("False", 0), "False").unwrap(), false);
    assert!(full(parse_checkbox("true", 0), "true").is_err());
}

fn null(input: &str) -> Result<(), ()> {
    match parse_null(input, 0) {
        Some(end) if end == input.len() => Ok(()),
        _ => Err(()),
    }
}

#[test]
fn test_null() {
    assert_eq!(null("null").unwrap(), ());
    assert_eq!(null("Null").unwrap(), ());
    assert_eq!(null("NULL").unwrap(), ());
    assert!(null("nul").is_err());
    let test_str = "null";
    assert_eq!(full(parse_literal(test_str, 0), test_str).unwrap().0, LiteralValue::Null);
}

#[test]
fn test_string() {
    let test_str = "\"he said, \"\"hi\"\"\"";
    assert_eq!(full(parse_string(test_str, 0), test_str).unwrap(), "he said, \"\"hi\"\"");
}

#[test]
fn number_forms_follow_the_float_grammar() {
    for good in ["1e5", "1.5E-3", "+2", "-2.", "inf", "Infinity", "NaN", "3.25e+2"] {
        let text = full(parse_number(good, 0), good).unwrap();
        assert_eq!(text, good);
        assert!(text.parse::<f64>().is_ok(), "{good}");
    }
    for bad in ["e5", "1e", "+", ".", "na", "in"] {
        assert!(full(parse_number(bad, 0), bad).is_err(), "{bad}");
    }
    // a number stops where the grammar stops
    assert_eq!(parse_number("12abc", 0), Some(("12".to_string(), 2)));
    assert_eq!(parse_number("infinite", 0), Some(("inf".to_string(), 3)));
}

#[test]
fn single_quoted_strings_and_literal_spans() {
    assert_eq!(parse_string("'it''s'", 0), Some(("it''s".to_string(), 7)));
    assert_eq!(parse_string("\"open", 0), None);
    let src = "  'x' /* c */ + 1";
    let ((value, span), next) = parse_literal(src, 0).unwrap();
    assert_eq!(value, LiteralValue::Text("x".to_string()));
    assert_eq!((span.start, span.end), (2, 5));
    assert_eq!(&src[next..], "+ 1");
    assert_eq!(parse_literal("False", 0).unwrap().0 .0, LiteralValue::Checkbox(false));
    assert_eq!(
        parse_literal("12.5", 0).unwrap().0 .0,
        LiteralValue::Number("12.5".to_string())
    );
}

#[test]
fn literal_alternatives_are_tried_in_order() {
    // `nan` is a number, `Nancy` starts with one
    assert_eq!(parse_literal("nan", 0).unwrap().0 .0, LiteralValue::Number("nan".to_string()));
    assert_eq!(parse_literal("Nancy", 0).unwrap().1, 3);
    assert_eq!(parse_literal("NULL", 0).unwrap().0 .0, LiteralValue::Null);
    assert!(parse_literal("Amount", 0).is_none());
}
