use sf_formula::function_names::FunctionName;
use sf_formula::parse::expression::parse_formula;
use sf_formula::parse::function::{parse_function, parse_function_args, parse_function_name, parser_thing};
use sf_formula::token::{Expression, FieldReference, Function, FunctionArgumentList, LiteralValue, Span};

fn sp(r: std::ops::Range<usize>) -> Span {
    Span::new(r.start, r.end)
}

fn num(text: &str) -> LiteralValue {
    LiteralValue::Number(text.to_string())
}

fn text(t: &str) -> LiteralValue {
    LiteralValue::Text(t.to_string())
}

fn function_name(input: &str) -> Result<FunctionName, ()> {
    match parse_function_name(input, 0) {
        Some(((f, _), end)) if end == input.len() => Ok(f),
        _ => Err(()),
    }
}

#[test]
fn test_parse_function_name() {
    assert_eq!(function_name("ADDMONTHS").unwrap(), FunctionName::ADDMONTHS);
    assert_eq!(function_name("ReQuIReScriPT").unwrap(), FunctionName::REQUIRESCRIPT);
    assert!(function_name("UPER").is_err(),);
}

fn args(input: &str) -> FunctionArgumentList {
    let (list, end) = parse_function_args(input, 0).unwrap().unwrap();
    assert_eq!(end, input.len());
    list
}

#[test]
fn test_parse_function_args() {
    assert_eq!(args("()"), FunctionArgumentList::new(Vec::new(), sp(1..1)));
    assert_eq!(
        args("(1, \"\")"),
        FunctionArgumentList::new(
            vec![Expression::literal(num("1"), sp(1..2)), Expression::literal(text(""), sp(4..6))],
            sp(1..6)
        )
    );
}

fn function(input: &str) -> Function {
    let ((f, _span), end) = parse_function(input, 0).unwrap().unwrap();
    assert_eq!(end, input.len());
    f
}

#[test]
fn test_parse_function() {
    assert_eq!(
        function("AND ( 1, \"\" )"),
        Function::new(
            FunctionName::AND,
            FunctionArgumentList::new(
                vec![Expression::literal(num("1"), sp(6..7)), Expression::literal(text(""), sp(9..11))],
                sp(6..12)
            )
        )
    );
}

#[test]
fn test_single_arg() {
    assert_eq!(
        function("ISNULL(Wall_Thickness_in__c)"),
        Function::new(
            FunctionName::ISNULL,
            FunctionArgumentList::new(
                vec![Expression::field_ref(FieldReference::new("Wall_Thickness_in__c"), sp(7..27))],
                sp(7..27)
            )
        )
    );
}

#[test]
fn test_comment_func() {
    parse_formula("IF(ISNULL(Wall_Thickness_in__c), /* wall */ 'Depth:','Wall Thickness:')").unwrap();
}

#[test]
fn function_names_round_trip() {
    for f in FunctionName::all() {
        assert_eq!(FunctionName::from_name(f.as_str()), Ok(f));
        assert_eq!(FunctionName::from_name(&f.as_str().to_ascii_lowercase()), Ok(f));
    }
    assert_eq!(FunctionName::all().len(), 85);
    assert!(FunctionName::from_name("ROUNDS").is_err());
    assert!(FunctionName::ROUND.description().unwrap().contains("nearest number"));
}

#[test]
fn function_call_spans_and_errors() {
    let ((f, span), end) = parse_function(" round(1, 2) + 3", 0).unwrap().unwrap();
    assert_eq!(f.fname, FunctionName::ROUND);
    assert_eq!((span.start, span.end, end), (1, 12, 13));
    // a name that is not followed by `(` is not a call
    assert!(parse_function("ROUND + 1", 0).unwrap().is_none());
    // a call whose arguments do not close is an error at the offending token
    let err = parse_function("AND(1 2)", 0).unwrap_err();
    assert_eq!(err.offset, 6);
    assert_eq!(err.describe(), "expected `)`");
}

#[test]
fn parser_thing_reads_a_name_list() {
    assert_eq!(parser_thing("(a, bc ,d)", 0), Some((vec!["a".to_string(), "bc".to_string(), "d".to_string()], 10)));
    assert_eq!(parser_thing("()", 0), Some((vec![], 2)));
    assert_eq!(parser_thing("(a,)", 0), None);
    assert_eq!(parser_thing("( a)", 0), None);
}

#[test]
fn function_names_parse_ignoring_case() {
    assert_eq!("round".parse::<FunctionName>(), Ok(FunctionName::ROUND));
    assert_eq!("IsNull".parse::<FunctionName>(), Ok(FunctionName::ISNULL));
    assert!("ROUNDS".parse::<FunctionName>().is_err());
    assert!("".parse::<FunctionName>().is_err());
}
