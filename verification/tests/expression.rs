use sf_formula::parse::error::ParseError;
use sf_formula::parse::expression::{parse_expression, parse_formula};
use sf_formula::token::{
    BinaryExpr, Expression, FieldReference, LiteralValue, Operator, Span, UnaryExpr,
};

fn span_of(source: &str, needle: &str) -> Span {
    let start = source
        .find(needle)
        .unwrap_or_else(|| panic!("missing span for {needle}"));
    Span::new(start, start + needle.len())
}

fn sp(r: std::ops::Range<usize>) -> Span {
    Span::new(r.start, r.end)
}

fn num(text: &str) -> LiteralValue {
    LiteralValue::Number(text.to_string())
}

#[test]
fn test_bin_expr() {
    let test_str = "6 + 9";
    assert_eq!(
        parse_formula(test_str).unwrap(),
        Expression::binary_expr(
            sp(0..test_str.len()),
            BinaryExpr(
                Expression::literal(num("6"), span_of(test_str, "6")),
                Operator::Add,
                Expression::literal(num("9"), span_of(test_str, "9"))
            ),
        )
    );

    let test_str = "6 + 9 * 42";
    assert_eq!(
        parse_formula(test_str).unwrap(),
        Expression::binary_expr(
            sp(0..test_str.len()),
            BinaryExpr(
                Expression::literal(num("6"), span_of(test_str, "6")),
                Operator::Add,
                Expression::binary_expr(
                    span_of(test_str, "9 * 42"),
                    BinaryExpr(
                        Expression::literal(num("9"), span_of(test_str, "9")),
                        Operator::Multiply,
                        Expression::literal(num("42"), span_of(test_str, "42"))
                    )
                )
            )
        )
    );

    let test_str = "(6 + 9) * 42";
    assert_eq!(
        parse_formula(test_str).unwrap(),
        Expression::binary_expr(
            sp(1..test_str.len()),
            BinaryExpr(
                Expression::binary_expr(
                    span_of(test_str, "6 + 9"),
                    BinaryExpr(
                        Expression::literal(num("6"), span_of(test_str, "6")),
                        Operator::Add,
                        Expression::literal(num("9"), span_of(test_str, "9")),
                    )
                ),
                Operator::Multiply,
                Expression::literal(num("42"), span_of(test_str, "42"))
            )
        )
    );
}

fn char_span(input: &str, e: &ParseError) -> Span {
    e.char_span(input)
}

#[test]
fn test_bad_op() {
    let test_str = "1 | 3";
    let error = parse_formula(test_str).err().unwrap();
    assert_eq!(char_span(test_str, &error), span_of(test_str, "|"));

    let test_str = "5 && (1 | 3)";
    let error = parse_formula(test_str).err().unwrap();
    assert_eq!(char_span(test_str, &error), span_of(test_str, "|"));
    assert!(!error.describe().contains("unary expression"), "{}", error.describe());
    assert!(
        !error.describe().contains("binary expression"),
        "{}",
        error.describe()
    );
}

#[test]
fn test_expr1() {
    let test_str = "Amount - SBQQ__PrimaryQuote__r.Non_Commissionable_Revenue__c";
    assert_eq!(
        parse_formula(test_str).unwrap(),
        Expression::binary_expr(
            sp(0..test_str.len()),
            BinaryExpr(
                Expression::field_ref(FieldReference::new("Amount"), span_of(test_str, "Amount")),
                Operator::Subtract,
                Expression::field_ref(
                    FieldReference::new("SBQQ__PrimaryQuote__r")
                        .with_next(FieldReference::new("Non_Commissionable_Revenue__c")),
                    span_of(test_str, "SBQQ__PrimaryQuote__r.Non_Commissionable_Revenue__c")
                )
            )
        )
    );
}

#[test]
fn test_expr2() {
    let test_str = "Short_Leg_Outside_Left_in__c == null";
    assert_eq!(
        parse_formula(test_str).unwrap(),
        Expression::binary_expr(
            sp(0..test_str.len()),
            BinaryExpr(
                Expression::field_ref(
                    FieldReference::new("Short_Leg_Outside_Left_in__c"),
                    span_of(test_str, "Short_Leg_Outside_Left_in__c")
                ),
                Operator::Equal,
                Expression::literal(LiteralValue::Null, span_of(test_str, "null"))
            )
        )
    );
}

#[test]
fn test_not() {
    let test_str = "!True";
    assert_eq!(
        parse_formula(test_str).unwrap(),
        Expression::unary_expr(
            UnaryExpr(
                Operator::Not,
                Expression::literal(LiteralValue::Checkbox(true), span_of(test_str, "True")),
            ),
            sp(0..test_str.len())
        )
    );

    let test_str = "3 + -2";
    assert_eq!(
        parse_formula(test_str).unwrap(),
        Expression::binary_expr(
            sp(0..test_str.len()),
            BinaryExpr(
                Expression::literal(num("3"), span_of(test_str, "3")),
                Operator::Add,
                Expression::unary_expr(
                    UnaryExpr(
                        Operator::Negative,
                        Expression::literal(num("2"), span_of(test_str, "2"))
                    ),
                    span_of(test_str, "-2")
                )
            )
        )
    );
}

#[test]
fn test_err() {
    let parsed = parse_formula("1 ! 3");
    assert!(parsed.is_err());
}

#[test]
fn test_paren_expression() {
    let test_str = "SBQQ__Quote__r.Exterior_Color_All__c != (Exterior_Color__c)";
    assert_eq!(
        parse_formula(test_str).unwrap(),
        Expression::binary_expr(
            sp(0..test_str.len() - 1),
            BinaryExpr(
                Expression::field_ref(
                    FieldReference::new("SBQQ__Quote__r")
                        .with_next(FieldReference::new("Exterior_Color_All__c")),
                    span_of(test_str, "SBQQ__Quote__r.Exterior_Color_All__c")
                ),
                Operator::NotEqual,
                Expression::field_ref(
                    FieldReference::new("Exterior_Color__c"),
                    span_of(test_str, "Exterior_Color__c")
                ),
            )
        )
    );
}

#[test]
fn test_comment_expression() {
    let test_str = "IF(ISNULL(Wall_Thickness_in__c), 'Depth:','Wall Thickness:') & ' __________'
/* --- COMMENTING OUT EXTERIOR ---
    & BR()
    & BR()
    & 'Exterior: W __________ x H __________'
*/
    & BR()";
    parse_formula(test_str).unwrap();
}

fn shape(e: &Expression) -> String {
    match e {
        Expression::BinaryExpr(b, _) => format!("({} {:?} {})", shape(&b.0), b.1, shape(&b.2)),
        Expression::UnaryExpr(u, _) => format!("({:?} {})", u.0, shape(&u.1)),
        Expression::Literal(LiteralValue::Number(n), _) => n.clone(),
        Expression::Literal(l, _) => format!("{l:?}"),
        Expression::FieldRef(f, _) => f.field.clone(),
        Expression::Function(f, _) => format!("{:?}/{}", f.fname, f.args.0.len()),
    }
}

#[test]
fn operators_bind_by_precedence_and_to_the_left() {
    assert_eq!(shape(&parse_formula("1 - 2 - 3").unwrap()), "((1 Subtract 2) Subtract 3)");
    assert_eq!(shape(&parse_formula("2 ^ 3 ^ 2").unwrap()), "((2 Exponentiation 3) Exponentiation 2)");
    assert_eq!(
        shape(&parse_formula("a & b && c").unwrap()),
        "(a Concatenate (b And c))"
    );
    assert_eq!(
        shape(&parse_formula("1 + 2 * 3 ^ 4 = 5").unwrap()),
        "((1 Add (2 Multiply (3 Exponentiation 4))) Equal 5)"
    );
    assert_eq!(shape(&parse_formula("a <> b").unwrap()), "(a NotEqual b)");
    assert_eq!(shape(&parse_formula("a <= b").unwrap()), "(a LessThanOrEqual b)");
    assert_eq!(shape(&parse_formula("!-a").unwrap()), "(Not (Negative a))");
}

#[test]
fn errors_point_at_the_offending_text() {
    let err = parse_formula("").unwrap_err();
    assert_eq!((err.offset, err.describe()), (0, "invalid expression".to_string()));
    let err = parse_formula("1 +").unwrap_err();
    assert_eq!(err.offset, 3);
    let err = parse_formula("(1 + 2").unwrap_err();
    assert_eq!(err.offset, 6);
    assert_eq!(err.describe(), "invalid expr.parenthesized.close\nexpected `)`");
    let err = parse_formula("1 2").unwrap_err();
    assert_eq!((err.offset, err.describe()), (2, String::new()));
    let (_, next) = parse_expression("1 + 2 ) x", 0).unwrap();
    assert_eq!(next, 6);
}

#[test]
fn every_node_covers_its_children() {
    let src = "IF(a > 1, -b, (c & 'x')) + LEN(d.e)";
    let e = parse_formula(src).unwrap();
    fn check(e: &Expression, src: &str) {
        let span = sf_formula::token::span_of(e);
        assert!(span.start < span.end && span.end <= src.len());
        match e {
            Expression::BinaryExpr(b, s) => {
                let (l, r) = (sf_formula::token::span_of(&b.0), sf_formula::token::span_of(&b.2));
                assert_eq!((s.start, s.end), (l.start, r.end));
                check(&b.0, src);
                check(&b.2, src);
            },
            Expression::UnaryExpr(u, s) => {
                assert_eq!(s.end, sf_formula::token::span_of(&u.1).end);
                check(&u.1, src);
            },
            Expression::Function(f, s) => {
                assert_eq!(&src[s.end - 1..s.end], ")");
                for a in &f.args.0 {
                    check(a, src);
                }
            },
            _ => {},
        }
    }
    check(&e, src);
}

fn assert_nested(e: &Expression, lo: usize, hi: usize) {
    let (inner, span): (Vec<(&Expression, usize, usize)>, Span) = match e {
        Expression::Function(f, r) => {
            let args = &f.args;
            assert!(r.start <= args.1.start && args.1.start <= args.1.end && args.1.end <= r.end);
            (args.0.iter().map(|a| (a, args.1.start, args.1.end)).collect(), *r)
        }
        Expression::FieldRef(_, r) | Expression::Literal(_, r) => (Vec::new(), *r),
        Expression::BinaryExpr(b, r) => (vec![(&b.0, r.start, r.end), (&b.2, r.start, r.end)], *r),
        Expression::UnaryExpr(u, r) => (vec![(&u.1, r.start, r.end)], *r),
    };
    assert!(lo <= span.start && span.start <= span.end && span.end <= hi, "{span:?} not in {lo}..{hi}");
    for (child, a, b) in inner {
        assert_nested(child, a, b);
    }
}

#[test]
fn parsed_spans_nest_within_the_input() {
    for input in [
        " 1 + (2 * -x) ",
        "IF( ISNULL(A__c) , /* c */ 'a' & \"b\", !B.C ) ",
        "(((1)))^2 <> 3",
        "AND()",
    ] {
        let e = parse_formula(input).unwrap();
        assert_nested(&e, 0, input.len());
    }
}

fn tree_shape(e: &Expression) -> String {
    match e {
        Expression::Function(f, _) => format!(
            "{:?}({})",
            f.fname,
            f.args.0.iter().map(tree_shape).collect::<Vec<_>>().join(",")
        ),
        Expression::FieldRef(r, _) => format!("{r:?}"),
        Expression::Literal(l, _) => format!("{l:?}"),
        Expression::BinaryExpr(b, _) => format!("({} {:?} {})", tree_shape(&b.0), b.1, tree_shape(&b.2)),
        Expression::UnaryExpr(u, _) => format!("({:?} {})", u.0, tree_shape(&u.1)),
    }
}

#[test]
fn equality_spellings_parse_alike() {
    for (a, b) in [
        ("A == 1", "A = 1"),
        ("A != 1", "A <> 1"),
        ("IF(x == 'a' && y != 2, 1, 2)", "IF(x = 'a' && y <> 2, 1, 2)"),
        ("1 == 2 == 3", "1 = 2 = 3"),
    ] {
        let (ea, eb) = (parse_formula(a).unwrap(), parse_formula(b).unwrap());
        assert_eq!(tree_shape(&ea), tree_shape(&eb));
    }
    // A third `=` is not an operator of its own.
    assert!(parse_formula("1 === 2").is_err());
}
