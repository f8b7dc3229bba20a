use sf_formula::parse::field_reference::{parse_field_name, parse_field_reference};
use sf_formula::token::FieldReference;

#[test]
fn test_field_name() {
    let test_str = "amount";
    let (name, end) = parse_field_name(test_str, 0).unwrap();
    assert_eq!(end, test_str.len());
    assert_eq!(name, "amount");

    let test_str = "amount is";
    let (name, end) = parse_field_name(test_str, 0).unwrap();
    assert_eq!((&test_str[end..], name.as_str()), (" is", "amount"));
}

#[test]
fn test_field_ref() {
    let test_str = "Opportunity__r.Amount + 2";
    let ((parsed, _range), next) = parse_field_reference(test_str, 0).unwrap();
    assert_eq!(&test_str[next..], "+ 2");
    assert_eq!(
        parsed,
        FieldReference::new("Opportunity__r").with_next(FieldReference::new("Amount"))
    )
}

#[test]
fn with_next_keeps_an_existing_link() {
    let two = FieldReference::new("A").with_next(FieldReference::new("B"));
    let again = FieldReference::new("A")
        .with_next(FieldReference::new("B"))
        .with_next(FieldReference::new("C"));
    assert_eq!(two, again);
}

#[test]
fn from_iter_chains_at_most_two_names() {
    assert_eq!(FieldReference::from_iter(&[]), None);
    assert_eq!(FieldReference::from_iter(&["A"]), Some(FieldReference::new("A")));
    let expected = FieldReference::new("A").with_next(FieldReference::new("B"));
    assert_eq!(FieldReference::from_iter(&["A", "B"]), Some(expected));
    let expected = FieldReference::new("A").with_next(FieldReference::new("B"));
    assert_eq!(FieldReference::from_iter(&["A", "B", "C"]), Some(expected));
}

#[test]
fn field_names_need_a_leading_letter() {
    assert!(parse_field_name("_x", 0).is_none());
    assert!(parse_field_name("9x", 0).is_none());
    assert_eq!(parse_field_name("x9_y z", 0), Some(("x9_y".to_string(), 4)));
    // a dot not followed by a name is left alone
    let src = "Account. x";
    let ((f, span), next) = parse_field_reference(src, 0).unwrap();
    assert_eq!(f, FieldReference::new("Account"));
    assert_eq!((span.start, span.end, next), (0, 7, 7));
}
