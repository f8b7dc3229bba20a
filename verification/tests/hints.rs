use sf_formula::diagnostics::{derive_best_suggestion, HintContext};
use sf_formula::parse::error::{Expected, Label};

fn best(input: &str, offset: usize, end_offset: usize, expected: &[Expected], labels: &[Label]) -> Option<&'static str> {
    let ctx = HintContext { input, offset, end_offset, expected, labels };
    derive_best_suggestion(&ctx).map(|s| s.id)
}

#[test]
fn contexts_out_of_range_only_suggest_the_closing_paren() {
    let all_expected = [Expected::CloseParen];
    let all_labels = [Label::Expression, Label::ParenthesizedClose];
    assert_eq!(best("(1", 9, 3, &all_expected, &all_labels), Some("insert-missing-closing-paren"));
    assert_eq!(best("(1", 9, 3, &[], &all_labels), None);
    assert_eq!(best("1 | 2", 40, 41, &all_expected, &[Label::Expression]), None);
    let ctx = HintContext { input: "(1", offset: 5, end_offset: 2, expected: &all_expected, labels: &all_labels };
    let s = derive_best_suggestion(&ctx).unwrap();
    assert_eq!(s.span.map(|sp| (sp.start, sp.end)), Some((5, 2)));
    assert_eq!(s.priority, 90);
}

#[test]
fn highest_priority_rule_wins() {
    // `|` after a comma: the pipe rule (100) and no other apply.
    assert_eq!(best("AND(1,|)", 6, 7, &[Expected::CloseParen], &[Label::Expression]), Some("replace-single-pipe-with-double-pipe"));
    // `)` after a comma: the trailing-comma rule (97).
    assert_eq!(best("AND(1,)", 6, 7, &[Expected::CloseParen], &[Label::Expression]), Some("remove-trailing-comma"));
    // Inside a character: no rule reads a token there.
    assert_eq!(best("é|", 1, 2, &[], &[Label::Expression]), None);
}
