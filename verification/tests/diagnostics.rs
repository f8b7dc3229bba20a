use sf_formula::validate_expression_detailed;

#[test]
fn test_pipe_hint_has_patch_suggestion() {
    let error = validate_expression_detailed("5 && (1 | 3)").err().unwrap();

    assert!(
        error
            .suggestion_ids
            .contains(&"replace-single-pipe-with-double-pipe")
    );
    assert!(
        error.rendered.contains("||") && error.rendered.contains("| 3"),
        "{}",
        error.rendered
    );
}

#[test]
fn test_lone_bang_suggests_not_equal() {
    let error = validate_expression_detailed("1 ! 3").err().unwrap();

    assert!(
        error
            .suggestion_ids
            .contains(&"replace-lone-bang-with-not-equal")
    );
    assert!(error.rendered.contains("!="), "{}", error.rendered);
}

#[test]
fn test_missing_close_paren_suggests_patch() {
    let error = validate_expression_detailed("5 && (1 + 3").err().unwrap();

    assert!(
        error
            .suggestion_ids
            .contains(&"insert-missing-closing-paren")
    );
    assert!(error.rendered.contains(")"), "{}", error.rendered);
}

#[test]
fn test_valid_operators_do_not_show_patch_suggestions() {
    assert!(validate_expression_detailed("1 != 3").is_ok());
    assert!(validate_expression_detailed("True || False").is_ok());
}

#[test]
fn test_trailing_comma_suggests_removal() {
    let error = validate_expression_detailed("AND(1,)").err().unwrap();

    assert!(error.suggestion_ids.contains(&"remove-trailing-comma"));
}

#[test]
fn test_missing_comma_between_multiline_args_suggested() {
    let error = validate_expression_detailed("AND(\n  Amount\n  SBQQ__Uncalculated__c\n)")
        .err()
        .unwrap();

    assert!(
        error
            .suggestion_ids
            .contains(&"insert-missing-comma-between-args")
    );
}

#[test]
fn test_missing_comma_not_suggested_when_comma_exists() {
    assert!(validate_expression_detailed("AND(\n  Amount,\n  SBQQ__Uncalculated__c\n)").is_ok());
}
