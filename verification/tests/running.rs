use scaffolder::commands::RunProblem;
use scaffolder::errors::AppError;
use scaffolder::latest::latest_problem_id;

#[test]
fn test_filter_is_derived_from_the_id() {
    let p = RunProblem { problem_id: 42 };
    assert_eq!(p.test_filter(), "test_42");
}

#[test]
fn command_line_asks_the_build_tool_for_the_filter() {
    let p = RunProblem { problem_id: 42 };
    let (program, args) = p.command_line();
    assert_eq!(program, "cargo");
    assert_eq!(args, vec!["test".to_string(), "test_42".to_string()]);
}

#[test]
fn exit_code_is_zero_on_child_success() {
    assert_eq!(RunProblem::exit_code(Some(0)), 0);
}

#[test]
fn exit_code_equals_the_child_code_on_failure() {
    assert_eq!(RunProblem::exit_code(Some(1)), 1);
    assert_eq!(RunProblem::exit_code(Some(101)), 101);
}

#[test]
fn exit_code_is_one_when_the_child_left_no_code() {
    assert_eq!(RunProblem::exit_code(None), 1);
}

#[test]
fn latest_selects_the_last_line_of_the_index() {
    assert_eq!(latest_problem_id("mod s_7;\nmod s_42;\n").unwrap(), 42);
}

#[test]
fn latest_skips_trailing_empty_lines() {
    assert_eq!(latest_problem_id("mod s_7;\nmod s_42;\n\n\n").unwrap(), 42);
}

#[test]
fn latest_reads_a_line_without_a_trailing_newline() {
    assert_eq!(latest_problem_id("mod s_7;\nmod s_42;").unwrap(), 42);
}

#[test]
fn latest_of_an_empty_index_fails() {
    assert!(matches!(
        latest_problem_id(""),
        Err(AppError::IndexUnparsable)
    ));
    assert!(matches!(
        latest_problem_id("\n\n"),
        Err(AppError::IndexUnparsable)
    ));
}

#[test]
fn latest_of_a_line_without_underscore_fails() {
    assert!(matches!(
        latest_problem_id("mod s42;\n"),
        Err(AppError::IndexUnparsable)
    ));
}

#[test]
fn latest_of_a_line_without_semicolon_fails() {
    assert!(matches!(
        latest_problem_id("mod s_42\n"),
        Err(AppError::IndexUnparsable)
    ));
}

#[test]
fn latest_of_a_line_with_no_digits_fails() {
    assert!(matches!(
        latest_problem_id("mod s_;\n"),
        Err(AppError::IndexUnparsable)
    ));
}

#[test]
fn latest_takes_the_span_from_the_first_underscore() {
    // Between the first underscore and the trailing semicolon sits
    // another underscore, so the span is not a plain number.
    assert!(matches!(
        latest_problem_id("mod s_4_2;\n"),
        Err(AppError::IndexUnparsable)
    ));
}

#[test]
fn index_unparsable_message_names_the_index() {
    let e = latest_problem_id("").unwrap_err();
    assert!(e.message().contains("index"));
}
