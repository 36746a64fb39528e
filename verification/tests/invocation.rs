use scaffolder::commands::{select_command, Command};
use scaffolder::context::AppContext;
use scaffolder::decimal::{parse_u64_decimal, u64_to_decimal};
use scaffolder::errors::AppError;
use scaffolder::template::DataStructure;

fn args(words: &[&str]) -> Vec<String> {
    words.iter().map(|w| w.to_string()).collect()
}

fn context(words: &[&str]) -> AppContext {
    AppContext::new(args(words)).unwrap()
}

#[test]
fn scaffold_invocation_parses_id_and_tag() {
    let cmd = select_command(context(&["tool", "scaffold", "42", "default"])).unwrap();
    match cmd {
        Command::Scaffold(s) => {
            assert_eq!(s.problem_id, 42);
            assert!(matches!(s.ds, DataStructure::Default));
        }
        _ => panic!("expected the scaffold command"),
    }
}

#[test]
fn problem_invocation_parses_the_id() {
    let cmd = select_command(context(&["tool", "problem", "7"])).unwrap();
    match cmd {
        Command::RunProblem(p) => assert_eq!(p.problem_id, 7),
        _ => panic!("expected the run-problem command"),
    }
}

#[test]
fn latest_invocation_and_its_alias() {
    assert!(matches!(
        select_command(context(&["tool", "latest"])),
        Ok(Command::Latest)
    ));
    assert!(matches!(
        select_command(context(&["tool", "l"])),
        Ok(Command::Latest)
    ));
}

#[test]
fn unknown_command_is_rejected_by_name() {
    let e = select_command(context(&["tool", "bogus"])).unwrap_err();
    match &e {
        AppError::UnrecognizedCommand(c) => assert_eq!(c, "bogus"),
        _ => panic!("expected the unrecognized-command failure"),
    }
    assert!(e.message().contains("bogus"));
}

#[test]
fn missing_command_is_rejected() {
    let e = AppContext::new(args(&["tool"])).unwrap_err();
    assert!(matches!(e, AppError::MissingCommand));
    assert!(e.message().contains("command"));
}

#[test]
fn missing_problem_id_is_rejected_by_argument_name() {
    let e = select_command(context(&["tool", "problem"])).unwrap_err();
    match &e {
        AppError::MissingArgument(n) => assert_eq!(n, "problem id"),
        _ => panic!("expected the missing-argument failure"),
    }
    assert!(e.message().contains("problem id"));
}

#[test]
fn missing_data_structure_is_rejected_by_argument_name() {
    let e = select_command(context(&["tool", "scaffold", "42"])).unwrap_err();
    match &e {
        AppError::MissingArgument(n) => assert_eq!(n, "data structure"),
        _ => panic!("expected the missing-argument failure"),
    }
}

#[test]
fn non_numeric_problem_id_is_rejected() {
    let e = select_command(context(&["tool", "problem", "notanumber"])).unwrap_err();
    assert!(matches!(e, AppError::InvalidProblemId));
    assert!(e.message().contains("valid non-negative integer"));
}

#[test]
fn non_numeric_scaffold_id_is_rejected() {
    let e = select_command(context(&["tool", "scaffold", "x", "default"])).unwrap_err();
    assert!(matches!(e, AppError::InvalidProblemId));
}

#[test]
fn next_arg_walks_the_arguments_in_order() {
    let mut c = context(&["tool", "scaffold", "42", "default"]);
    assert_eq!(c.next_arg("problem id").unwrap(), "42");
    assert_eq!(c.next_arg("data structure").unwrap(), "default");
    assert!(matches!(
        c.next_arg("extra"),
        Err(AppError::MissingArgument(_))
    ));
}

#[test]
fn decimal_rendering_has_no_padding() {
    assert_eq!(u64_to_decimal(0), "0");
    assert_eq!(u64_to_decimal(42), "42");
    assert_eq!(u64_to_decimal(1000), "1000");
    assert_eq!(u64_to_decimal(u64::MAX), "18446744073709551615");
}

#[test]
fn decimal_parse_accepts_digit_strings_in_range() {
    assert_eq!(parse_u64_decimal("0"), Some(0));
    assert_eq!(parse_u64_decimal("42"), Some(42));
    assert_eq!(parse_u64_decimal("007"), Some(7));
    assert_eq!(parse_u64_decimal("18446744073709551615"), Some(u64::MAX));
}

#[test]
fn decimal_parse_rejects_everything_else() {
    assert_eq!(parse_u64_decimal(""), None);
    assert_eq!(parse_u64_decimal("-1"), None);
    assert_eq!(parse_u64_decimal("+1"), None);
    assert_eq!(parse_u64_decimal("4 2"), None);
    assert_eq!(parse_u64_decimal("notanumber"), None);
    assert_eq!(parse_u64_decimal("18446744073709551616"), None);
    assert_eq!(parse_u64_decimal("99999999999999999999999"), None);
}
