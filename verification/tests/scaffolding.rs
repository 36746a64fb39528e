use scaffolder::commands::Scaffold;
use scaffolder::errors::AppError;
use scaffolder::template::{DataStructure, Template};

fn scaffold(problem_id: u64) -> Scaffold {
    Scaffold { problem_id, ds: DataStructure::Default }
}

#[test]
fn replace_mustache_expands_the_placeholder() {
    let out = Template::replace_mustache("fn solve_{{problem_id}}() {}\n".to_string(), 42);
    assert_eq!(out, "fn solve_42() {}\n");
}

#[test]
fn replace_mustache_copies_text_without_placeholder_verbatim() {
    let text = "no placeholders here, just {braces} and {{almost}}\n";
    let out = Template::replace_mustache(text.to_string(), 7);
    assert_eq!(out, text);
}

#[test]
fn replace_mustache_expands_every_occurrence() {
    let out = Template::replace_mustache(
        "{{problem_id}} and {{problem_id}}".to_string(),
        5,
    );
    assert_eq!(out, "5 and 5");
}

#[test]
fn replace_mustache_handles_adjacent_braces() {
    let out = Template::replace_mustache("{{{problem_id}}}".to_string(), 9);
    assert_eq!(out, "{9}");
}

#[test]
fn replace_mustache_keeps_surrounding_text_at_boundaries() {
    let out = Template::replace_mustache("{{problem_id}}".to_string(), 123);
    assert_eq!(out, "123");
}

#[test]
fn scaffold_plan_names_file_contents_and_index_line() {
    let plan = scaffold(42)
        .plan("fn solve_{{problem_id}}() {}\n".to_string(), false)
        .unwrap();
    assert_eq!(plan.solution_path, "src/solutions/s_42.rs");
    assert_eq!(plan.file_contents, "fn solve_42() {}\n");
    assert_eq!(plan.index_line, "mod s_42;\n");
    assert_eq!(Scaffold::success_message(), "Solution scaffolded!");
    assert_eq!(Scaffold::index_path(), "src/solutions.rs");
}

#[test]
fn scaffold_of_existing_solution_fails_and_plans_nothing() {
    let r = scaffold(42).plan("fn solve_{{problem_id}}() {}\n".to_string(), true);
    match r {
        Err(AppError::SolutionExists(path)) => {
            assert_eq!(path, "src/solutions/s_42.rs");
        }
        _ => panic!("expected the solution-exists failure"),
    }
}

#[test]
fn solution_exists_message_mentions_already_solved() {
    let e = scaffold(42)
        .plan(String::new(), true)
        .unwrap_err();
    let msg = e.message();
    assert!(msg.contains("already solved"));
    assert!(msg.contains("src/solutions/s_42.rs"));
}

#[test]
fn template_path_of_the_default_variant() {
    assert_eq!(Template::path(&DataStructure::Default), "templates/default.txt");
}

#[test]
fn template_unreadable_message_mentions_the_path() {
    let e = AppError::TemplateUnreadable("templates/default.txt".to_string());
    assert!(e.message().contains("templates/default.txt"));
}

#[test]
fn file_write_message_mentions_the_path() {
    let e = AppError::FileWrite("src/solutions/s_9.rs".to_string());
    let msg = e.message();
    assert!(msg.contains("Could not write"));
    assert!(msg.contains("src/solutions/s_9.rs"));
}

#[test]
fn every_tag_selects_the_default_variant() {
    assert!(matches!(
        DataStructure::from_tag("default".to_string()),
        DataStructure::Default
    ));
    assert!(matches!(
        DataStructure::from_tag("anything".to_string()),
        DataStructure::Default
    ));
}
