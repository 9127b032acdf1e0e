use frontend_analyzer::apply::dedup_import_specifiers;
use frontend_analyzer::engine::{infer_strategy_from_labels, uri_to_path};
use frontend_analyzer::fix::FixStrategy;
use frontend_analyzer::fixers::{bracket_depth, get_matched_text};
use frontend_analyzer::incident::{Incident, Variables};
use frontend_analyzer::json::Json;

/// Create a test Incident with just the fields the fix engine cares about.
fn make_test_incident(uri: &str, line: u32, variables: Variables) -> Incident {
    Incident {
        file_uri: uri.to_string(),
        line_number: Some(line),
        code_location: None,
        message: String::new(),
        code_snip: None,
        variables,
        effort: None,
        links: Vec::new(),
        is_dependency_incident: false,
    }
}

// ── bracket_depth tests ──────────────────────────────────────────────

#[test]
fn test_bracket_depth_balanced() {
    assert_eq!(bracket_depth("{ foo: bar }"), 0);
    assert_eq!(bracket_depth("foo()"), 0);
    assert_eq!(bracket_depth("[1, 2, 3]"), 0);
    assert_eq!(bracket_depth("{ foo: [1, 2] }"), 0);
}

#[test]
fn test_bracket_depth_open() {
    assert_eq!(bracket_depth("actions={["), 2); // { and [
    assert_eq!(bracket_depth("  <Button"), 0);
    assert_eq!(bracket_depth("foo(bar, {"), 2); // ( and {
}

#[test]
fn test_bracket_depth_close() {
    assert_eq!(bracket_depth("]}"), -2);
    assert_eq!(bracket_depth(")"), -1);
}

#[test]
fn test_bracket_depth_nested() {
    assert_eq!(bracket_depth("{ a: { b: [1] } }"), 0);
    assert_eq!(bracket_depth("f(g(h(x)))"), 0);
}

#[test]
fn test_bracket_depth_ignores_string_literals() {
    assert_eq!(bracket_depth(r#"  foo="{not a bracket}""#), 0);
    assert_eq!(bracket_depth("  foo='[still not]'"), 0);
    assert_eq!(bracket_depth("  foo=`${`nested`}`"), 0);
}

#[test]
fn test_bracket_depth_empty() {
    assert_eq!(bracket_depth(""), 0);
    assert_eq!(bracket_depth("   just text   "), 0);
}

#[test]
fn test_bracket_depth_escaped_quotes() {
    // Escaped quote should not toggle string mode
    assert_eq!(bracket_depth(r#"  "escaped \" quote" "#), 0);
}

// ── dedup_import_specifiers tests ────────────────────────────────────

#[test]
fn test_dedup_import_no_duplicates() {
    let mut lines = vec!["import { Foo, Bar } from '@pkg';".to_string()];
    dedup_import_specifiers(&mut lines);
    assert!(lines[0].contains("Foo"));
    assert!(lines[0].contains("Bar"));
}

#[test]
fn test_dedup_import_removes_duplicates() {
    let mut lines =
        vec!["import { Content, Content, Content } from '@patternfly/react-core';".to_string()];
    dedup_import_specifiers(&mut lines);
    // Should contain exactly one "Content"
    let count = lines[0].matches("Content").count();
    assert_eq!(
        count, 1,
        "Expected 1 occurrence of Content, got {}: {}",
        count, lines[0]
    );
}

#[test]
fn test_dedup_import_preserves_different_specifiers() {
    let mut lines = vec!["import { Foo, Bar, Foo, Baz, Bar } from '@pkg';".to_string()];
    dedup_import_specifiers(&mut lines);
    assert_eq!(lines[0].matches("Foo").count(), 1);
    assert_eq!(lines[0].matches("Bar").count(), 1);
    assert_eq!(lines[0].matches("Baz").count(), 1);
}

#[test]
fn test_dedup_import_preserves_aliases() {
    let mut lines = vec!["import { Foo as F, Foo as F } from '@pkg';".to_string()];
    dedup_import_specifiers(&mut lines);
    assert_eq!(lines[0].matches("Foo as F").count(), 1);
}

#[test]
fn test_dedup_import_non_import_lines_unchanged() {
    let original = "const x = { Foo, Foo };".to_string();
    let mut lines = vec![original.clone()];
    dedup_import_specifiers(&mut lines);
    assert_eq!(lines[0], original);
}

// ── get_matched_text tests ───────────────────────────────────────────

#[test]
fn test_get_matched_text_prop_name_first() {
    let mut vars = Variables::new();
    vars.insert(
        "propName".to_string(),
        Json::Text("isActive".to_string()),
    );
    vars.insert(
        "componentName".to_string(),
        Json::Text("Button".to_string()),
    );
    let incident = make_test_incident("file:///test.tsx", 1, vars);
    assert_eq!(get_matched_text(&incident), "isActive");
}

#[test]
fn test_get_matched_text_component_name() {
    let mut vars = Variables::new();
    vars.insert(
        "componentName".to_string(),
        Json::Text("Button".to_string()),
    );
    let incident = make_test_incident("", 1, vars);
    assert_eq!(get_matched_text(&incident), "Button");
}

#[test]
fn test_get_matched_text_imported_name() {
    let mut vars = Variables::new();
    vars.insert(
        "importedName".to_string(),
        Json::Text("Chip".to_string()),
    );
    let incident = make_test_incident("", 1, vars);
    assert_eq!(get_matched_text(&incident), "Chip");
}

#[test]
fn test_get_matched_text_empty_when_no_known_vars() {
    let incident = make_test_incident("", 1, Variables::new());
    assert_eq!(get_matched_text(&incident), "");
}

#[test]
fn test_get_matched_text_ignores_non_string_values() {
    let mut vars = Variables::new();
    vars.insert("propName".to_string(), Json::Bool(true));
    vars.insert(
        "componentName".to_string(),
        Json::Text("Fallback".to_string()),
    );
    let incident = make_test_incident("", 1, vars);
    assert_eq!(get_matched_text(&incident), "Fallback");
}

// ── uri_to_path tests ────────────────────────────────────────────────

#[test]
fn test_uri_to_path_absolute() {
    let path = uri_to_path(
        "file:///home/user/project/src/App.tsx",
        "/ignored",
    );
    assert_eq!(path, "/home/user/project/src/App.tsx");
}

#[test]
fn test_uri_to_path_relative() {
    let path = uri_to_path("src/App.tsx", "/home/user/project");
    assert_eq!(path, "/home/user/project/src/App.tsx");
}

#[test]
fn test_uri_to_path_no_file_prefix() {
    let path = uri_to_path("/absolute/path.tsx", "/root");
    assert_eq!(path, "/absolute/path.tsx");
}

// ── infer_strategy_from_labels tests ─────────────────────────────────

#[test]
fn test_infer_prop_removal() {
    let labels = vec!["change-type=prop-removal".to_string()];
    let strategy = infer_strategy_from_labels(&labels);
    assert!(matches!(strategy, Some(FixStrategy::RemoveProp)));
}

#[test]
fn test_infer_dom_structure_manual() {
    let labels = vec!["change-type=dom-structure".to_string()];
    let strategy = infer_strategy_from_labels(&labels);
    assert!(matches!(strategy, Some(FixStrategy::Manual)));
}

#[test]
fn test_infer_behavioral_manual() {
    let labels = vec!["change-type=behavioral".to_string()];
    let strategy = infer_strategy_from_labels(&labels);
    assert!(matches!(strategy, Some(FixStrategy::Manual)));
}

#[test]
fn test_infer_accessibility_manual() {
    let labels = vec!["change-type=accessibility".to_string()];
    let strategy = infer_strategy_from_labels(&labels);
    assert!(matches!(strategy, Some(FixStrategy::Manual)));
}

#[test]
fn test_infer_interface_removal_manual() {
    let labels = vec!["change-type=interface-removal".to_string()];
    let strategy = infer_strategy_from_labels(&labels);
    assert!(matches!(strategy, Some(FixStrategy::Manual)));
}

#[test]
fn test_infer_module_export_manual() {
    let labels = vec!["change-type=module-export".to_string()];
    let strategy = infer_strategy_from_labels(&labels);
    assert!(matches!(strategy, Some(FixStrategy::Manual)));
}

#[test]
fn test_infer_other_manual() {
    let labels = vec!["change-type=other".to_string()];
    let strategy = infer_strategy_from_labels(&labels);
    assert!(matches!(strategy, Some(FixStrategy::Manual)));
}

#[test]
fn test_infer_unknown_label_returns_none() {
    let labels = vec!["change-type=rename".to_string()];
    let strategy = infer_strategy_from_labels(&labels);
    assert!(strategy.is_none());
}

#[test]
fn test_infer_empty_labels_returns_none() {
    let labels: Vec<String> = Vec::new();
    let strategy = infer_strategy_from_labels(&labels);
    assert!(strategy.is_none());
}

#[test]
fn test_infer_first_matching_label_wins() {
    let labels = vec![
        "framework=patternfly".to_string(),
        "change-type=prop-removal".to_string(),
        "change-type=dom-structure".to_string(), // would also match, but prop-removal comes first
    ];
    let strategy = infer_strategy_from_labels(&labels);
    assert!(matches!(strategy, Some(FixStrategy::RemoveProp)));
}
