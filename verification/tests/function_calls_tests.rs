use frontend_analyzer::function_calls::scan_function_calls;
use frontend_analyzer::incident::Incident;
use frontend_analyzer::json::Json;
use frontend_analyzer::scanner::{parse_program, SourceKind};
use regex::Regex;

fn scan_source(source: &str, pattern: &str) -> Vec<Incident> {
    let program = parse_program(source, SourceKind::Tsx).unwrap();
    let re = Regex::new(pattern).unwrap();
    program
        .get("body")
        .and_then(|body| body.as_list())
        .unwrap()
        .iter()
        .flat_map(|stmt| scan_function_calls(stmt, source, &re, "file:///test.tsx"))
        .collect()
}

#[test]
fn test_simple_function_call() {
    let incidents = scan_source("useToolbar();", r"^useToolbar$");
    assert_eq!(incidents.len(), 1);
    assert_eq!(
        incidents[0].variables.get("functionName"),
        Some(&Json::Text("useToolbar".to_string()))
    );
}

#[test]
fn test_member_expression_call() {
    let incidents = scan_source("React.createElement('div');", r"^React\.createElement$");
    assert_eq!(incidents.len(), 1);
    assert_eq!(
        incidents[0].variables.get("functionName"),
        Some(&Json::Text(
            "React.createElement".to_string()
        ))
    );
}

#[test]
fn test_function_call_no_match() {
    let incidents = scan_source("useState(0);", r"^useToolbar$");
    assert!(incidents.is_empty());
}

#[test]
fn test_function_call_in_variable_declaration() {
    let incidents = scan_source("const toolbar = useToolbar();", r"^useToolbar$");
    assert_eq!(incidents.len(), 1);
}

#[test]
fn test_function_call_in_function_body() {
    let incidents = scan_source(
        "function App() { const x = useToolbar(); return x; }",
        r"^useToolbar$",
    );
    assert_eq!(incidents.len(), 1);
}

#[test]
fn test_nested_function_call_in_arguments() {
    let incidents = scan_source("console.log(useToolbar());", r"^useToolbar$");
    assert_eq!(incidents.len(), 1);
}
