use frontend_analyzer::capabilities::{
    CssClassCondition, CssVarCondition, DependencyCondition, ProviderCondition, ReferencedCondition,
};
use frontend_analyzer::dependency::PackageFile;
use frontend_analyzer::evaluate::{
    effective_condition, evaluate_condition, evaluate_css, extract_nested_condition, make_result,
    EvaluationError, EvaluationResult, ProjectData, SourceFile,
};
use frontend_analyzer::incident::{Incident, Location, Position};
use frontend_analyzer::project_index::{
    ImportDecl, ImportedSymbol, IndexedFile, ProjectIndex, Span,
};

fn file(path: &str, source: &str) -> SourceFile {
    SourceFile { path: path.to_string(), source: source.to_string() }
}

fn found_elsewhere() -> Incident {
    let start = Position { line: 0, character: 0 };
    let end = Position { line: 0, character: 1 };
    Incident::new("file:///p/a.css".to_string(), 1, Location { start, end })
}

fn data(files: Vec<SourceFile>) -> ProjectData {
    ProjectData {
        root: "/p".to_string(),
        files,
        stylesheets: Vec::new(),
        packages: Vec::new(),
        dependents: Vec::new(),
        index: ProjectIndex { packages: Vec::new() },
    }
}

fn css_class(pattern: &str) -> ProviderCondition {
    ProviderCondition::CssClass(CssClassCondition {
        pattern: pattern.to_string(),
        file_pattern: None,
    })
}

fn dependency(name: Option<&str>, nameregex: Option<&str>) -> ProviderCondition {
    ProviderCondition::Dependency(DependencyCondition {
        name: name.map(str::to_string),
        nameregex: nameregex.map(str::to_string),
        upperbound: None,
        lowerbound: None,
    })
}

fn uris(r: &EvaluationResult) -> Vec<&str> {
    r.incidents.iter().map(|i| i.file_uri.as_str()).collect()
}

const WRAPPED: &str = "tags: {}\nruleID: r\nreferenced:\n  pattern: ^Button$\n  location: IMPORT\n";

#[test]
fn condition_inside_a_wrapper() {
    assert_eq!(
        extract_nested_condition("referenced", WRAPPED),
        Some("pattern: ^Button$\nlocation: IMPORT\n".to_string())
    );
    assert_eq!(extract_nested_condition("cssvar", WRAPPED), None);
    assert_eq!(extract_nested_condition("referenced", "- a\n- b\n"), None);
    assert_eq!(extract_nested_condition("referenced", "a: [b"), None);
}

#[test]
fn condition_by_itself_stays() {
    assert_eq!(effective_condition("referenced", "pattern: x"), "pattern: x");
    assert_eq!(
        effective_condition("referenced", WRAPPED),
        "pattern: ^Button$\nlocation: IMPORT\n"
    );
}

#[test]
fn result_matches_if_anything_was_found() {
    assert!(!make_result(Vec::new(), Vec::new()).matched);
    assert!(make_result(vec![found_elsewhere()], Vec::new()).matched);
}

#[test]
fn classes_in_stylesheets_and_sources() {
    let files = vec![
        file("/p/a.tsx", "const a = <div className=\"pf-v5-c-button\" />;"),
        file("/p/b.tsx", "const b = <div className=\"other\" />;"),
    ];
    let r = evaluate_css(false, "^pf-v5-", vec![found_elsewhere()], &files, "/p").unwrap();
    assert_eq!(uris(&r), vec!["file:///p/a.css", "file:///p/a.tsx"]);
    assert!(r.matched);
    assert!(r.parse_errors.is_empty());
}

#[test]
fn reported_texts_match() {
    let files = vec![file(
        "/p/a.tsx",
        "const a = <div className=\"x pf-v5-a\" />;\nconst b = `pf-v5-b`;\nconst c = 'other';",
    )];
    let r = evaluate_css(false, "pf-v5-", Vec::new(), &files, "/p").unwrap();
    let texts: Vec<&str> = r
        .incidents
        .iter()
        .map(|i| i.variables.get("matchingText").and_then(|v| v.as_str()).unwrap())
        .collect();
    assert_eq!(texts, vec!["x pf-v5-a", "pf-v5-b"]);
}

#[test]
fn unreadable_file_is_reported_once() {
    let files = vec![
        file("/p/a.tsx", "const = <"),
        file("/p/./a.tsx", "const = <"),
        file("/p/b.tsx", "const = <"),
    ];
    let r = evaluate_css(true, "--pf", Vec::new(), &files, "/p").unwrap();
    let paths: Vec<&str> = r.parse_errors.iter().map(|e| e.file_path.as_str()).collect();
    assert_eq!(paths, vec!["/p/a.tsx", "/p/b.tsx"]);
    assert!(!r.matched);
}

#[test]
fn condition_on_classes() {
    let files = || vec![file("/p/a.tsx", "const a = <div className=\"pf-v5-c-button\" />;")];
    let r = evaluate_condition(&css_class("pf-v5"), data(files())).unwrap();
    assert_eq!(uris(&r), vec!["file:///p/a.tsx"]);
    let bad = evaluate_condition(&css_class("("), data(files()));
    assert!(matches!(bad, Err(EvaluationError::Pattern(_))));
}

#[test]
fn condition_on_variables() {
    let condition = ProviderCondition::CssVar(CssVarCondition {
        pattern: "--pf-v5-".to_string(),
        file_pattern: None,
    });
    let r = evaluate_condition(
        &condition,
        data(vec![file("/p/a.tsx", "const a = 'var(--pf-v5-global)';")]),
    )
    .unwrap();
    assert_eq!(uris(&r), vec!["file:///p/a.tsx"]);
    let bad = ProviderCondition::CssVar(CssVarCondition {
        pattern: "(".to_string(),
        file_pattern: None,
    });
    assert!(matches!(evaluate_condition(&bad, data(Vec::new())), Err(EvaluationError::Pattern(_))));
}

#[test]
fn condition_on_dependencies() {
    let with = |content: &str| {
        let mut d = data(Vec::new());
        d.packages.push(PackageFile {
            path: "/p/package.json".to_string(),
            content: content.to_string(),
        });
        d
    };
    let package = "{\n  \"dependencies\": {\n    \"react\": \"^17.0.0\"\n  }\n}";
    let r = evaluate_condition(&dependency(Some("react"), None), with(package)).unwrap();
    assert_eq!(uris(&r), vec!["file:///p/package.json"]);
    assert_eq!(r.incidents[0].line_number, Some(3));
    let r = evaluate_condition(&dependency(Some("vue"), None), with(package)).unwrap();
    assert!(!r.matched);
    let bad = evaluate_condition(&dependency(None, Some("(")), with(package));
    assert!(matches!(bad, Err(EvaluationError::Pattern(_))));
    let bad = evaluate_condition(&dependency(Some("react"), None), with("{"));
    assert!(matches!(bad, Err(EvaluationError::Json(m)) if m.contains(" at line 1 column ")));
}

#[test]
fn condition_on_references() {
    let condition = |pattern: &str| {
        ProviderCondition::Referenced(ReferencedCondition {
            pattern: pattern.to_string(),
            location: None,
            component: None,
            parent: None,
            not_parent: None,
            parent_from: None,
            child: None,
            not_child: None,
            requires_child: None,
            value: None,
            from: None,
            file_pattern: None,
        })
    };
    let with_index = || {
        let span = Span { start: 9, end: 15 };
        let mut d = data(Vec::new());
        d.index.packages.push((
            "app".to_string(),
            vec![IndexedFile {
                path: "/p/a.tsx".to_string(),
                source_text: "import { Button } from 'pf';".to_string(),
                imports: vec![ImportDecl {
                    source: "pf".to_string(),
                    raw_specifier: None,
                    symbols: vec![ImportedSymbol { name: "Button".to_string(), alias: None, span }],
                    is_reexport: false,
                }],
                symbol_defs: Vec::new(),
                symbol_refs: Vec::new(),
            }],
        ));
        d
    };
    let r = evaluate_condition(&condition("^Button$"), with_index()).unwrap();
    assert_eq!(uris(&r), vec!["file:///p/a.tsx"]);
    let text = |name: &str| r.incidents[0].variables.get(name).and_then(|v| v.as_str());
    assert_eq!(text("module"), Some("pf"));
    let bad = evaluate_condition(&condition("("), with_index());
    assert!(matches!(bad, Err(EvaluationError::Pattern(_))));
}
