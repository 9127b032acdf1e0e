use frontend_analyzer::incident::Incident;
use frontend_analyzer::printed_tree::mend;
use frontend_analyzer::scanner::{
    line_number_from_offset, make_incident, parse_program, path_to_uri, source_type_for_file, SourceKind,
};

#[test]
fn test_line_number_offset_zero() {
    assert_eq!(line_number_from_offset("hello\nworld", 0), 1);
}

#[test]
fn test_line_number_first_line() {
    assert_eq!(line_number_from_offset("hello\nworld", 3), 1);
}

#[test]
fn test_line_number_at_newline() {
    assert_eq!(line_number_from_offset("hello\nworld", 5), 1);
}

#[test]
fn test_line_number_second_line() {
    assert_eq!(line_number_from_offset("hello\nworld", 6), 2);
}

#[test]
fn test_line_number_third_line() {
    assert_eq!(line_number_from_offset("a\nb\nc\nd", 4), 3);
}

#[test]
fn test_line_number_single_line() {
    assert_eq!(line_number_from_offset("no newlines", 5), 1);
}

#[test]
fn test_line_number_offset_beyond_source() {
    assert_eq!(line_number_from_offset("a\nb", 999), 2);
}

#[test]
fn test_line_number_empty_source() {
    assert_eq!(line_number_from_offset("", 0), 1);
}

#[test]
fn test_path_to_uri_absolute() {
    let uri = path_to_uri("/home/user/src/App.tsx", "/root");
    assert_eq!(uri, "file:///home/user/src/App.tsx");
}

#[test]
fn test_path_to_uri_relative() {
    let uri = path_to_uri("src/App.tsx", "/home/user/project");
    assert_eq!(uri, "file:///home/user/project/src/App.tsx");
}

#[test]
fn test_make_incident_basic() {
    let source = "import { Button } from '@patternfly/react-core';";
    let incident: Incident = make_incident(source, "file:///test.tsx", 0, 48);
    assert_eq!(incident.file_uri, "file:///test.tsx");
    assert_eq!(incident.line_number, Some(1));
    let loc = incident.code_location.unwrap();
    assert_eq!(loc.start.line, 0);
    assert_eq!(loc.start.character, 0);
}

#[test]
fn test_make_incident_second_line() {
    let source = "line one\nimport { X } from 'y';";
    let incident = make_incident(source, "file:///test.tsx", 9, 30);
    assert_eq!(incident.line_number, Some(2));
    let loc = incident.code_location.unwrap();
    assert_eq!(loc.start.line, 1);
    assert_eq!(loc.start.character, 0);
}

#[test]
fn test_make_incident_column_calculation() {
    let source = "  const x = 1;";
    let incident = make_incident(source, "file:///test.tsx", 8, 9);
    assert_eq!(incident.line_number, Some(1));
    let loc = incident.code_location.unwrap();
    assert_eq!(loc.start.character, 8);
    assert_eq!(loc.end.character, 9);
}

#[test]
fn test_source_type_tsx() {
    let st = source_type_for_file("app.tsx", "");
    assert!(st.is_typescript());
    assert!(st.is_jsx());
}

#[test]
fn test_source_type_ts() {
    let st = source_type_for_file("app.ts", "");
    assert!(st.is_typescript());
}

#[test]
fn test_source_type_jsx() {
    let st = source_type_for_file("app.jsx", "");
    assert!(st.is_jsx());
}

#[test]
fn test_source_type_js_with_import() {
    let st = source_type_for_file("app.js", "import { foo } from 'bar';");
    assert!(st.is_jsx());
}

#[test]
fn test_source_type_js_with_require() {
    let st = source_type_for_file("app.js", "const foo = require('bar');");
    assert!(st.is_jsx());
}

#[test]
fn test_source_type_cjs() {
    let st = source_type_for_file("app.cjs", "");
    assert!(st.is_jsx());
}

#[test]
fn test_source_type_mjs() {
    let st = source_type_for_file("app.mjs", "");
    assert!(st.is_jsx());
}

#[test]
fn source_types_are_told_apart() {
    assert_eq!(source_type_for_file("a/b.js", "const foo = require('bar');"), SourceKind::Cjs);
    assert_eq!(source_type_for_file("a/b.js", "import { foo } from 'bar'; require('x')"), SourceKind::Mjs);
    assert_eq!(source_type_for_file("a/b.mts", ""), SourceKind::Tsx);
    assert_eq!(source_type_for_file("a/.tsx", ""), SourceKind::Mjs);
    assert_eq!(source_type_for_file("a/b", ""), SourceKind::Mjs);
}

#[test]
fn a_program_is_parsed_into_its_tree() {
    let program = parse_program("const a = 1;", SourceKind::Tsx).unwrap();
    let body = program.get("body").unwrap().as_list().unwrap();
    assert_eq!(body.len(), 1);
    assert_eq!(body[0].get("type").unwrap().as_str(), Some("VariableDeclaration"));
    let deep = format!("const a = {}1{};", "[".repeat(200), "]".repeat(200));
    assert!(parse_program(&deep, SourceKind::Tsx).is_ok());
}

#[test]
fn a_program_that_cannot_be_parsed_gives_a_message() {
    assert!(matches!(parse_program("const = = ;", SourceKind::Tsx), Err(Some(_))));
}

#[test]
fn every_dialect_has_jsx() {
    for path in ["a.ts", "a.mts", "a.tsx", "a.jsx", "a.js", "a.cjs", "a.mjs", "a"] {
        let dialect = source_type_for_file(path, "");
        assert!(dialect.is_jsx(), "{path}");
        assert!(parse_program("const a = <div>b</div>;", dialect).is_ok(), "{path}");
    }
    let ts = source_type_for_file("app.ts", "");
    assert!(ts.is_typescript());
    assert!(parse_program("const a: JSX.Element = <div />;", ts).is_ok());
    assert!(!source_type_for_file("app.js", "").is_typescript());
}

#[test]
fn lone_surrogates_do_not_hide_a_file() {
    let program = parse_program("const a = '\\ud800x';\nconst b = 'y';", SourceKind::Tsx).unwrap();
    let body = program.get("body").unwrap().as_list().unwrap();
    assert_eq!(body.len(), 2);
    let declarations = body[0].get("declarations").unwrap().as_list().unwrap();
    let init = declarations[0].get("init").unwrap();
    assert_eq!(init.get("value").unwrap().as_str(), Some("\u{fffd}d800x"));
    assert_eq!(init.get("raw").unwrap().as_str(), Some("'\\ud800x'"));
}

#[test]
fn infinite_numbers_do_not_hide_a_file() {
    let program = parse_program("const a = 1e999;\nconst b = 'y';", SourceKind::Tsx).unwrap();
    assert_eq!(program.get("body").unwrap().as_list().unwrap().len(), 2);
}

#[test]
fn printed_trees_are_mended() {
    assert_eq!(mend("{\"a\":1e+400,\"b\":-1e+400}"), "{\"a\":1e308,\"b\":-1e308}");
    assert_eq!(mend("[\"1e+400\",\"\\ud83dx\\uDE00\"]"), "[\"1e+400\",\"\\ufffdd83dx\\ufffdDE00\"]");
    // An escaped backslash escapes nothing, and other escapes stay.
    let plain = "[\"\\\\ud800\",\"\\\"1e+400\",\"\\u001f\",12e+40]";
    assert_eq!(mend(plain), plain);
    assert_eq!(mend("\"\\"), "\"\\");
}
