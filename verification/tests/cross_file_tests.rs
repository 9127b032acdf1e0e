use frontend_analyzer::capabilities::ReferenceLocation;
use frontend_analyzer::exports::{
    parse_module, reexport_sources, resolve_cross_file_export, Module, MAX_REEXPORT_DEPTH,
};
use frontend_analyzer::imports::build_import_map;
use frontend_analyzer::incident::Incident;
use frontend_analyzer::index_lookup::{get_stem, FileIndex};
use frontend_analyzer::json::Json;
use frontend_analyzer::jsx::{scan_jsx, scan_jsx_file_with_resolver};
use frontend_analyzer::project_index::{
    ImportDecl, ImportedSymbol, IndexedFile, ProjectIndex, Span, SymbolDef, Transparency,
};
use frontend_analyzer::scanner::{parse_program, SourceKind};
use frontend_analyzer::scope::Neighbours;
use regex::Regex;

const NOWHERE: Span = Span { start: 0, end: 0 };

fn module(path: &str, source: &str, links: &[(&str, usize)]) -> Module {
    Module { program: parse_module(source, path), links: named(links) }
}

fn named(links: &[(&str, usize)]) -> Vec<(String, usize)> {
    links.iter().map(|(n, k)| (n.to_string(), *k)).collect()
}

fn scan(
    source: &str,
    pattern: &str,
    location: Option<ReferenceLocation>,
    transparent: &[(&str, Option<&str>)],
    neighbours: &Neighbours,
) -> Vec<Incident> {
    let program = parse_program(source, SourceKind::Tsx).unwrap();
    let import_map = build_import_map(&program);
    let stmts: Vec<&Json> =
        program.get("body").and_then(|body| body.as_list()).unwrap().iter().collect();
    scan_jsx_file_with_resolver(
        &stmts,
        source,
        &Regex::new(pattern).unwrap(),
        "file:///p/App.tsx",
        location,
        &import_map,
        &None,
        &None,
        &None,
        &transparent.iter().map(|(n, w)| (n.to_string(), w.map(str::to_string))).collect(),
        neighbours,
    )
}

fn text<'a>(i: &'a Incident, name: &str) -> Option<&'a str> {
    i.variables.get(name).and_then(|v| v.as_str())
}

const SPREAD: &str = "
import { Modal } from '@patternfly/react-core';
import { modalProps } from './utils';
const el = <Modal {...modalProps}>ok</Modal>;
";

#[test]
fn spread_of_an_imported_object() {
    let mut near = Neighbours::none();
    near.modules.push(module("/p/utils.ts", "export const modalProps = { actions: [] };", &[]));
    near.links = named(&[("./utils", 0)]);
    let found = scan(SPREAD, "^actions$", Some(ReferenceLocation::JsxProp), &[], &near);
    assert_eq!(found.len(), 1);
    assert_eq!(text(&found[0], "spreadSource"), Some("true"));
    assert_eq!(text(&found[0], "componentName"), Some("Modal"));
    let none = scan(SPREAD, "^actions$", Some(ReferenceLocation::JsxProp), &[], &Neighbours::none());
    assert!(none.is_empty());
}

#[test]
fn spread_of_an_object_that_is_exported_again() {
    let mut near = Neighbours::none();
    near.modules.push(module("/p/utils/index.ts", "export { modalProps } from './modal';", &[("./modal", 1)]));
    near.modules.push(module("/p/utils/modal.ts", "export const modalProps = { actions: [] };", &[]));
    near.links = named(&[("./utils", 0)]);
    let found = scan(SPREAD, "^actions$", Some(ReferenceLocation::JsxProp), &[], &near);
    assert_eq!(found.len(), 1);
}

#[test]
fn spread_of_an_object_that_the_index_knows() {
    let mut near = Neighbours::none();
    near.properties.push(("modalProps".to_string(), vec!["actions".to_string()]));
    let found = scan(SPREAD, "^actions$", Some(ReferenceLocation::JsxProp), &[], &near);
    assert_eq!(found.len(), 1);
}

#[test]
fn imported_render_function_stands_under_its_element() {
    let source = "
import { Select } from '@patternfly/react-core';
import { toggle } from './toggle';
const App = () => <Select toggle={toggle} />;
";
    let mut near = Neighbours::none();
    near.modules.push(module(
        "/p/toggle.tsx",
        "export const toggle = (r) => <MenuToggle ref={r}>Filter</MenuToggle>;",
        &[],
    ));
    near.indexed = named(&[("toggle", 0)]);
    let found = scan(source, "^MenuToggle$", Some(ReferenceLocation::JsxComponent), &[], &near);
    assert_eq!(found.len(), 1);
    assert_eq!(text(&found[0], "parentName"), Some("Select"));
    assert_eq!(found[0].file_uri, "file:///p/App.tsx");

    near.indexed = Vec::new();
    near.links = named(&[("./toggle", 0)]);
    let found = scan(source, "^MenuToggle$", Some(ReferenceLocation::JsxComponent), &[], &near);
    assert_eq!(found.len(), 1);
    assert_eq!(text(&found[0], "parentName"), Some("Select"));
}

#[test]
fn files_that_export_each_other_end() {
    let modules = vec![
        module("/p/a.ts", "export * from './b';", &[("./b", 1)]),
        module("/p/b.ts", "export * from './a';", &[("./a", 0)]),
    ];
    assert!(resolve_cross_file_export(&modules, 0, "x", MAX_REEXPORT_DEPTH).is_empty());
    assert!(resolve_cross_file_export(&modules, 7, "x", MAX_REEXPORT_DEPTH).is_empty());
}

#[test]
fn module_that_cannot_be_parsed() {
    assert!(parse_module("const = <", "/p/a.tsx").is_none());
    assert!(parse_module("const a: number = 1;", "/p/a.js").is_none());
    assert!(parse_module("const a = 1;", "/p/a.unknown").is_some());
    assert!(parse_module("const a = 1;", "/p/a.ts").is_some());
}

#[test]
fn paths_that_are_exported_again() {
    let program = parse_module(
        "import x from './x';\nexport { a } from './a';\nexport * from './b';\nexport const c = 1;",
        "/p/index.ts",
    )
    .unwrap();
    assert_eq!(reexport_sources(&program), vec!["./a", "./b"]);
}

const WRAPPED: &str = "
import { Table, Tbody } from '@patternfly/react-table';
import { Wrapper } from './Wrapper';
const App = () => <Table><Wrapper><Tbody /></Wrapper></Table>;
";

#[test]
fn children_of_a_transparent_component() {
    let parent = |transparent: &[(&str, Option<&str>)]| {
        let found = scan(
            WRAPPED,
            "^Tbody$",
            Some(ReferenceLocation::JsxComponent),
            transparent,
            &Neighbours::none(),
        );
        assert_eq!(found.len(), 1);
        text(&found[0], "parentName").map(str::to_string)
    };
    assert_eq!(parent(&[]).as_deref(), Some("Wrapper"));
    assert_eq!(parent(&[("Wrapper", None)]).as_deref(), Some("Table"));
    assert_eq!(parent(&[("Wrapper", Some("Card"))]).as_deref(), Some("Card"));
}

#[test]
fn scan_reports_what_it_looks_for() {
    let source = "import { Button } from 'pf';\nconst a = <Button Button='x' />;";
    let names = |location| -> Vec<(bool, bool)> {
        scan(source, "^Button$", location, &[], &Neighbours::none())
            .iter()
            .map(|i| (text(i, "componentName").is_some(), text(i, "propName").is_some()))
            .collect()
    };
    assert_eq!(names(Some(ReferenceLocation::JsxComponent)), vec![(true, false)]);
    assert_eq!(names(Some(ReferenceLocation::JsxProp)), vec![(true, true)]);
    assert_eq!(names(None), vec![(true, false), (true, true)]);
    assert!(names(Some(ReferenceLocation::Import)).is_empty());
    assert!(names(Some(ReferenceLocation::FunctionCall)).is_empty());
    assert!(names(Some(ReferenceLocation::TypeReference)).is_empty());
}

#[test]
fn one_statement_by_itself() {
    let source = "import { Button } from 'pf';\nconst a = <Button />;";
    let program = parse_program(source, SourceKind::Tsx).unwrap();
    let import_map = build_import_map(&program);
    let body = program.get("body").and_then(|body| body.as_list()).unwrap();
    let re = Regex::new("^Button$").unwrap();
    let found = scan_jsx(&body[1], source, &re, "file:///p/App.tsx", None, &import_map);
    assert_eq!(found.len(), 1);
    assert_eq!(text(&found[0], "module"), Some("pf"));
}

fn import(specifier: &str, name: &str, alias: Option<&str>) -> ImportDecl {
    ImportDecl {
        source: "app".to_string(),
        raw_specifier: Some(specifier.to_string()),
        symbols: vec![ImportedSymbol {
            name: name.to_string(),
            alias: alias.map(str::to_string),
            span: NOWHERE,
        }],
        is_reexport: false,
    }
}

fn def(name: &str, exported: bool, wraps_in: Option<&str>, properties: &[&str]) -> SymbolDef {
    SymbolDef {
        name: name.to_string(),
        span: NOWHERE,
        exported,
        type_annotation: None,
        transparency: Some(Transparency {
            is_transparent: properties.is_empty(),
            wraps_in: wraps_in.map(str::to_string),
        }),
        object_properties: properties.iter().map(|p| p.to_string()).collect(),
        typed_local_objects: Vec::new(),
    }
}

fn file(path: &str, imports: Vec<ImportDecl>, symbol_defs: Vec<SymbolDef>) -> IndexedFile {
    IndexedFile {
        path: path.to_string(),
        source_text: String::new(),
        imports,
        symbol_defs,
        symbol_refs: Vec::new(),
    }
}

fn sample() -> ProjectIndex {
    let app = file(
        "/p/src/App.tsx",
        vec![
            import("./Wrapper", "Wrapper", Some("W")),
            import("./config", "settings", None),
            import("../src/config", "around", None),
            import("react", "useState", None),
            import("./Wrapper", "hidden", None),
        ],
        Vec::new(),
    );
    let wrapper = file(
        "/p/src/Wrapper.tsx",
        Vec::new(),
        vec![def("Wrapper", true, Some("Card"), &[]), def("hidden", false, None, &[])],
    );
    let config =
        file("/p/src/config/index.ts", Vec::new(), vec![def("settings", true, None, &["a", "b"])]);
    ProjectIndex { packages: vec![("app".to_string(), vec![app, wrapper, config])] }
}

#[test]
fn definitions_of_imported_names() {
    let index = sample();
    let files = FileIndex::new(&index);
    assert_eq!(files.get("/p/src/./App.tsx").map(|f| f.path.as_str()), Some("/p/src/App.tsx"));
    assert!(files.get("/p/src/Other.tsx").is_none());
    let name = |n: &str| files.find_definition("/p/src/App.tsx", n).map(|d| d.name.clone());
    assert_eq!(name("W").as_deref(), Some("Wrapper"));
    assert_eq!(name("settings").as_deref(), Some("settings"));
    assert!(name("Wrapper").is_none());
    assert!(name("useState").is_none());
    assert!(name("hidden").is_none());
    assert!(name("around").is_none());
    assert!(files.find_definition("/p/src/Other.tsx", "W").is_none());
}

#[test]
fn properties_of_imported_objects() {
    let index = sample();
    let files = FileIndex::new(&index);
    let known = files.lookup_object_properties("/p/src/App.tsx", "settings").unwrap();
    assert_eq!(known, &vec!["a".to_string(), "b".to_string()]);
    assert!(files.lookup_object_properties("/p/src/App.tsx", "W").is_none());
}

#[test]
fn transparent_components_of_a_file() {
    let index = sample();
    let files = FileIndex::new(&index);
    let program = parse_program(
        "import { Wrapper as W } from './Wrapper';\nimport { settings } from './config';",
        SourceKind::Tsx,
    )
    .unwrap();
    let found = files.build_transparency_set("/p/src/App.tsx", &build_import_map(&program));
    assert_eq!(found, vec![("W".to_string(), Some("Card".to_string()))]);
}

#[test]
fn stems_of_file_names() {
    assert_eq!(get_stem("a.b.ts"), "a.b");
    assert_eq!(get_stem(".env"), ".env");
    assert_eq!(get_stem("a"), "a");
    assert_eq!(get_stem("a."), "a");
}

#[test]
fn parent_directories_in_module_paths_are_resolved() {
    let from = |path: &str, specifier: &str| {
        let user = file(path, vec![import(specifier, "b", None)], Vec::new());
        let lib = file("/p/lib/b.tsx", Vec::new(), vec![def("b", true, None, &[])]);
        let index = ProjectIndex { packages: vec![("app".to_string(), vec![user, lib])] };
        FileIndex::new(&index).find_definition(path, "b").is_some()
    };
    assert!(from("/p/src/a.tsx", "../lib/b"));
    assert!(from("/p/src/a.tsx", "./../lib/b"));
    assert!(from("/p/src/ui/a.tsx", "../../lib/./b"));
    assert!(from("/p/src/a.tsx", "../src/../lib/b"));
    assert!(from("/p/src/a.tsx", "../../../p/lib/b"));
    assert!(!from("/p/src/ui/a.tsx", "../lib/b"));
    assert!(!from("p/src/a.tsx", "../lib/b"));
}

#[test]
fn modules_with_lone_surrogates_are_parsed() {
    assert!(parse_module("export const a = '\\udc00', b = 1e400;", "/p/a.ts").is_some());
}
