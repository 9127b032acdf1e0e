use frontend_analyzer::capabilities::{ReferenceLocation, ReferencedCondition};
use frontend_analyzer::json::Json;
use frontend_analyzer::project_index::{
    ImportDecl, ImportedSymbol, IndexedFile, JsxProp, ProjectIndex, Span, SymbolDef, SymbolRef,
    Transparency, TypeAnnotation, TypedObject,
};
use frontend_analyzer::query_eval::{evaluate_referenced, file_matches, offset_to_line_col};
use frontend_analyzer::scanner::{parse_program, SourceKind};
use regex::Regex;

const ROOT: &str = "/project";
const PACKAGE: &str = "@test/app";

/// The package that a module path belongs to.
fn package_of(specifier: &str) -> String {
    if specifier.starts_with('.') {
        return PACKAGE.to_string();
    }
    let segments = if specifier.starts_with('@') { 2 } else { 1 };
    specifier.split('/').take(segments).collect::<Vec<_>>().join("/")
}

fn kind(node: &Json) -> &str {
    node.get("type").and_then(|t| t.as_str()).unwrap_or("")
}

fn text<'a>(node: &'a Json, key: &str) -> Option<&'a str> {
    node.get(key).and_then(|v| v.as_str())
}

fn items<'a>(node: &'a Json, key: &str) -> &'a [Json] {
    match node.get(key) {
        Some(Json::List(list)) => list,
        _ => &[],
    }
}

fn name_of<'a>(node: &'a Json, key: &str) -> Option<&'a str> {
    node.get(key).and_then(|v| text(v, "name"))
}

fn offset(node: &Json, key: &str) -> u32 {
    match node.get(key) {
        Some(Json::Number(n)) => n.parse().unwrap(),
        _ => 0,
    }
}

fn span(node: &Json) -> Span {
    Span { start: offset(node, "start"), end: offset(node, "end") }
}

fn bare(node: &Json) -> &Json {
    match (kind(node), node.get("expression")) {
        ("ParenthesizedExpression", Some(inner)) => bare(inner),
        _ => node,
    }
}

fn is_function(node: &Json) -> bool {
    matches!(
        kind(node),
        "ArrowFunctionExpression" | "FunctionExpression" | "FunctionDeclaration"
    )
}

fn keys(object: &Json) -> Vec<String> {
    items(object, "properties")
        .iter()
        .filter_map(|p| {
            let key = p.get("key")?;
            text(key, "name").or_else(|| text(key, "value")).map(str::to_string)
        })
        .collect()
}

/// The property names of the object literals that an expression may give.
fn object_keys(node: &Json) -> Vec<String> {
    let node = bare(node);
    let child_keys = |key: &str| node.get(key).map(object_keys).unwrap_or_default();
    match kind(node) {
        "ObjectExpression" => keys(node),
        "LogicalExpression" => child_keys("right"),
        "ConditionalExpression" => {
            let mut all = child_keys("consequent");
            all.extend(child_keys("alternate"));
            all
        }
        _ => Vec::new(),
    }
}

/// The property names of the object that a function returns.
fn returned_keys(function: &Json) -> Vec<String> {
    let Some(body) = function.get("body") else {
        return Vec::new();
    };
    if kind(body) != "BlockStatement" {
        return object_keys(body);
    }
    items(body, "body")
        .iter()
        .filter(|s| kind(s) == "ReturnStatement")
        .filter_map(|s| s.get("argument"))
        .flat_map(object_keys)
        .collect()
}

/// Whether some JSX element renders `children`.
fn renders_children(node: &Json) -> bool {
    match node {
        Json::List(list) => list.iter().any(renders_children),
        Json::Object(fields) => {
            (kind(node) == "JSXExpressionContainer" && name_of(node, "expression") == Some("children"))
                || fields.iter().any(|(_, v)| renders_children(v))
        }
        _ => false,
    }
}

fn type_of(node: &Json) -> TypeAnnotation {
    let list = |owner: Option<&Json>, key: &str| -> Vec<TypeAnnotation> {
        owner.map(|o| items(o, key).iter().map(type_of).collect()).unwrap_or_default()
    };
    TypeAnnotation {
        name: name_of(node, "typeName").map(str::to_string),
        type_arguments: list(node.get("typeArguments"), "params"),
        components: list(Some(node), "types"),
    }
}

fn element_name(node: &Json) -> String {
    match kind(node) {
        "JSXMemberExpression" => format!(
            "{}.{}",
            node.get("object").map(element_name).unwrap_or_default(),
            node.get("property").map(element_name).unwrap_or_default()
        ),
        _ => text(node, "name").unwrap_or("").to_string(),
    }
}

fn plain_ref(name: &str, span: Span) -> SymbolRef {
    SymbolRef {
        name: name.to_string(),
        span,
        is_jsx_component: false,
        is_type_position: false,
        call_arg_value: None,
        jsx_props: Vec::new(),
        parent_component: None,
        enclosing_function_span: None,
        jsx_element_span: None,
    }
}

/// Fills in what the index holds of one file.
struct Indexer<'a> {
    source: &'a str,
    imports: Vec<ImportDecl>,
    defs: Vec<SymbolDef>,
    refs: Vec<SymbolRef>,
    typed: Vec<TypedObject>,
}

impl<'a> Indexer<'a> {
    fn slice(&self, node: &Json) -> String {
        let s = span(node);
        self.source[s.start as usize..s.end as usize].to_string()
    }

    fn import(&mut self, node: &Json, is_reexport: bool) {
        let specifier = node.get("source").and_then(|s| text(s, "value")).unwrap();
        let (from, to) = if is_reexport { ("local", "exported") } else { ("imported", "local") };
        let symbols = items(node, "specifiers")
            .iter()
            .map(|s| {
                let name = match kind(s) {
                    "ImportDefaultSpecifier" => "default",
                    "ImportNamespaceSpecifier" => "*",
                    _ => name_of(s, from).unwrap(),
                };
                let local = name_of(s, to).unwrap();
                ImportedSymbol {
                    name: name.to_string(),
                    alias: Some(local.to_string()).filter(|l| l != name),
                    span: span(s),
                }
            })
            .collect();
        self.imports.push(ImportDecl {
            source: package_of(specifier),
            raw_specifier: Some(specifier.to_string()),
            symbols,
            is_reexport,
        });
    }

    fn define(&mut self, name: &str, node: &Json, value: &Json, declared: Option<&Json>, exported: bool) {
        let value = bare(value);
        let function = is_function(value);
        self.defs.push(SymbolDef {
            name: name.to_string(),
            span: span(node),
            exported,
            type_annotation: declared.map(type_of),
            transparency: if function {
                Some(Transparency { is_transparent: renders_children(value), wraps_in: None })
            } else {
                None
            },
            object_properties: if function { returned_keys(value) } else { object_keys(value) },
            typed_local_objects: std::mem::take(&mut self.typed),
        });
    }

    fn statement(&mut self, node: &Json, exported: bool) {
        match kind(node) {
            "ImportDeclaration" => self.import(node, false),
            "ExportAllDeclaration" => self.import(node, true),
            "ExportNamedDeclaration" if matches!(node.get("source"), Some(Json::Object(_))) => {
                self.import(node, true)
            }
            "ExportNamedDeclaration" => {
                if let Some(d) = node.get("declaration") {
                    self.statement(d, true);
                }
            }
            "VariableDeclaration" => {
                for d in items(node, "declarations") {
                    self.walk(d, None, None);
                    if let Some(init) = d.get("init") {
                        let name = name_of(d, "id").unwrap_or("");
                        self.define(name, d, init, annotation(d), exported);
                    }
                }
            }
            "FunctionDeclaration" => {
                self.walk(node, None, None);
                self.define(name_of(node, "id").unwrap_or(""), node, node, None, exported);
            }
            _ => self.walk(node, None, None),
        }
    }

    fn walk(&mut self, node: &Json, parent: Option<&str>, function: Option<Span>) {
        match node {
            Json::List(list) => {
                for item in list {
                    self.walk(item, parent, function);
                }
            }
            Json::Object(fields) => {
                let inner = if is_function(node) { Some(span(node)) } else { function };
                match kind(node) {
                    "JSXElement" => return self.element(node, parent, function),
                    "CallExpression" => self.call(node),
                    "TSTypeReference" => self.type_ref(node.get("typeName")),
                    "TSInterfaceHeritage" => self.type_ref(node.get("expression")),
                    "VariableDeclarator" if function.is_some() => self.typed_object(node),
                    _ => {}
                }
                for (_, value) in fields {
                    self.walk(value, parent, inner);
                }
            }
            _ => {}
        }
    }

    fn type_ref(&mut self, name: Option<&Json>) {
        if let Some(node) = name {
            if let Some(name) = text(node, "name") {
                let mut r = plain_ref(name, span(node));
                r.is_type_position = true;
                self.refs.push(r);
            }
        }
    }

    fn call(&mut self, node: &Json) {
        let Some(callee) = node.get("callee") else {
            return;
        };
        let name = match kind(callee) {
            "MemberExpression" => name_of(callee, "property"),
            _ => text(callee, "name"),
        };
        if let Some(name) = name {
            let mut r = plain_ref(name, span(node));
            r.call_arg_value =
                items(node, "arguments").first().and_then(|a| text(a, "value")).map(str::to_string);
            self.refs.push(r);
        }
    }

    fn typed_object(&mut self, node: &Json) {
        if let (Some(declared), Some(init)) = (annotation(node), node.get("init")) {
            if kind(bare(init)) == "ObjectExpression" {
                self.typed.push(TypedObject {
                    type_name_text: self.slice(declared),
                    properties: keys(bare(init)),
                    span: span(node),
                });
            }
        }
    }

    fn prop(&self, attribute: &Json) -> JsxProp {
        let is_spread = kind(attribute) == "JSXSpreadAttribute";
        let value = attribute.get("value");
        let expression = if is_spread {
            attribute.get("argument")
        } else {
            value.and_then(|v| v.get("expression"))
        };
        JsxProp {
            name: name_of(attribute, "name").unwrap_or("").to_string(),
            is_spread,
            string_value: value.and_then(|v| text(v, "value")).map(str::to_string),
            expression_text: expression.map(|e| self.slice(e)),
            span: span(attribute),
            nested_object_keys: if is_spread {
                Vec::new()
            } else {
                expression.map(object_keys).unwrap_or_default()
            },
            spread_properties: if is_spread {
                expression.map(object_keys).unwrap_or_default()
            } else {
                Vec::new()
            },
        }
    }

    fn element(&mut self, node: &Json, parent: Option<&str>, function: Option<Span>) {
        let opening = node.get("openingElement").unwrap();
        let tag = opening.get("name").unwrap();
        let name = element_name(tag);
        let attributes = items(opening, "attributes");
        let boundary = name == "Fragment" || name == "React.Fragment";
        if !boundary && name.starts_with(|c: char| c.is_ascii_uppercase()) {
            let mut r = plain_ref(&name, span(tag));
            r.is_jsx_component = true;
            r.jsx_props = attributes.iter().map(|a| self.prop(a)).collect();
            r.parent_component = parent.map(str::to_string);
            r.enclosing_function_span = function;
            r.jsx_element_span = Some(span(node));
            self.refs.push(r);
        }
        let inner = if boundary { parent } else { Some(name.as_str()) };
        for a in attributes {
            self.walk(a, inner, function);
        }
        for c in items(node, "children") {
            self.walk(c, inner, function);
        }
    }
}

fn annotation(declarator: &Json) -> Option<&Json> {
    declarator.get("id")?.get("typeAnnotation")?.get("typeAnnotation")
}

fn index_file(path: &str, source: &str) -> IndexedFile {
    let source_kind = SourceKind::Tsx;
    let program = parse_program(source, source_kind).unwrap();
    let mut indexer = Indexer {
        source,
        imports: Vec::new(),
        defs: Vec::new(),
        refs: Vec::new(),
        typed: Vec::new(),
    };
    for s in items(&program, "body") {
        indexer.statement(s, false);
    }
    IndexedFile {
        path: format!("{ROOT}/{path}"),
        source_text: source.to_string(),
        imports: indexer.imports,
        symbol_defs: indexer.defs,
        symbol_refs: indexer.refs,
    }
}

fn build_index(files: &[(&str, &str)]) -> ProjectIndex {
    let files = files.iter().map(|(path, source)| index_file(path, source)).collect();
    ProjectIndex { packages: vec![(PACKAGE.to_string(), files)] }
}

#[test]
fn test_offset_to_line_col() {
    let src = "line1\nline2\nline3";
    assert_eq!(offset_to_line_col(src, 0), (0, 0));
    assert_eq!(offset_to_line_col(src, 5), (0, 5)); // newline char
    assert_eq!(offset_to_line_col(src, 6), (1, 0)); // start of line2
    assert_eq!(offset_to_line_col(src, 12), (2, 0)); // start of line3
}

#[test]
fn test_file_matches_no_pattern() {
    assert!(file_matches(ROOT, "/project/src/App.tsx", &None));
}

#[test]
fn test_file_matches_with_pattern() {
    let re = Some(Regex::new(r".*\.tsx$").unwrap());
    assert!(file_matches(ROOT, "/project/src/App.tsx", &re));
    assert!(!file_matches(ROOT, "/project/src/utils.ts", &re));
}

fn cond(pattern: &str, location: Option<ReferenceLocation>) -> ReferencedCondition {
    ReferencedCondition {
        pattern: pattern.to_string(),
        location,
        component: None,
        parent: None,
        not_parent: None,
        parent_from: None,
        value: None,
        from: None,
        file_pattern: None,
        child: None,
        not_child: None,
        requires_child: None,
    }
}

#[test]
fn query_import_basic() {
    let index = build_index(&[(
        "src/App.tsx",
        r#"
import { Button } from '@patternfly/react-core';
import { Table } from '@patternfly/react-table';
const App = () => <Button>Click</Button>;
"#,
    )]);
    let c = cond("^Button$", Some(ReferenceLocation::Import));
    let incidents = evaluate_referenced(&c, &index, ROOT).unwrap();
    assert_eq!(incidents.len(), 1, "Should find 1 Button import");
    assert!(incidents[0].variables.get("matchingText")
        .and_then(|v| v.as_str())
        .is_some_and(|s| s == "Button"));
}

#[test]
fn query_import_with_from_filter() {
    let index = build_index(&[(
        "src/App.tsx",
        r#"
import { Select, SelectOption } from '@patternfly/react-core/deprecated';
import { Button } from '@patternfly/react-core';
"#,
    )]);
    let mut c = cond("^(Select|SelectOption)$", Some(ReferenceLocation::Import));
    c.from = Some("@patternfly/react-core/deprecated".to_string());
    let incidents = evaluate_referenced(&c, &index, ROOT).unwrap();
    assert_eq!(incidents.len(), 2, "Should find Select + SelectOption from deprecated");
}

#[test]
fn query_import_multiple_emptystate() {
    let index = build_index(&[(
        "src/App.tsx",
        r#"
import { EmptyState, EmptyStateHeader, EmptyStateIcon, EmptyStateBody } from '@patternfly/react-core';
"#,
    )]);
    let c = cond("^(EmptyStateHeader|EmptyStateIcon)$", Some(ReferenceLocation::Import));
    let incidents = evaluate_referenced(&c, &index, ROOT).unwrap();
    assert_eq!(incidents.len(), 2, "Should find EmptyStateHeader + EmptyStateIcon");
}

#[test]
fn query_import_no_false_positive() {
    let index = build_index(&[(
        "src/App.tsx",
        r#"
import { Button } from '@patternfly/react-core';
"#,
    )]);
    let c = cond("^Modal$", Some(ReferenceLocation::Import));
    let incidents = evaluate_referenced(&c, &index, ROOT).unwrap();
    assert_eq!(incidents.len(), 0, "Should not find Modal import");
}

#[test]
fn query_jsx_prop_modal_title() {
    let index = build_index(&[(
        "src/App.tsx",
        r#"
import { Modal } from '@patternfly/react-core';
const App = () => (
<Modal title="Confirm" actions={[]}>
    <p>Are you sure?</p>
</Modal>
);
"#,
    )]);
    let mut c = cond("^title$", Some(ReferenceLocation::JsxProp));
    c.component = Some("^Modal$".to_string());
    let incidents = evaluate_referenced(&c, &index, ROOT).unwrap();
    assert_eq!(incidents.len(), 1);
    assert_eq!(
        incidents[0].variables.get("propName").and_then(|v| v.as_str()),
        Some("title")
    );
    assert_eq!(
        incidents[0].variables.get("componentName").and_then(|v| v.as_str()),
        Some("Modal")
    );
}

#[test]
fn query_jsx_prop_value_filter() {
    let index = build_index(&[(
        "src/App.tsx",
        r#"
import { PageSection } from '@patternfly/react-core';
const App = () => (
<PageSection variant="light">
    <p>Content</p>
</PageSection>
);
"#,
    )]);
    let mut c = cond("^variant$", Some(ReferenceLocation::JsxProp));
    c.component = Some("^PageSection$".to_string());
    c.value = Some("^(dark|darker|light)$".to_string());
    let incidents = evaluate_referenced(&c, &index, ROOT).unwrap();
    assert_eq!(incidents.len(), 1);
    assert_eq!(
        incidents[0].variables.get("propValue").and_then(|v| v.as_str()),
        Some("light")
    );
}

#[test]
fn query_jsx_prop_value_no_match() {
    let index = build_index(&[(
        "src/App.tsx",
        r#"
import { PageSection } from '@patternfly/react-core';
const App = () => <PageSection variant="default"><p>ok</p></PageSection>;
"#,
    )]);
    let mut c = cond("^variant$", Some(ReferenceLocation::JsxProp));
    c.component = Some("^PageSection$".to_string());
    c.value = Some("^(dark|darker|light)$".to_string());
    let incidents = evaluate_referenced(&c, &index, ROOT).unwrap();
    assert_eq!(incidents.len(), 0, "variant=default should not match");
}

#[test]
fn query_jsx_prop_wrong_component_no_match() {
    let index = build_index(&[(
        "src/App.tsx",
        r#"
import { Button } from '@patternfly/react-core';
const App = () => <Button title="foo">Click</Button>;
"#,
    )]);
    let mut c = cond("^title$", Some(ReferenceLocation::JsxProp));
    c.component = Some("^Modal$".to_string());
    let incidents = evaluate_referenced(&c, &index, ROOT).unwrap();
    assert_eq!(incidents.len(), 0, "title on Button should not match Modal filter");
}

#[test]
fn query_jsx_component_basic() {
    let index = build_index(&[(
        "src/App.tsx",
        r#"
import { Chip } from '@patternfly/react-core';
const App = () => <Chip>Tag</Chip>;
"#,
    )]);
    let c = cond("^Chip$", Some(ReferenceLocation::JsxComponent));
    let incidents = evaluate_referenced(&c, &index, ROOT).unwrap();
    assert_eq!(incidents.len(), 1);
    assert_eq!(
        incidents[0].variables.get("componentName").and_then(|v| v.as_str()),
        Some("Chip")
    );
}

#[test]
fn query_jsx_component_with_parent() {
    let index = build_index(&[(
        "src/App.tsx",
        r#"
import { Masthead, MastheadToggle } from '@patternfly/react-core';
const App = () => (
<Masthead>
    <MastheadToggle>toggle</MastheadToggle>
</Masthead>
);
"#,
    )]);
    let mut c = cond("^MastheadToggle$", Some(ReferenceLocation::JsxComponent));
    c.parent = Some("^Masthead$".to_string());
    let incidents = evaluate_referenced(&c, &index, ROOT).unwrap();
    assert_eq!(incidents.len(), 1);
    assert_eq!(
        incidents[0].variables.get("parentName").and_then(|v| v.as_str()),
        Some("Masthead")
    );
}

#[test]
fn query_jsx_component_parent_no_match() {
    let index = build_index(&[(
        "src/App.tsx",
        r#"
import { MastheadToggle } from '@patternfly/react-core';
const App = () => (
<div>
    <MastheadToggle>toggle</MastheadToggle>
</div>
);
"#,
    )]);
    let mut c = cond("^MastheadToggle$", Some(ReferenceLocation::JsxComponent));
    c.parent = Some("^Masthead$".to_string());
    let incidents = evaluate_referenced(&c, &index, ROOT).unwrap();
    assert_eq!(incidents.len(), 0, "MastheadToggle inside div should not match parent=Masthead");
}

#[test]
fn query_jsx_component_parent_transparent_wrapper() {
    let index = build_index(&[
        (
            "src/components/Wrapper.tsx",
            r#"
import React from 'react';
export const Wrapper = ({ children }) => <>{children}</>;
"#,
        ),
        (
            "src/App.tsx",
            r#"
import { Table, Tbody, Tr, Td } from '@patternfly/react-table';
import { Wrapper } from './components/Wrapper';
const App = () => (
<Table>
    <Wrapper>
        <Tbody><Tr><Td>Data</Td></Tr></Tbody>
    </Wrapper>
</Table>
);
"#,
        ),
    ]);
    let mut c = cond("^Tbody$", Some(ReferenceLocation::JsxComponent));
    c.parent = Some("^Table$".to_string());
    let incidents = evaluate_referenced(&c, &index, ROOT).unwrap();
    assert_eq!(
        incidents.len(), 1,
        "Tbody inside transparent Wrapper under Table should match parent=Table"
    );
    assert_eq!(
        incidents[0].variables.get("parentName").and_then(|v| v.as_str()),
        Some("Table")
    );
}

#[test]
fn query_type_reference() {
    let index = build_index(&[(
        "src/App.tsx",
        r#"
import { ModalBoxProps } from '@patternfly/react-core';
const handler: ModalBoxProps = {};
"#,
    )]);
    let c = cond("^ModalBoxProps$", Some(ReferenceLocation::TypeReference));
    let incidents = evaluate_referenced(&c, &index, ROOT).unwrap();
    assert_eq!(incidents.len(), 1);
}

#[test]
fn query_spread_object_import() {
    let index = build_index(&[
        (
            "src/utils.ts",
            r#"
export const modalProps = { actions: [], title: "Hello" };
"#,
        ),
        (
            "src/App.tsx",
            r#"
import { Modal } from '@patternfly/react-core';
import { modalProps } from './utils';
const el = <Modal {...modalProps}>content</Modal>;
"#,
        ),
    ]);
    let mut c = cond("^actions$", Some(ReferenceLocation::JsxProp));
    c.component = Some("^Modal$".to_string());
    let incidents = evaluate_referenced(&c, &index, ROOT).unwrap();
    assert_eq!(incidents.len(), 1, "Should find 'actions' via spread resolution");
    assert_eq!(
        incidents[0].variables.get("spreadSource").and_then(|v| v.as_str()),
        Some("true")
    );
}

#[test]
fn query_import_through_barrel() {
    let index = build_index(&[
        (
            "src/components/Button.tsx",
            r#"
export const Button = ({ children }) => <button>{children}</button>;
"#,
        ),
        (
            "src/components/index.ts",
            r#"
export { Button } from './Button';
"#,
        ),
        (
            "src/App.tsx",
            r#"
import { Button } from './components';
const App = () => <Button>Click</Button>;
"#,
        ),
    ]);
    let c = cond("^Button$", Some(ReferenceLocation::Import));
    let incidents = evaluate_referenced(&c, &index, ROOT).unwrap();
    assert!(
        incidents.len() >= 1,
        "Should find Button import through barrel re-export"
    );
}

#[test]
fn query_file_pattern_filter() {
    let index = build_index(&[
        (
            "src/App.tsx",
            r#"
import { Button } from '@patternfly/react-core';
"#,
        ),
        (
            "src/utils.ts",
            r#"
import { Button } from '@patternfly/react-core';
"#,
        ),
    ]);
    let mut c = cond("^Button$", Some(ReferenceLocation::Import));
    c.file_pattern = Some(r".*\.tsx$".to_string());
    let incidents = evaluate_referenced(&c, &index, ROOT).unwrap();
    assert_eq!(incidents.len(), 1, "Should only match .tsx files");
}

#[test]
fn query_import_default() {
    let index = build_index(&[(
        "src/App.tsx",
        "import React from 'react';\nconst x = React;\n",
    )]);
    let c = cond("^React$", Some(ReferenceLocation::Import));
    let incidents = evaluate_referenced(&c, &index, ROOT).unwrap();
    assert_eq!(incidents.len(), 1, "Should find default import React");
}

#[test]
fn query_import_aliased() {
    let index = build_index(&[(
        "src/App.tsx",
        "import { Chip as OldChip } from '@patternfly/react-core';\n",
    )]);
    let c = cond("^Chip$", Some(ReferenceLocation::Import));
    let incidents = evaluate_referenced(&c, &index, ROOT).unwrap();
    assert_eq!(incidents.len(), 1, "Should find aliased import by original name");
}

#[test]
fn query_import_aliased_matches_local_name() {
    let index = build_index(&[(
        "src/App.tsx",
        "import { Chip as OldChip } from '@patternfly/react-core';\n",
    )]);
    // Should also match by local name
    let c = cond("^OldChip$", Some(ReferenceLocation::Import));
    let incidents = evaluate_referenced(&c, &index, ROOT).unwrap();
    assert_eq!(incidents.len(), 1, "Should find aliased import by local name");
}

#[test]
fn query_import_namespace() {
    let index = build_index(&[(
        "src/App.tsx",
        "import * as PF from '@patternfly/react-core';\nconst x = PF.Button;\n",
    )]);
    let c = cond("^PF$", Some(ReferenceLocation::Import));
    let incidents = evaluate_referenced(&c, &index, ROOT).unwrap();
    assert_eq!(incidents.len(), 1, "Should find namespace import");
}

#[test]
fn query_import_from_deprecated_no_cross_match() {
    let index = build_index(&[(
        "src/App.tsx",
        r#"
import { Select } from '@patternfly/react-core';
import { Select as OldSelect } from '@patternfly/react-core/deprecated';
"#,
    )]);
    let mut c = cond("^Select$", Some(ReferenceLocation::Import));
    c.from = Some("@patternfly/react-core/deprecated".to_string());
    let incidents = evaluate_referenced(&c, &index, ROOT).unwrap();
    // Should only match the deprecated import, not the main one
    assert_eq!(incidents.len(), 1, "Should only match deprecated import");
}

#[test]
fn query_import_star_reexport() {
    let index = build_index(&[
        ("src/components/Button.tsx", "export const Button = () => <button/>;\n"),
        ("src/components/index.ts", "export * from './Button';\n"),
        ("src/App.tsx", "import { Button } from './components';\n"),
    ]);
    let c = cond("^Button$", Some(ReferenceLocation::Import));
    let incidents = evaluate_referenced(&c, &index, ROOT).unwrap();
    assert!(incidents.len() >= 1, "Should find Button through star re-export");
}

#[test]
fn query_jsx_prop_boolean() {
    let index = build_index(&[(
        "src/App.tsx",
        r#"
import { Button } from '@patternfly/react-core';
const App = () => <Button isActive>Click</Button>;
"#,
    )]);
    let mut c = cond("^isActive$", Some(ReferenceLocation::JsxProp));
    c.component = Some("^Button$".to_string());
    let incidents = evaluate_referenced(&c, &index, ROOT).unwrap();
    assert_eq!(incidents.len(), 1, "Should find boolean prop isActive");
}

#[test]
fn query_jsx_prop_enum_member_value() {
    let index = build_index(&[(
        "src/App.tsx",
        r#"
import { PageSection, PageSectionVariants } from '@patternfly/react-core';
const App = () => <PageSection variant={PageSectionVariants.light}>ok</PageSection>;
"#,
    )]);
    let mut c = cond("^variant$", Some(ReferenceLocation::JsxProp));
    c.component = Some("^PageSection$".to_string());
    let incidents = evaluate_referenced(&c, &index, ROOT).unwrap();
    assert_eq!(incidents.len(), 1, "Should find enum member prop value");
    // The expression_text should contain the member expression
    let val = incidents[0].variables.get("propValue").and_then(|v| v.as_str());
    assert!(val.is_some(), "Should have propValue for expression prop");
}

#[test]
fn query_jsx_prop_from_filter() {
    let index = build_index(&[(
        "src/App.tsx",
        r#"
import { Modal } from '@patternfly/react-core';
const App = () => <Modal title="foo">content</Modal>;
"#,
    )]);
    let mut c = cond("^title$", Some(ReferenceLocation::JsxProp));
    c.component = Some("^Modal$".to_string());
    c.from = Some("@patternfly/react-core".to_string());
    let incidents = evaluate_referenced(&c, &index, ROOT).unwrap();
    assert_eq!(incidents.len(), 1, "Should find prop with from filter");
}

#[test]
fn query_jsx_prop_from_filter_no_match() {
    let index = build_index(&[(
        "src/App.tsx",
        r#"
import { Modal } from '@patternfly/react-core';
const App = () => <Modal title="foo">content</Modal>;
"#,
    )]);
    let mut c = cond("^title$", Some(ReferenceLocation::JsxProp));
    c.component = Some("^Modal$".to_string());
    c.from = Some("@some-other/library".to_string());
    let incidents = evaluate_referenced(&c, &index, ROOT).unwrap();
    assert_eq!(incidents.len(), 0, "Wrong from should not match");
}

#[test]
fn query_spread_object_literal() {
    let index = build_index(&[(
        "src/App.tsx",
        r#"
import { Modal } from '@patternfly/react-core';
const el = <Modal {...{ actions: [], title: "hi" }}>ok</Modal>;
"#,
    )]);
    let mut c = cond("^actions$", Some(ReferenceLocation::JsxProp));
    c.component = Some("^Modal$".to_string());
    let incidents = evaluate_referenced(&c, &index, ROOT).unwrap();
    assert_eq!(incidents.len(), 1, "Should resolve inline object literal spread");
}

#[test]
fn query_spread_conditional_and() {
    let index = build_index(&[(
        "src/App.tsx",
        r#"
import { Modal } from '@patternfly/react-core';
const hasActions = true;
const el = <Modal {...(hasActions && { actions: [] })}>ok</Modal>;
"#,
    )]);
    let mut c = cond("^actions$", Some(ReferenceLocation::JsxProp));
    c.component = Some("^Modal$".to_string());
    let incidents = evaluate_referenced(&c, &index, ROOT).unwrap();
    assert_eq!(incidents.len(), 1, "Should resolve conditional AND spread");
}

#[test]
fn query_spread_ternary() {
    let index = build_index(&[(
        "src/App.tsx",
        r#"
import { Modal } from '@patternfly/react-core';
const flag = true;
const el = <Modal {...(flag ? { actions: [] } : {})}>ok</Modal>;
"#,
    )]);
    let mut c = cond("^actions$", Some(ReferenceLocation::JsxProp));
    c.component = Some("^Modal$".to_string());
    let incidents = evaluate_referenced(&c, &index, ROOT).unwrap();
    assert_eq!(incidents.len(), 1, "Should resolve ternary spread");
}

#[test]
fn query_spread_local_identifier() {
    let index = build_index(&[(
        "src/App.tsx",
        r#"
import { Modal } from '@patternfly/react-core';
const modalProps = { actions: [], title: "Hello" };
const el = <Modal {...modalProps}>ok</Modal>;
"#,
    )]);
    let mut c = cond("^actions$", Some(ReferenceLocation::JsxProp));
    c.component = Some("^Modal$".to_string());
    let incidents = evaluate_referenced(&c, &index, ROOT).unwrap();
    assert_eq!(incidents.len(), 1, "Should resolve local identifier spread via object_properties");
}

#[test]
fn query_spread_multiple_matching_props() {
    let index = build_index(&[(
        "src/App.tsx",
        r#"
import { Modal } from '@patternfly/react-core';
const modalProps = { actions: [], title: "Hello" };
const el = <Modal {...modalProps}>ok</Modal>;
"#,
    )]);
    let mut c = cond("^(actions|title)$", Some(ReferenceLocation::JsxProp));
    c.component = Some("^Modal$".to_string());
    let incidents = evaluate_referenced(&c, &index, ROOT).unwrap();
    assert_eq!(incidents.len(), 2, "Should find both matching props from spread");
}

#[test]
fn query_spread_unresolvable_no_false_positive() {
    let index = build_index(&[(
        "src/App.tsx",
        r#"
import { Modal } from '@patternfly/react-core';
const el = <Modal {...unknownProps}>ok</Modal>;
"#,
    )]);
    let mut c = cond("^actions$", Some(ReferenceLocation::JsxProp));
    c.component = Some("^Modal$".to_string());
    let incidents = evaluate_referenced(&c, &index, ROOT).unwrap();
    assert_eq!(incidents.len(), 0, "Unresolvable spread should not produce false positives");
}

#[test]
fn query_spread_no_match() {
    let index = build_index(&[(
        "src/App.tsx",
        r#"
import { Modal } from '@patternfly/react-core';
const modalProps = { isOpen: true };
const el = <Modal {...modalProps}>ok</Modal>;
"#,
    )]);
    let mut c = cond("^actions$", Some(ReferenceLocation::JsxProp));
    c.component = Some("^Modal$".to_string());
    let incidents = evaluate_referenced(&c, &index, ROOT).unwrap();
    assert_eq!(incidents.len(), 0, "Spread without target prop should not match");
}

#[test]
fn query_spread_coexists_with_direct_prop() {
    let index = build_index(&[(
        "src/App.tsx",
        r#"
import { Modal } from '@patternfly/react-core';
const extra = { variant: "small" };
const el = <Modal title="hi" {...extra}>ok</Modal>;
"#,
    )]);
    let mut c = cond("^title$", Some(ReferenceLocation::JsxProp));
    c.component = Some("^Modal$".to_string());
    let incidents = evaluate_referenced(&c, &index, ROOT).unwrap();
    assert_eq!(incidents.len(), 1, "Direct prop should still be found alongside spread");
}

#[test]
fn query_spread_local_fn_call_concise_arrow() {
    let index = build_index(&[(
        "src/App.tsx",
        r#"
import { Modal } from '@patternfly/react-core';
const getProps = () => ({ actions: [], title: "hi" });
const el = <Modal {...getProps()}>ok</Modal>;
"#,
    )]);
    let mut c = cond("^actions$", Some(ReferenceLocation::JsxProp));
    c.component = Some("^Modal$".to_string());
    let incidents = evaluate_referenced(&c, &index, ROOT).unwrap();
    assert_eq!(incidents.len(), 1, "Should resolve local fn call spread (concise arrow)");
}

#[test]
fn query_spread_local_fn_call_block_body() {
    let index = build_index(&[(
        "src/App.tsx",
        r#"
import { Modal } from '@patternfly/react-core';
function getProps() { return { actions: [], title: "hi" }; }
const el = <Modal {...getProps()}>ok</Modal>;
"#,
    )]);
    let mut c = cond("^actions$", Some(ReferenceLocation::JsxProp));
    c.component = Some("^Modal$".to_string());
    let incidents = evaluate_referenced(&c, &index, ROOT).unwrap();
    assert_eq!(incidents.len(), 1, "Should resolve local fn call spread (block body)");
}

#[test]
fn query_spread_local_fn_call_no_match() {
    let index = build_index(&[(
        "src/App.tsx",
        r#"
import { Modal } from '@patternfly/react-core';
const getProps = () => ({ isOpen: true });
const el = <Modal {...getProps()}>ok</Modal>;
"#,
    )]);
    let mut c = cond("^actions$", Some(ReferenceLocation::JsxProp));
    c.component = Some("^Modal$".to_string());
    let incidents = evaluate_referenced(&c, &index, ROOT).unwrap();
    assert_eq!(incidents.len(), 0, "Fn call spread without target prop should not match");
}

#[test]
fn query_spread_through_barrel() {
    let index = build_index(&[
        ("src/config/modal.ts", "export const modalProps = { actions: [], title: 'hi' };\n"),
        ("src/config/index.ts", "export { modalProps } from './modal';\n"),
        ("src/App.tsx", r#"
import { Modal } from '@patternfly/react-core';
import { modalProps } from './config';
const el = <Modal {...modalProps}>ok</Modal>;
"#),
    ]);
    let mut c = cond("^actions$", Some(ReferenceLocation::JsxProp));
    c.component = Some("^Modal$".to_string());
    let incidents = evaluate_referenced(&c, &index, ROOT).unwrap();
    assert_eq!(incidents.len(), 1, "Should resolve spread through barrel re-export");
}

#[test]
fn query_spread_fn_call_import() {
    let index = build_index(&[
        ("src/utils.ts", "export const getModalProps = () => ({ actions: [], title: 'hi' });\n"),
        ("src/App.tsx", r#"
import { Modal } from '@patternfly/react-core';
import { getModalProps } from './utils';
const el = <Modal {...getModalProps()}>ok</Modal>;
"#),
    ]);
    let mut c = cond("^actions$", Some(ReferenceLocation::JsxProp));
    c.component = Some("^Modal$".to_string());
    let incidents = evaluate_referenced(&c, &index, ROOT).unwrap();
    assert_eq!(incidents.len(), 1, "Should resolve imported fn call spread");
}

#[test]
fn query_spread_node_modules_skipped() {
    let index = build_index(&[(
        "src/App.tsx",
        r#"
import { Modal } from '@patternfly/react-core';
import { someProps } from 'some-library';
const el = <Modal {...someProps}>ok</Modal>;
"#,
    )]);
    let mut c = cond("^actions$", Some(ReferenceLocation::JsxProp));
    c.component = Some("^Modal$".to_string());
    let incidents = evaluate_referenced(&c, &index, ROOT).unwrap();
    assert_eq!(incidents.len(), 0, "Should not follow node_modules spread");
}

#[test]
fn query_typed_object_literal_basic() {
    let index = build_index(&[(
        "src/App.tsx",
        r#"
import { ToolbarItemProps } from '@patternfly/react-core';
const config: ToolbarItemProps = { align: 'alignRight', variant: 'separator' };
"#,
    )]);
    let mut c = cond("^align$", Some(ReferenceLocation::JsxProp));
    c.component = Some("^ToolbarItem$".to_string());
    let incidents = evaluate_referenced(&c, &index, ROOT).unwrap();
    assert_eq!(incidents.len(), 1, "Should find prop in typed object literal");
}

#[test]
fn query_typed_object_literal_partial() {
    let index = build_index(&[(
        "src/App.tsx",
        r#"
import { ToolbarItemProps } from '@patternfly/react-core';
const config: Partial<ToolbarItemProps> = { align: 'alignRight' };
"#,
    )]);
    let mut c = cond("^align$", Some(ReferenceLocation::JsxProp));
    c.component = Some("^ToolbarItem$".to_string());
    let incidents = evaluate_referenced(&c, &index, ROOT).unwrap();
    assert_eq!(incidents.len(), 1, "Should find prop in Partial<Props> typed literal");
}

#[test]
fn query_typed_object_literal_with_value() {
    let index = build_index(&[(
        "src/App.tsx",
        r#"
import { PageSectionProps } from '@patternfly/react-core';
const config: PageSectionProps = { variant: 'light' };
"#,
    )]);
    let mut c = cond("^variant$", Some(ReferenceLocation::JsxProp));
    c.component = Some("^PageSection$".to_string());
    c.value = Some("^(dark|darker|light)$".to_string());
    let incidents = evaluate_referenced(&c, &index, ROOT).unwrap();
    assert_eq!(incidents.len(), 1, "Should match value in typed object literal");
}

#[test]
fn query_jsx_prop_object_values() {
    let index = build_index(&[(
        "src/App.tsx",
        r#"
import { ToolbarItem } from '@patternfly/react-core';
const App = () => <ToolbarItem align={{ default: 'alignRight', lg: 'alignLeft' }}>ok</ToolbarItem>;
"#,
    )]);
    let mut c = cond("^align$", Some(ReferenceLocation::JsxProp));
    c.component = Some("^ToolbarItem$".to_string());
    let incidents = evaluate_referenced(&c, &index, ROOT).unwrap();
    assert_eq!(incidents.len(), 1, "Should find align prop");
    let val = incidents[0].variables.get("propValue").and_then(|v| v.as_str());
    assert!(val.is_some(), "Should capture some representation of the object value");
}

#[test]
fn query_jsx_prop_object_key() {
    let index = build_index(&[(
        "src/App.tsx",
        r#"
import { FormGroup } from '@patternfly/react-core';
const App = () => <FormGroup formGroupProps={{ labelIcon: <div/> }}>ok</FormGroup>;
"#,
    )]);
    let mut c = cond("^labelIcon$", Some(ReferenceLocation::JsxProp));
    c.component = Some("^FormGroup$".to_string());
    let incidents = evaluate_referenced(&c, &index, ROOT).unwrap();
    assert_eq!(incidents.len(), 1, "Should detect prop name inside object key");
}

#[test]
fn query_jsx_prop_member_expression_component() {
    let index = build_index(&[(
        "src/App.tsx",
        r#"
import { Toolbar } from '@patternfly/react-core';
const App = () => <Toolbar.Item align="alignRight">ok</Toolbar.Item>;
"#,
    )]);
    let mut c = cond("^align$", Some(ReferenceLocation::JsxProp));
    c.component = Some("^Item$".to_string());
    let incidents = evaluate_referenced(&c, &index, ROOT).unwrap();
    assert_eq!(incidents.len(), 1, "Should match member expression component Toolbar.Item");
}

#[test]
fn query_component_opaque_preserves_parent() {
    let index = build_index(&[
        ("src/components/OpaqueWrapper.tsx", r#"
export const OpaqueWrapper = ({ title }) => <div><h1>{title}</h1></div>;
"#),
        ("src/App.tsx", r#"
import { Table, Tbody } from '@patternfly/react-table';
import { OpaqueWrapper } from './components/OpaqueWrapper';
const App = () => (
<Table>
    <OpaqueWrapper title="hi">
        <Tbody />
    </OpaqueWrapper>
</Table>
);
"#),
    ]);
    let mut c = cond("^Tbody$", Some(ReferenceLocation::JsxComponent));
    c.parent = Some("^Table$".to_string());
    let incidents = evaluate_referenced(&c, &index, ROOT).unwrap();
    // Opaque wrapper should NOT be collapsed -- Tbody's parent is OpaqueWrapper, not Table
    assert_eq!(incidents.len(), 0, "Opaque wrapper should block parent=Table match");
}

#[test]
fn query_component_npm_not_resolved() {
    // Components from npm packages should not be resolved for transparency
    let index = build_index(&[(
        "src/App.tsx",
        r#"
import { Table, Tbody } from '@patternfly/react-table';
import { SomeWrapper } from 'some-npm-library';
const App = () => (
<Table>
    <SomeWrapper>
        <Tbody />
    </SomeWrapper>
</Table>
);
"#,
    )]);
    let mut c = cond("^Tbody$", Some(ReferenceLocation::JsxComponent));
    c.parent = Some("^Table$".to_string());
    let incidents = evaluate_referenced(&c, &index, ROOT).unwrap();
    assert_eq!(incidents.len(), 0, "npm wrapper should not be resolved as transparent");
}

#[test]
fn query_not_parent_wrong_parent_fires() {
    let index = build_index(&[(
        "src/App.tsx",
        r#"
import { Card, Tbody } from '@patternfly/react-core';
const App = () => <Card><Tbody /></Card>;
"#,
    )]);
    let mut c = cond("^Tbody$", Some(ReferenceLocation::JsxComponent));
    c.not_parent = Some("^Table$".to_string());
    let incidents = evaluate_referenced(&c, &index, ROOT).unwrap();
    assert_eq!(incidents.len(), 1, "Wrong parent should trigger notParent rule");
}

#[test]
fn query_not_parent_correct_parent_suppressed() {
    let index = build_index(&[(
        "src/App.tsx",
        r#"
import { Table, Tbody } from '@patternfly/react-table';
const App = () => <Table><Tbody /></Table>;
"#,
    )]);
    let mut c = cond("^Tbody$", Some(ReferenceLocation::JsxComponent));
    c.not_parent = Some("^Table$".to_string());
    let incidents = evaluate_referenced(&c, &index, ROOT).unwrap();
    assert_eq!(incidents.len(), 0, "Correct parent should suppress notParent rule");
}

#[test]
fn query_not_parent_fragment_boundary() {
    // React.Fragment at the top level is a render boundary.
    // notParent should be suppressed (no meaningful parent to check).
    let index = build_index(&[(
        "src/App.tsx",
        r#"
import React from 'react';
import { Tbody } from '@patternfly/react-table';
const App = () => <React.Fragment><Tbody /></React.Fragment>;
"#,
    )]);
    let mut c = cond("^Tbody$", Some(ReferenceLocation::JsxComponent));
    c.not_parent = Some("^Table$".to_string());
    let incidents = evaluate_referenced(&c, &index, ROOT).unwrap();
    assert_eq!(incidents.len(), 0, "Fragment render boundary should suppress notParent");
}

#[test]
fn query_not_parent_hook_boundary() {
    // JSX returned from a hook function is at a render boundary.
    let index = build_index(&[(
        "src/App.tsx",
        r#"
import { Tbody } from '@patternfly/react-table';
function useMyHook() {
return <Tbody />;
}
"#,
    )]);
    let mut c = cond("^Tbody$", Some(ReferenceLocation::JsxComponent));
    c.not_parent = Some("^Table$".to_string());
    let incidents = evaluate_referenced(&c, &index, ROOT).unwrap();
    assert_eq!(incidents.len(), 0, "Hook render boundary should suppress notParent");
}

#[test]
fn query_not_parent_react_fc_boundary() {
    let index = build_index(&[(
        "src/App.tsx",
        r#"
import React from 'react';
import { Tbody } from '@patternfly/react-table';
const MyComponent: React.FC = () => <Tbody />;
"#,
    )]);
    let mut c = cond("^Tbody$", Some(ReferenceLocation::JsxComponent));
    c.not_parent = Some("^Table$".to_string());
    let incidents = evaluate_referenced(&c, &index, ROOT).unwrap();
    assert_eq!(incidents.len(), 0, "React.FC render boundary should suppress notParent");
}

#[test]
fn query_not_parent_wrong_parent_inside_hook() {
    // Wrong parent INSIDE a hook should still fire
    let index = build_index(&[(
        "src/App.tsx",
        r#"
import { Card, Tbody } from '@patternfly/react-core';
function useMyHook() {
return <Card><Tbody /></Card>;
}
"#,
    )]);
    let mut c = cond("^Tbody$", Some(ReferenceLocation::JsxComponent));
    c.not_parent = Some("^Table$".to_string());
    let incidents = evaluate_referenced(&c, &index, ROOT).unwrap();
    assert_eq!(incidents.len(), 1, "Wrong parent inside hook should fire notParent");
}

#[test]
fn query_tsconfig_alias_transparency() {
    let index = build_index(&[
        ("src/components/Wrapper.tsx", r#"
import React from 'react';
export const Wrapper = ({ children }) => <>{children}</>;
"#),
        ("src/App.tsx", r#"
import { Tr, Th } from '@patternfly/react-table';
import { Wrapper } from './components/Wrapper';
const App = () => (
<Tr>
    <Wrapper>
        <Th>Name</Th>
    </Wrapper>
</Tr>
);
"#),
    ]);
    let mut c = cond("^Th$", Some(ReferenceLocation::JsxComponent));
    c.parent = Some("^Tr$".to_string());
    let incidents = evaluate_referenced(&c, &index, ROOT).unwrap();
    assert_eq!(incidents.len(), 1, "Transparent wrapper via relative import should collapse");
}

#[test]
fn query_barrel_named_reexport_transparency() {
    let index = build_index(&[
        ("src/components/Wrapper.tsx", r#"
import React from 'react';
export const Wrapper = ({ children }) => <>{children}</>;
"#),
        ("src/components/index.ts", "export { Wrapper } from './Wrapper';\n"),
        ("src/App.tsx", r#"
import { Table, Tbody } from '@patternfly/react-table';
import { Wrapper } from './components';
const App = () => (
<Table>
    <Wrapper>
        <Tbody />
    </Wrapper>
</Table>
);
"#),
    ]);
    let mut c = cond("^Tbody$", Some(ReferenceLocation::JsxComponent));
    c.parent = Some("^Table$".to_string());
    let incidents = evaluate_referenced(&c, &index, ROOT).unwrap();
    assert_eq!(incidents.len(), 1, "Barrel re-exported transparent wrapper should collapse");
}

#[test]
fn query_tsconfig_opaque_not_collapsed() {
    let index = build_index(&[
        ("src/components/OpaqueWrapper.tsx", r#"
export const OpaqueWrapper = ({ title }) => <div><h1>{title}</h1></div>;
"#),
        ("src/App.tsx", r#"
import { Tr, Th } from '@patternfly/react-table';
import { OpaqueWrapper } from './components/OpaqueWrapper';
const App = () => (
<Tr>
    <OpaqueWrapper title="x">
        <Th>Name</Th>
    </OpaqueWrapper>
</Tr>
);
"#),
    ]);
    let mut c = cond("^Th$", Some(ReferenceLocation::JsxComponent));
    c.parent = Some("^Tr$".to_string());
    let incidents = evaluate_referenced(&c, &index, ROOT).unwrap();
    assert_eq!(incidents.len(), 0, "Opaque wrapper should not be collapsed");
}

#[test]
fn query_jsx_inside_optional_chain_map() {
    let index = build_index(&[(
        "src/App.tsx",
        r#"
import { Chip } from '@patternfly/react-core';
const items: string[] | undefined = [];
const App = () => <div>{items?.map(i => <Chip key={i}>{i}</Chip>)}</div>;
"#,
    )]);
    let c = cond("^Chip$", Some(ReferenceLocation::JsxComponent));
    let incidents = evaluate_referenced(&c, &index, ROOT).unwrap();
    assert_eq!(incidents.len(), 1, "Should find Chip inside ?.map()");
}

#[test]
fn query_jsx_inside_optional_chain_filter_map() {
    let index = build_index(&[(
        "src/App.tsx",
        r#"
import { Chip } from '@patternfly/react-core';
const items: string[] | undefined = [];
const App = () => <div>{items?.filter(Boolean).map(i => <Chip key={i}>{i}</Chip>)}</div>;
"#,
    )]);
    let c = cond("^Chip$", Some(ReferenceLocation::JsxComponent));
    let incidents = evaluate_referenced(&c, &index, ROOT).unwrap();
    assert_eq!(incidents.len(), 1, "Should find Chip inside ?.filter().map()");
}

#[test]
fn query_fn_return_inherits_parent() {
    let index = build_index(&[(
        "src/App.tsx",
        r#"
import { Dropdown, DropdownItem } from '@patternfly/react-core';
function renderItems() {
return <DropdownItem>Item 1</DropdownItem>;
}
const App = () => <Dropdown>{renderItems()}</Dropdown>;
"#,
    )]);
    let mut c = cond("^DropdownItem$", Some(ReferenceLocation::JsxComponent));
    c.parent = Some("^Dropdown$".to_string());
    let incidents = evaluate_referenced(&c, &index, ROOT).unwrap();
    assert_eq!(incidents.len(), 1, "Function return should inherit parent from call site");
}

#[test]
fn query_fn_return_map_inherits_parent() {
    let index = build_index(&[(
        "src/App.tsx",
        r#"
import { Dropdown, DropdownItem } from '@patternfly/react-core';
function renderItems(items: string[]) {
return items.map(i => <DropdownItem key={i}>{i}</DropdownItem>);
}
const App = () => <Dropdown>{renderItems(["a", "b"])}</Dropdown>;
"#,
    )]);
    let mut c = cond("^DropdownItem$", Some(ReferenceLocation::JsxComponent));
    c.parent = Some("^Dropdown$".to_string());
    let incidents = evaluate_referenced(&c, &index, ROOT).unwrap();
    assert_eq!(incidents.len(), 1, "Function return with .map() should inherit parent");
}

#[test]
fn query_fn_return_no_double_count() {
    let index = build_index(&[(
        "src/App.tsx",
        r#"
import { Dropdown, DropdownItem } from '@patternfly/react-core';
function renderItems() {
return <DropdownItem>Item</DropdownItem>;
}
const App = () => <Dropdown>{renderItems()}</Dropdown>;
"#,
    )]);
    let c = cond("^DropdownItem$", Some(ReferenceLocation::JsxComponent));
    let incidents = evaluate_referenced(&c, &index, ROOT).unwrap();
    assert_eq!(incidents.len(), 1, "Should not double-count from fn body + call site");
}

#[test]
fn query_cross_file_fn_ref_parent() {
    let index = build_index(&[
        ("src/toggle.tsx", r#"
import { MenuToggle } from '@patternfly/react-core';
export const toggle = (toggleRef) => <MenuToggle ref={toggleRef}>Filter</MenuToggle>;
"#),
        ("src/App.tsx", r#"
import { Select } from '@patternfly/react-core';
import { toggle } from './toggle';
const App = () => <Select toggle={toggle} isOpen={false}><div>opt</div></Select>;
"#),
    ]);
    let mut c = cond("^MenuToggle$", Some(ReferenceLocation::JsxComponent));
    c.parent = Some("^Select$".to_string());
    let incidents = evaluate_referenced(&c, &index, ROOT).unwrap();
    assert_eq!(incidents.len(), 1, "Cross-file fn ref should resolve parent=Select");
}

#[test]
fn query_cross_file_fn_ref_barrel() {
    let index = build_index(&[
        ("src/components/toggle.tsx", r#"
import { MenuToggle } from '@patternfly/react-core';
export const toggle = (toggleRef) => <MenuToggle ref={toggleRef}>Filter</MenuToggle>;
"#),
        ("src/components/index.ts", "export { toggle } from './toggle';\n"),
        ("src/App.tsx", r#"
import { Select } from '@patternfly/react-core';
import { toggle } from './components';
const App = () => <Select toggle={toggle} isOpen={false}><div>opt</div></Select>;
"#),
    ]);
    let mut c = cond("^MenuToggle$", Some(ReferenceLocation::JsxComponent));
    c.parent = Some("^Select$".to_string());
    let incidents = evaluate_referenced(&c, &index, ROOT).unwrap();
    assert_eq!(incidents.len(), 1, "Cross-file fn ref through barrel should resolve parent");
}

#[test]
fn query_child_fires_when_present() {
    let index = build_index(&[(
        "src/App.tsx",
        r#"
import { Modal, ModalBoxBody } from '@patternfly/react-core';
const App = () => <Modal><ModalBoxBody>content</ModalBoxBody></Modal>;
"#,
    )]);
    let mut c = cond("^Modal$", Some(ReferenceLocation::JsxComponent));
    c.child = Some("^ModalBoxBody$".to_string());
    let incidents = evaluate_referenced(&c, &index, ROOT).unwrap();
    assert_eq!(incidents.len(), 1, "child filter should fire when matching child present");
}

#[test]
fn query_child_absent_no_fire() {
    let index = build_index(&[(
        "src/App.tsx",
        r#"
import { Modal } from '@patternfly/react-core';
const App = () => <Modal><p>content</p></Modal>;
"#,
    )]);
    let mut c = cond("^Modal$", Some(ReferenceLocation::JsxComponent));
    c.child = Some("^ModalBoxBody$".to_string());
    let incidents = evaluate_referenced(&c, &index, ROOT).unwrap();
    assert_eq!(incidents.len(), 0, "child filter should not fire when child absent");
}

#[test]
fn query_child_incident_on_parent() {
    let index = build_index(&[(
        "src/App.tsx",
        r#"
import { Modal, ModalBoxBody } from '@patternfly/react-core';
const App = () => <Modal><ModalBoxBody>ok</ModalBoxBody></Modal>;
"#,
    )]);
    let mut c = cond("^Modal$", Some(ReferenceLocation::JsxComponent));
    c.child = Some("^ModalBoxBody$".to_string());
    let incidents = evaluate_referenced(&c, &index, ROOT).unwrap();
    assert_eq!(incidents.len(), 1);
    assert_eq!(
        incidents[0].variables.get("componentName").and_then(|v| v.as_str()),
        Some("Modal"),
        "Incident should be on the parent (Modal), not the child"
    );
}

#[test]
fn query_child_no_children_no_fire() {
    let index = build_index(&[(
        "src/App.tsx",
        r#"
import { Modal } from '@patternfly/react-core';
const App = () => <Modal />;
"#,
    )]);
    let mut c = cond("^Modal$", Some(ReferenceLocation::JsxComponent));
    c.child = Some("^ModalBoxBody$".to_string());
    let incidents = evaluate_referenced(&c, &index, ROOT).unwrap();
    assert_eq!(incidents.len(), 0, "Self-closing element should not fire child");
}

#[test]
fn query_child_sees_map_children() {
    let index = build_index(&[(
        "src/App.tsx",
        r#"
import { Modal, ModalBoxBody } from '@patternfly/react-core';
const items = ["a"];
const App = () => <Modal>{items.map(i => <ModalBoxBody key={i}>{i}</ModalBoxBody>)}</Modal>;
"#,
    )]);
    let mut c = cond("^Modal$", Some(ReferenceLocation::JsxComponent));
    c.child = Some("^ModalBoxBody$".to_string());
    let incidents = evaluate_referenced(&c, &index, ROOT).unwrap();
    assert_eq!(incidents.len(), 1, "child filter should see children inside .map()");
}

#[test]
fn query_not_child_basic() {
    let index = build_index(&[(
        "src/App.tsx",
        r#"
import { InputGroup, Button } from '@patternfly/react-core';
const App = () => <InputGroup><Button>click</Button></InputGroup>;
"#,
    )]);
    let mut c = cond("^InputGroup$", Some(ReferenceLocation::JsxComponent));
    c.not_child = Some("^InputGroupItem$".to_string());
    let incidents = evaluate_referenced(&c, &index, ROOT).unwrap();
    assert!(incidents.len() >= 1, "notChild should fire for non-matching children");
}

#[test]
fn query_not_child_all_valid() {
    let index = build_index(&[(
        "src/App.tsx",
        r#"
import { InputGroup, InputGroupItem } from '@patternfly/react-core';
const App = () => (
<InputGroup>
    <InputGroupItem><input/></InputGroupItem>
    <InputGroupItem><input/></InputGroupItem>
</InputGroup>
);
"#,
    )]);
    let mut c = cond("^InputGroup$", Some(ReferenceLocation::JsxComponent));
    c.not_child = Some("^InputGroupItem$".to_string());
    let incidents = evaluate_referenced(&c, &index, ROOT).unwrap();
    assert_eq!(incidents.len(), 0, "All valid children should suppress notChild");
}

#[test]
fn query_not_child_sees_map() {
    let index = build_index(&[(
        "src/App.tsx",
        r#"
import { InputGroup, Button } from '@patternfly/react-core';
const items = ["a"];
const App = () => <InputGroup>{items.map(i => <Button key={i}>{i}</Button>)}</InputGroup>;
"#,
    )]);
    let mut c = cond("^InputGroup$", Some(ReferenceLocation::JsxComponent));
    c.not_child = Some("^InputGroupItem$".to_string());
    let incidents = evaluate_referenced(&c, &index, ROOT).unwrap();
    assert!(incidents.len() >= 1, "notChild should see children inside .map()");
}

#[test]
fn query_requires_child_no_match_fires() {
    let index = build_index(&[(
        "src/App.tsx",
        r#"
import { AlertGroup } from '@patternfly/react-core';
const App = () => <AlertGroup><p>no alert</p></AlertGroup>;
"#,
    )]);
    let mut c = cond("^AlertGroup$", Some(ReferenceLocation::JsxComponent));
    c.requires_child = Some("^Alert$".to_string());
    let incidents = evaluate_referenced(&c, &index, ROOT).unwrap();
    assert_eq!(incidents.len(), 1, "requiresChild should fire when no matching child");
}

#[test]
fn query_requires_child_match_suppresses() {
    let index = build_index(&[(
        "src/App.tsx",
        r#"
import { AlertGroup, Alert } from '@patternfly/react-core';
const App = () => <AlertGroup><Alert title="hi" /></AlertGroup>;
"#,
    )]);
    let mut c = cond("^AlertGroup$", Some(ReferenceLocation::JsxComponent));
    c.requires_child = Some("^Alert$".to_string());
    let incidents = evaluate_referenced(&c, &index, ROOT).unwrap();
    assert_eq!(incidents.len(), 0, "requiresChild should suppress when matching child present");
}

#[test]
fn query_requires_child_self_closing() {
    let index = build_index(&[(
        "src/App.tsx",
        r#"
import { AlertGroup } from '@patternfly/react-core';
const App = () => <AlertGroup />;
"#,
    )]);
    let mut c = cond("^AlertGroup$", Some(ReferenceLocation::JsxComponent));
    c.requires_child = Some("^Alert$".to_string());
    let incidents = evaluate_referenced(&c, &index, ROOT).unwrap();
    assert_eq!(incidents.len(), 1, "Self-closing should fire requiresChild");
}

#[test]
fn query_requires_child_sees_map() {
    let index = build_index(&[(
        "src/App.tsx",
        r#"
import { AlertGroup, Alert } from '@patternfly/react-core';
const alerts = ["a"];
const App = () => <AlertGroup>{alerts.map(a => <Alert key={a} title={a} />)}</AlertGroup>;
"#,
    )]);
    let mut c = cond("^AlertGroup$", Some(ReferenceLocation::JsxComponent));
    c.requires_child = Some("^Alert$".to_string());
    let incidents = evaluate_referenced(&c, &index, ROOT).unwrap();
    assert_eq!(incidents.len(), 0, "requiresChild should see children inside .map()");
}

#[test]
fn query_type_alias() {
    let index = build_index(&[(
        "src/App.tsx",
        r#"
import { ButtonProps } from '@patternfly/react-core';
type MyProps = ButtonProps & { extra: string };
"#,
    )]);
    let c = cond("^ButtonProps$", Some(ReferenceLocation::TypeReference));
    let incidents = evaluate_referenced(&c, &index, ROOT).unwrap();
    assert!(incidents.len() >= 1, "Should find ButtonProps in type alias RHS");
}

#[test]
fn query_type_interface_extends() {
    let index = build_index(&[(
        "src/App.tsx",
        r#"
import { ButtonProps } from '@patternfly/react-core';
interface MyButtonProps extends ButtonProps { extra: string }
"#,
    )]);
    let c = cond("^ButtonProps$", Some(ReferenceLocation::TypeReference));
    let incidents = evaluate_referenced(&c, &index, ROOT).unwrap();
    assert!(incidents.len() >= 1, "Should find ButtonProps in interface extends");
}

#[test]
fn query_type_union() {
    let index = build_index(&[(
        "src/App.tsx",
        r#"
import { ButtonProps, AlertProps } from '@patternfly/react-core';
type Combined = ButtonProps | AlertProps;
"#,
    )]);
    let c = cond("^ButtonProps$", Some(ReferenceLocation::TypeReference));
    let incidents = evaluate_referenced(&c, &index, ROOT).unwrap();
    assert!(incidents.len() >= 1, "Should find ButtonProps in union type");
}

#[test]
fn query_type_array() {
    let index = build_index(&[(
        "src/App.tsx",
        r#"
import { ButtonProps } from '@patternfly/react-core';
const items: ButtonProps[] = [];
"#,
    )]);
    let c = cond("^ButtonProps$", Some(ReferenceLocation::TypeReference));
    let incidents = evaluate_referenced(&c, &index, ROOT).unwrap();
    assert!(incidents.len() >= 1, "Should find ButtonProps in array type");
}

#[test]
fn query_type_exported() {
    let index = build_index(&[(
        "src/App.tsx",
        r#"
import { ButtonProps } from '@patternfly/react-core';
export type MyProps = ButtonProps;
"#,
    )]);
    let c = cond("^ButtonProps$", Some(ReferenceLocation::TypeReference));
    let incidents = evaluate_referenced(&c, &index, ROOT).unwrap();
    assert!(incidents.len() >= 1, "Should find ButtonProps in exported type alias");
}

#[test]
fn query_type_no_match() {
    let index = build_index(&[(
        "src/App.tsx",
        r#"
import { ButtonProps } from '@patternfly/react-core';
const x: ButtonProps = {};
"#,
    )]);
    let c = cond("^ModalProps$", Some(ReferenceLocation::TypeReference));
    let incidents = evaluate_referenced(&c, &index, ROOT).unwrap();
    assert_eq!(incidents.len(), 0, "Non-matching type should return empty");
}

#[test]
fn query_function_call_simple() {
    let index = build_index(&[(
        "src/App.tsx",
        r#"
import { useWizardContext } from '@patternfly/react-core';
const ctx = useWizardContext();
"#,
    )]);
    let c = cond("^useWizardContext$", Some(ReferenceLocation::FunctionCall));
    let incidents = evaluate_referenced(&c, &index, ROOT).unwrap();
    assert_eq!(incidents.len(), 1, "Should find simple function call");
}

#[test]
fn query_function_call_no_match() {
    let index = build_index(&[(
        "src/App.tsx",
        r#"
import { useWizardContext } from '@patternfly/react-core';
const ctx = useWizardContext();
"#,
    )]);
    let c = cond("^useOtherHook$", Some(ReferenceLocation::FunctionCall));
    let incidents = evaluate_referenced(&c, &index, ROOT).unwrap();
    assert_eq!(incidents.len(), 0, "Non-matching function call should return empty");
}

#[test]
fn query_function_call_in_variable_decl() {
    let index = build_index(&[(
        "src/App.tsx",
        r#"
import { useToolbar } from '@patternfly/react-core';
const toolbar = useToolbar();
"#,
    )]);
    let c = cond("^useToolbar$", Some(ReferenceLocation::FunctionCall));
    let incidents = evaluate_referenced(&c, &index, ROOT).unwrap();
    assert_eq!(incidents.len(), 1, "Should find function call in variable declaration");
}

#[test]
fn query_function_call_string_arg() {
    let index = build_index(&[(
        "src/App.tsx",
        r#"
import { screen } from '@testing-library/react';
const btn = screen.getByRole('button');
"#,
    )]);
    let c = cond("^getByRole$", Some(ReferenceLocation::FunctionCall));
    let incidents = evaluate_referenced(&c, &index, ROOT).unwrap();
    assert_eq!(incidents.len(), 1, "Should find member function call");
    let arg_val = incidents[0].variables.get("callArgValue");
    assert_eq!(
        arg_val.and_then(|v| v.as_str()),
        Some("button"),
        "Should extract first string argument"
    );
}

#[test]
fn query_hook_sets_sentinel_parent() {
    let index = build_index(&[(
        "src/App.tsx",
        r#"
import { Tbody } from '@patternfly/react-table';
function useMyHook() {
return <Tbody />;
}
"#,
    )]);
    let c = cond("^Tbody$", Some(ReferenceLocation::JsxComponent));
    let incidents = evaluate_referenced(&c, &index, ROOT).unwrap();
    assert_eq!(incidents.len(), 1);
    // The parent should be None or a sentinel -- NOT some outer component
    let parent = incidents[0].variables.get("parentName");
    assert!(
        parent.is_none() || parent.and_then(|v| v.as_str()).is_some_and(|s| s.starts_with("__")),
        "Hook-returned JSX should have no real parent"
    );
}

#[test]
fn query_hook_nested_jsx_correct_parent() {
    let index = build_index(&[(
        "src/App.tsx",
        r#"
import { Toolbar, ToolbarItem } from '@patternfly/react-core';
function useMyToolbar() {
return <Toolbar><ToolbarItem>item</ToolbarItem></Toolbar>;
}
"#,
    )]);
    let mut c = cond("^ToolbarItem$", Some(ReferenceLocation::JsxComponent));
    c.parent = Some("^Toolbar$".to_string());
    let incidents = evaluate_referenced(&c, &index, ROOT).unwrap();
    assert_eq!(incidents.len(), 1, "Nested JSX inside hook should have correct parent");
}

#[test]
fn query_react_fc_sets_sentinel() {
    let index = build_index(&[(
        "src/App.tsx",
        r#"
import React from 'react';
import { Tbody } from '@patternfly/react-table';
const MyComponent: React.FC = () => <Tbody />;
"#,
    )]);
    let c = cond("^Tbody$", Some(ReferenceLocation::JsxComponent));
    let incidents = evaluate_referenced(&c, &index, ROOT).unwrap();
    assert_eq!(incidents.len(), 1);
    let parent = incidents[0].variables.get("parentName");
    assert!(
        parent.is_none() || parent.and_then(|v| v.as_str()).is_some_and(|s| s.starts_with("__")),
        "React.FC top-level JSX should have no real parent"
    );
}

#[test]
fn query_regular_component_no_sentinel() {
    // A regular component without type annotation should NOT get a sentinel
    let index = build_index(&[(
        "src/App.tsx",
        r#"
import { Table, Tbody } from '@patternfly/react-table';
const App = () => <Table><Tbody /></Table>;
"#,
    )]);
    let mut c = cond("^Tbody$", Some(ReferenceLocation::JsxComponent));
    c.parent = Some("^Table$".to_string());
    let incidents = evaluate_referenced(&c, &index, ROOT).unwrap();
    assert_eq!(incidents.len(), 1, "Regular component should have normal parent");
}

#[test]
fn query_no_location_matches_import() {
    let index = build_index(&[(
        "src/App.tsx",
        r#"
import { Button } from '@patternfly/react-core';
const App = () => <Button>Click</Button>;
"#,
    )]);
    let c = cond("^Button$", None);
    let incidents = evaluate_referenced(&c, &index, ROOT).unwrap();
    assert!(incidents.len() >= 1, "No-location should match imports");
}

#[test]
fn query_no_location_matches_jsx_and_import() {
    let index = build_index(&[(
        "src/App.tsx",
        r#"
import { Button } from '@patternfly/react-core';
const App = () => <Button>Click</Button>;
"#,
    )]);
    let c = cond("^Button$", None);
    let incidents = evaluate_referenced(&c, &index, ROOT).unwrap();
    // Should find at least the import and the JSX usage
    assert!(incidents.len() >= 2, "No-location should match both import and JSX usage");
}

#[test]
fn query_jsx_prop_inside_prop_value_arrow() {
    // Real-world pattern: <Dropdown toggle={toggleRef => <MenuToggle splitButtonOptions={...}>}>
    let index = build_index(&[(
        "src/App.tsx",
        r#"
import { Dropdown, MenuToggle } from '@patternfly/react-core';
const App = () => (
<Dropdown
    isOpen={false}
    toggle={toggleRef => (
        <MenuToggle ref={toggleRef} splitButtonOptions={{ items: [] }}>
            Toggle
        </MenuToggle>
    )}
>
    <div>content</div>
</Dropdown>
);
"#,
    )]);
    let mut c = cond("^splitButtonOptions$", Some(ReferenceLocation::JsxProp));
    c.component = Some("^MenuToggle$".to_string());
    let incidents = evaluate_referenced(&c, &index, ROOT).unwrap();
    assert_eq!(
        incidents.len(), 1,
        "Should find splitButtonOptions on MenuToggle inside prop value arrow"
    );
}

#[test]
fn query_jsx_component_inside_prop_value() {
    // JSX component rendered inside a prop expression
    let index = build_index(&[(
        "src/App.tsx",
        r#"
import { Modal, ModalHeader } from '@patternfly/react-core';
const App = () => (
<Modal header={<ModalHeader title="Hello" />}>
    <p>content</p>
</Modal>
);
"#,
    )]);
    let c = cond("^ModalHeader$", Some(ReferenceLocation::JsxComponent));
    let incidents = evaluate_referenced(&c, &index, ROOT).unwrap();
    assert_eq!(
        incidents.len(), 1,
        "Should find ModalHeader inside prop value expression"
    );
}

#[test]
fn query_jsx_prop_inside_render_prop() {
    // renderItem pattern
    let index = build_index(&[(
        "src/App.tsx",
        r#"
import { Select, SelectOption } from '@patternfly/react-core';
const App = () => (
<Select
    isOpen={false}
    renderItem={item => <SelectOption value={item} isDisabled={false}>{item}</SelectOption>}
>
    <div>content</div>
</Select>
);
"#,
    )]);
    let mut c = cond("^isDisabled$", Some(ReferenceLocation::JsxProp));
    c.component = Some("^SelectOption$".to_string());
    let incidents = evaluate_referenced(&c, &index, ROOT).unwrap();
    assert_eq!(
        incidents.len(), 1,
        "Should find isDisabled on SelectOption inside renderItem prop"
    );
}

#[test]
fn query_typed_local_object_inside_arrow() {
    // Real-world pattern: hook returns typed props object
    let index = build_index(&[(
        "src/App.tsx",
        r#"
import { ToolbarItemProps } from '@patternfly/react-core';
export const usePaginationPropHelpers = () => {
const paginationToolbarItemProps: ToolbarItemProps = {
    variant: 'pagination',
    align: { default: 'alignRight' }
};
return { paginationToolbarItemProps };
};
"#,
    )]);
    let mut c = cond("^align$", Some(ReferenceLocation::JsxProp));
    c.component = Some("^ToolbarItem$".to_string());
    let incidents = evaluate_referenced(&c, &index, ROOT).unwrap();
    assert_eq!(
        incidents.len(), 1,
        "Should find align in function-local typed object literal"
    );
}

#[test]
fn query_typed_local_object_inside_function_decl() {
    let index = build_index(&[(
        "src/App.tsx",
        r#"
import { ToolbarItemProps } from '@patternfly/react-core';
function buildToolbarProps() {
const itemProps: ToolbarItemProps = {
    variant: 'pagination',
    align: { default: 'alignRight' }
};
return itemProps;
}
"#,
    )]);
    let mut c = cond("^align$", Some(ReferenceLocation::JsxProp));
    c.component = Some("^ToolbarItem$".to_string());
    let incidents = evaluate_referenced(&c, &index, ROOT).unwrap();
    assert_eq!(
        incidents.len(), 1,
        "Should find align in function-local typed object literal (function decl)"
    );
}

#[test]
fn query_typed_local_object_partial() {
    let index = build_index(&[(
        "src/App.tsx",
        r#"
import { ToolbarItemProps } from '@patternfly/react-core';
const useProps = () => {
const props: Partial<ToolbarItemProps> = { align: { default: 'alignRight' } };
return props;
};
"#,
    )]);
    let mut c = cond("^align$", Some(ReferenceLocation::JsxProp));
    c.component = Some("^ToolbarItem$".to_string());
    let incidents = evaluate_referenced(&c, &index, ROOT).unwrap();
    assert_eq!(
        incidents.len(), 1,
        "Should find align in Partial<ToolbarItemProps> typed local"
    );
}

#[test]
fn query_typed_local_object_no_false_positive() {
    // Type annotation doesn't end in "Props" - should not match
    let index = build_index(&[(
        "src/App.tsx",
        r#"
interface Config { align: string }
const useProps = () => {
const config: Config = { align: 'right' };
return config;
};
"#,
    )]);
    let mut c = cond("^align$", Some(ReferenceLocation::JsxProp));
    c.component = Some("^ToolbarItem$".to_string());
    let incidents = evaluate_referenced(&c, &index, ROOT).unwrap();
    assert_eq!(
        incidents.len(), 0,
        "Non-Props type should not produce incidents"
    );
}

fn count(c: &ReferencedCondition, index: &ProjectIndex) -> usize {
    evaluate_referenced(c, index, ROOT).unwrap().len()
}

#[test]
fn query_pattern_that_is_none() {
    let index = build_index(&[("src/App.tsx", "import { Button } from 'pf';\n")]);
    assert!(evaluate_referenced(&cond("(", None), &index, ROOT).is_err());
    let mut c = cond("^Button$", Some(ReferenceLocation::Import));
    c.from = Some("(".to_string());
    assert!(evaluate_referenced(&c, &index, ROOT).is_err());
    let mut c = cond("^Button$", Some(ReferenceLocation::Import));
    c.value = Some("(".to_string());
    assert_eq!(count(&c, &index), 1);
}

#[test]
fn query_without_location_is_all_locations() {
    let index = build_index(&[(
        "src/App.tsx",
        "import { X } from 'pf';\nconst a: X = X();\nconst b = <X X='1' />;\n",
    )]);
    let located = [
        ReferenceLocation::Import,
        ReferenceLocation::JsxComponent,
        ReferenceLocation::JsxProp,
        ReferenceLocation::TypeReference,
        ReferenceLocation::FunctionCall,
    ];
    let counts: Vec<usize> = located.iter().map(|l| count(&cond("^X$", Some(*l)), &index)).collect();
    assert_eq!(counts, vec![1, 1, 1, 1, 1]);
    assert_eq!(count(&cond("^X$", None), &index), 5);
}

#[test]
fn query_parent_or_not_parent() {
    let index = build_index(&[(
        "src/App.tsx",
        "const A = () => <T><B /></T>;\nconst C = () => <D><B /></D>;\nconst E = () => <B />;\n",
    )]);
    let c = || cond("^B$", Some(ReferenceLocation::JsxComponent));
    assert_eq!(count(&c(), &index), 3);
    let mut with = c();
    with.parent = Some("^T$".to_string());
    assert_eq!(count(&with, &index), 1);
    let mut without = c();
    without.not_parent = Some("^T$".to_string());
    assert_eq!(count(&without, &index), 1);
}

#[test]
fn query_parent_from() {
    let index = build_index(&[(
        "src/App.tsx",
        "import { T } from '@pf/table';\nimport { D } from '@pf/core';\n\
         const A = () => <T><B /></T>;\nconst C = () => <D><B /></D>;\nconst E = () => <B />;\n",
    )]);
    let mut c = cond("^B$", Some(ReferenceLocation::JsxComponent));
    c.parent_from = Some("table".to_string());
    let found = evaluate_referenced(&c, &index, ROOT).unwrap();
    assert_eq!(found.len(), 1);
    let parent_from = found[0].variables.get("parentFrom").and_then(|v| v.as_str());
    assert_eq!(parent_from, Some("@pf/table"));
}

#[test]
fn query_incident_shows_where_it_stands() {
    let index = build_index(&[("src/App.tsx", "\n\nimport { Button } from 'pf';\n")]);
    let found = evaluate_referenced(&cond("^Button$", None), &index, ROOT).unwrap();
    assert_eq!(found[0].file_uri, "file:///project/src/App.tsx");
    assert_eq!(found[0].line_number, Some(3));
    assert_eq!(found[0].code_snip.as_deref(), Some("1  \n2  \n3  import { Button } from 'pf';\n"));
}

#[test]
fn query_typed_object_literal_with_another_value() {
    let index = build_index(&[(
        "src/App.tsx",
        "import { PageSectionProps } from '@patternfly/react-core';\n\
         const config: PageSectionProps = { variant: 'default' };\n\
         function f() {\n  const inner: PageSectionProps = { variant: 'dark' };\n  return inner;\n}\n",
    )]);
    let mut c = cond("^variant$", Some(ReferenceLocation::JsxProp));
    c.component = Some("^PageSection$".to_string());
    assert_eq!(count(&c, &index), 2);
    c.value = Some("^(dark|darker|light)$".to_string());
    let found = evaluate_referenced(&c, &index, ROOT).unwrap();
    assert_eq!(found.len(), 1);
    assert_eq!(found[0].line_number, Some(4));
    c.value = Some("^none$".to_string());
    assert_eq!(count(&c, &index), 0);
}

#[test]
fn query_nested_object_key_with_value() {
    let index = build_index(&[(
        "src/App.tsx",
        "const a = <X groupProps={{ icon: 'old', size: n + 1, inner: { icon: 'new' } }} />;\n",
    )]);
    let mut c = cond("^icon$", Some(ReferenceLocation::JsxProp));
    assert_eq!(count(&c, &index), 1);
    c.value = Some("^old$".to_string());
    assert_eq!(count(&c, &index), 1);
    c.value = Some("^new$".to_string());
    assert_eq!(count(&c, &index), 0);
    let mut size = cond("^size$", Some(ReferenceLocation::JsxProp));
    size.value = Some("^n \\+ 1$".to_string());
    assert_eq!(count(&size, &index), 1);
}

#[test]
fn query_child_or_requires_child() {
    let index = build_index(&[(
        "src/App.tsx",
        "const a = <M><H /></M>;\nconst b = <M><B /></M>;\nconst c = <M />;\nconst d = <M><H /></M>;\n",
    )]);
    let lines = |c: &ReferencedCondition| -> Vec<Option<u32>> {
        evaluate_referenced(c, &index, ROOT).unwrap().iter().map(|i| i.line_number).collect()
    };
    let all = cond("^M$", Some(ReferenceLocation::JsxComponent));
    assert_eq!(lines(&all), vec![Some(1), Some(2), Some(3), Some(4)]);
    let mut with = cond("^M$", Some(ReferenceLocation::JsxComponent));
    with.child = Some("^H$".to_string());
    assert_eq!(lines(&with), vec![Some(1), Some(4)]);
    let mut without = cond("^M$", Some(ReferenceLocation::JsxComponent));
    without.requires_child = Some("^H$".to_string());
    assert_eq!(lines(&without), vec![Some(2), Some(3)]);
}
