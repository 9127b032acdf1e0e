use frontend_analyzer::capabilities::ReferenceLocation;
use frontend_analyzer::imports::build_import_map;
use frontend_analyzer::incident::Incident;
use frontend_analyzer::json::Json;
use frontend_analyzer::jsx::scan_jsx_file;
use frontend_analyzer::jsx_context::{is_hook_name, COMPONENT_RETURN_SENTINEL, HOOK_RETURN_SENTINEL};
use frontend_analyzer::scanner::{parse_program, SourceKind};
use regex::Regex;

fn scan_children(
    source: &str,
    pattern: &str,
    location: Option<ReferenceLocation>,
    child: Option<&str>,
    not_child: Option<&str>,
    requires_child: Option<&str>,
) -> Vec<Incident> {
    let program = parse_program(source, SourceKind::Tsx).unwrap();
    let re = Regex::new(pattern).unwrap();
    let import_map = build_import_map(&program);
    let compile = |p: Option<&str>| p.map(|p| Regex::new(p).unwrap());
    let stmts: Vec<&Json> = program
        .get("body")
        .and_then(|body| body.as_list())
        .unwrap()
        .iter()
        .collect();
    scan_jsx_file(
        &stmts,
        source,
        &re,
        "file:///test.tsx",
        location,
        &import_map,
        &compile(child),
        &compile(not_child),
        &compile(requires_child),
        &Vec::new(),
    )
}

fn scan_source_jsx(
    source: &str,
    pattern: &str,
    location: Option<ReferenceLocation>,
) -> Vec<Incident> {
    scan_children(source, pattern, location, None, None, None)
}

fn scan_source_jsx_not_child(source: &str, pattern: &str, not_child: &str) -> Vec<Incident> {
    scan_children(
        source,
        pattern,
        Some(ReferenceLocation::JsxComponent),
        None,
        Some(not_child),
        None,
    )
}

fn scan_source_jsx_child(source: &str, pattern: &str, child: &str) -> Vec<Incident> {
    scan_children(
        source,
        pattern,
        Some(ReferenceLocation::JsxComponent),
        Some(child),
        None,
        None,
    )
}

fn scan_source_jsx_requires_child(
    source: &str,
    pattern: &str,
    requires_child: &str,
) -> Vec<Incident> {
    scan_children(
        source,
        pattern,
        Some(ReferenceLocation::JsxComponent),
        None,
        None,
        Some(requires_child),
    )
}

#[test]
fn test_jsx_component_match() {
    let source = r#"
import { Button } from '@patternfly/react-core';
const el = <Button>Click</Button>;
"#;
    let incidents =
        scan_source_jsx(source, r"^Button$", Some(ReferenceLocation::JsxComponent));
    assert_eq!(incidents.len(), 1);
    assert_eq!(
        incidents[0].variables.get("componentName"),
        Some(&Json::Text("Button".to_string()))
    );
}

#[test]
fn test_jsx_component_no_match() {
    let source = r#"const el = <Button>Click</Button>;"#;
    let incidents = scan_source_jsx(source, r"^Alert$", Some(ReferenceLocation::JsxComponent));
    assert!(incidents.is_empty());
}

#[test]
fn test_jsx_prop_match() {
    let source = r#"
import { Button } from '@patternfly/react-core';
const el = <Button isActive>Click</Button>;
"#;
    let incidents = scan_source_jsx(source, r"^isActive$", Some(ReferenceLocation::JsxProp));
    assert_eq!(incidents.len(), 1);
    assert_eq!(
        incidents[0].variables.get("propName"),
        Some(&Json::Text("isActive".to_string()))
    );
}

#[test]
fn test_jsx_prop_with_string_value() {
    let source = r#"const el = <Button variant="primary">Click</Button>;"#;
    let incidents = scan_source_jsx(source, r"^variant$", Some(ReferenceLocation::JsxProp));
    assert_eq!(incidents.len(), 1);
    assert_eq!(
        incidents[0].variables.get("propValue"),
        Some(&Json::Text("primary".to_string()))
    );
}

#[test]
fn test_jsx_prop_enum_member_expression_value() {
    // Enum-style prop values like variant={PageSectionVariants.light}
    // should extract the member name ("light") as propValue, so that
    // value-based rules (value: ^light$) match correctly.
    let source =
        r#"const el = <PageSection variant={PageSectionVariants.light}>content</PageSection>;"#;
    let incidents = scan_source_jsx(source, r"^variant$", Some(ReferenceLocation::JsxProp));
    assert_eq!(incidents.len(), 1);
    assert_eq!(
        incidents[0].variables.get("propValue"),
        Some(&Json::Text("light".to_string())),
        "Should extract member name 'light' from PageSectionVariants.light"
    );
}

#[test]
fn test_jsx_prop_enum_member_nested_expression() {
    // Non-member expressions should still capture raw source text
    let source =
        r#"const el = <Button variant={isActive ? "primary" : "secondary"}>Click</Button>;"#;
    let incidents = scan_source_jsx(source, r"^variant$", Some(ReferenceLocation::JsxProp));
    assert_eq!(incidents.len(), 1);
    // Should be the raw source text, not a member name
    let pv = incidents[0]
        .variables
        .get("propValue")
        .and_then(|v| v.as_str())
        .unwrap();
    assert!(
        pv.contains("isActive"),
        "Non-member expressions should preserve raw source text, got: {}",
        pv
    );
}

#[test]
fn test_jsx_component_with_module_resolution() {
    let source = r#"
import { Button } from '@patternfly/react-core';
const el = <Button>Click</Button>;
"#;
    let incidents =
        scan_source_jsx(source, r"^Button$", Some(ReferenceLocation::JsxComponent));
    assert_eq!(incidents.len(), 1);
    assert_eq!(
        incidents[0].variables.get("module"),
        Some(&Json::Text(
            "@patternfly/react-core".to_string()
        ))
    );
}

#[test]
fn test_jsx_member_expression_component() {
    let source = r#"const el = <Toolbar.Item>hello</Toolbar.Item>;"#;
    let incidents = scan_source_jsx(
        source,
        r"^Toolbar\.Item$",
        Some(ReferenceLocation::JsxComponent),
    );
    assert_eq!(incidents.len(), 1);
    assert_eq!(
        incidents[0].variables.get("componentName"),
        Some(&Json::Text("Toolbar.Item".to_string()))
    );
}

#[test]
fn test_jsx_nested_components_tracks_parent() {
    let source = r#"
import { Page, PageSection } from '@patternfly/react-core';
const el = <Page><PageSection>content</PageSection></Page>;
"#;
    let incidents = scan_source_jsx(
        source,
        r"^PageSection$",
        Some(ReferenceLocation::JsxComponent),
    );
    assert_eq!(incidents.len(), 1);
    assert_eq!(
        incidents[0].variables.get("parentName"),
        Some(&Json::Text("Page".to_string()))
    );
}

#[test]
fn test_jsx_scan_without_location_filter() {
    // Without a location filter, should match both component and prop usages
    let source = r#"const el = <Button isActive>Click</Button>;"#;
    let incidents = scan_source_jsx(source, r"^Button$", None);
    // Should find Button as component
    assert!(incidents.iter().any(|i| i.variables.get("componentName")
        == Some(&Json::Text("Button".to_string()))));
}

// ── ChainExpression tests ────────────────────────────────────────

#[test]
fn test_jsx_inside_optional_chaining_map() {
    // JSX inside items?.map() should be detected
    let source = r#"
import { Switch } from '@patternfly/react-core';
const el = <div>{items?.map(item => <Switch labelOff="No" />)}</div>;
"#;
    let incidents =
        scan_source_jsx(source, r"^Switch$", Some(ReferenceLocation::JsxComponent));
    assert_eq!(
        incidents.len(),
        1,
        "Should detect <Switch> inside optional chaining ?.map()"
    );
}

#[test]
fn test_jsx_prop_inside_optional_chaining() {
    // Props on JSX inside ?.map() should be detected
    let source = r#"
import { Switch } from '@patternfly/react-core';
const el = <div>{items?.map(item => <Switch labelOff="No" />)}</div>;
"#;
    let incidents = scan_source_jsx(source, r"^labelOff$", Some(ReferenceLocation::JsxProp));
    assert_eq!(
        incidents.len(),
        1,
        "Should detect labelOff prop inside optional chaining ?.map()"
    );
}

#[test]
fn test_jsx_inside_optional_chaining_filter_map() {
    // JSX inside chained ?.filter()?.map() - only the outer ?. is a ChainExpression
    let source = r#"
import { Tr } from '@patternfly/react-table';
const el = <div>{data?.filter(x => x.active).map(x => <Tr key={x.id} />)}</div>;
"#;
    let incidents = scan_source_jsx(source, r"^Tr$", Some(ReferenceLocation::JsxComponent));
    assert_eq!(
        incidents.len(),
        1,
        "Should detect <Tr> inside ?.filter().map() chain"
    );
}

#[test]
fn test_jsx_without_optional_chaining_still_works() {
    // Ensure regular .map() (non-optional) still works
    let source = r#"
import { Td } from '@patternfly/react-table';
const el = <div>{items.map(item => <Td>{item.name}</Td>)}</div>;
"#;
    let incidents = scan_source_jsx(source, r"^Td$", Some(ReferenceLocation::JsxComponent));
    assert_eq!(
        incidents.len(),
        1,
        "Should detect <Td> inside regular .map()"
    );
}

// ── Object key scanning tests ────────────────────────────────────

#[test]
fn test_jsx_prop_match_in_object_literal() {
    // formGroupProps={{ labelIcon: ... }} should match ^labelIcon$
    let source = r#"
import { HookFormPFGroupController } from './components';
const el = <HookFormPFGroupController formGroupProps={{ labelIcon: <Popover /> }} />;
"#;
    let incidents = scan_source_jsx(source, r"^labelIcon$", Some(ReferenceLocation::JsxProp));
    assert_eq!(
        incidents.len(),
        1,
        "Should detect labelIcon as object key inside prop value"
    );
    assert_eq!(
        incidents[0].variables.get("propName"),
        Some(&Json::Text("labelIcon".to_string()))
    );
    assert_eq!(
        incidents[0].variables.get("componentName"),
        Some(&Json::Text(
            "HookFormPFGroupController".to_string()
        ))
    );
}

#[test]
fn test_jsx_prop_object_key_with_import_resolution() {
    // Object key incidents should carry the module from the owning component
    let source = r#"
import { FormGroup } from '@patternfly/react-core';
const el = <FormGroup extraProps={{ labelIcon: "help" }} />;
"#;
    let incidents = scan_source_jsx(source, r"^labelIcon$", Some(ReferenceLocation::JsxProp));
    assert_eq!(incidents.len(), 1);
    assert_eq!(
        incidents[0].variables.get("module"),
        Some(&Json::Text(
            "@patternfly/react-core".to_string()
        ))
    );
}

#[test]
fn test_jsx_prop_direct_still_preferred_over_object_key() {
    // Direct JSX prop should still match, and object key shouldn't duplicate
    let source = r#"
import { FormGroup } from '@patternfly/react-core';
const el = <FormGroup labelIcon={<Popover />} />;
"#;
    let incidents = scan_source_jsx(source, r"^labelIcon$", Some(ReferenceLocation::JsxProp));
    // Should match only once (direct prop), not also as object key
    assert_eq!(incidents.len(), 1);
    assert_eq!(
        incidents[0].variables.get("propName"),
        Some(&Json::Text("labelIcon".to_string()))
    );
}

#[test]
fn test_jsx_prop_object_key_no_false_positive() {
    // Object keys that don't match the pattern should not produce incidents
    let source = r#"
const el = <Widget config={{ enabled: true, name: "test" }} />;
"#;
    let incidents = scan_source_jsx(source, r"^labelIcon$", Some(ReferenceLocation::JsxProp));
    assert!(incidents.is_empty());
}

// ── Object value extraction tests ────────────────────────────────

#[test]
fn test_jsx_prop_object_values_extracted() {
    // align={{ default: 'alignRight' }} should extract 'alignRight' as propObjectValues
    let source = r#"
import { ToolbarItem } from '@patternfly/react-core';
const el = <ToolbarItem align={{ default: 'alignRight' }} />;
"#;
    let incidents = scan_source_jsx(source, r"^align$", Some(ReferenceLocation::JsxProp));
    assert_eq!(incidents.len(), 1);

    let obj_values = incidents[0].variables.get("propObjectValues");
    assert!(
        obj_values.is_some(),
        "Should extract propObjectValues from object literal"
    );
    let values = obj_values.unwrap().as_list().unwrap();
    assert!(
        values.contains(&Json::Text("alignRight".to_string())),
        "propObjectValues should contain 'alignRight', got: {:?}",
        values
    );
}

#[test]
fn test_jsx_prop_object_values_multiple_breakpoints() {
    // align={{ default: 'alignRight', md: 'alignLeft' }} should extract both values
    let source = r#"
import { ToolbarGroup } from '@patternfly/react-core';
const el = <ToolbarGroup align={{ default: 'alignRight', md: 'alignLeft' }} />;
"#;
    let incidents = scan_source_jsx(source, r"^align$", Some(ReferenceLocation::JsxProp));
    assert_eq!(incidents.len(), 1);

    let values = incidents[0]
        .variables
        .get("propObjectValues")
        .unwrap()
        .as_list()
        .unwrap();
    assert!(values.contains(&Json::Text("alignRight".to_string())));
    assert!(values.contains(&Json::Text("alignLeft".to_string())));
}

#[test]
fn test_jsx_prop_direct_string_no_object_values() {
    // align="alignRight" should NOT have propObjectValues (it's a direct string)
    let source = r#"
import { ToolbarItem } from '@patternfly/react-core';
const el = <ToolbarItem align="alignRight" />;
"#;
    let incidents = scan_source_jsx(source, r"^align$", Some(ReferenceLocation::JsxProp));
    assert_eq!(incidents.len(), 1);
    assert!(
        !incidents[0].variables.get("propObjectValues").is_some(),
        "Direct string props should not have propObjectValues"
    );
}

// ── Ternary / conditional expression value tests ──────────────────

#[test]
fn test_jsx_prop_ternary_object_values() {
    // spaceItems={condition ? { default: 'spaceItemsMd' } : undefined}
    // should extract 'spaceItemsMd' from the ternary's consequent branch
    let source = r#"
import { ToolbarToggleGroup } from '@patternfly/react-core';
const el = <ToolbarToggleGroup spaceItems={showFilters ? { default: 'spaceItemsMd' } : undefined} />;
"#;
    let incidents = scan_source_jsx(source, r"^spaceItems$", Some(ReferenceLocation::JsxProp));
    assert_eq!(incidents.len(), 1);

    let values = incidents[0]
        .variables
        .get("propObjectValues")
        .expect("Should extract propObjectValues from ternary branch")
        .as_list()
        .unwrap();
    assert!(
        values.contains(&Json::Text("spaceItemsMd".to_string())),
        "Should find 'spaceItemsMd' inside ternary consequent. Got: {:?}",
        values
    );
}

#[test]
fn test_jsx_prop_ternary_direct_string_values() {
    // variant={isActive ? 'primary' : 'secondary'}
    // should extract both 'primary' and 'secondary'
    let source = r#"
import { Button } from '@patternfly/react-core';
const el = <Button variant={isActive ? 'primary' : 'secondary'} />;
"#;
    let incidents = scan_source_jsx(source, r"^variant$", Some(ReferenceLocation::JsxProp));
    assert_eq!(incidents.len(), 1);

    let values = incidents[0]
        .variables
        .get("propObjectValues")
        .expect("Should extract values from ternary branches")
        .as_list()
        .unwrap();
    assert!(
        values.contains(&Json::Text("primary".to_string())),
        "Should find 'primary' in ternary. Got: {:?}",
        values
    );
    assert!(
        values.contains(&Json::Text("secondary".to_string())),
        "Should find 'secondary' in ternary. Got: {:?}",
        values
    );
}

// ── Typed object literal scanning tests ──────────────────────────

#[test]
fn test_typed_object_literal_basic() {
    // const x: ToolbarItemProps = { align: ... } should match ^align$
    let source = r#"
import { ToolbarItemProps } from '@patternfly/react-core';
const paginationToolbarItemProps: ToolbarItemProps = {
variant: 'pagination',
align: { default: 'alignRight' }
};
"#;
    let incidents = scan_source_jsx(source, r"^align$", Some(ReferenceLocation::JsxProp));
    assert_eq!(
        incidents.len(),
        1,
        "Should detect 'align' as a prop on typed object literal"
    );
    assert_eq!(
        incidents[0].variables.get("propName"),
        Some(&Json::Text("align".to_string()))
    );
    assert_eq!(
        incidents[0].variables.get("componentName"),
        Some(&Json::Text("ToolbarItem".to_string()))
    );
    assert_eq!(
        incidents[0].variables.get("module"),
        Some(&Json::Text(
            "@patternfly/react-core".to_string()
        ))
    );
}

#[test]
fn test_typed_object_literal_with_object_values() {
    // Should extract propObjectValues from nested responsive breakpoint object
    let source = r#"
import { ToolbarItemProps } from '@patternfly/react-core';
const x: ToolbarItemProps = { align: { default: 'alignRight', md: 'alignLeft' } };
"#;
    let incidents = scan_source_jsx(source, r"^align$", Some(ReferenceLocation::JsxProp));
    assert_eq!(incidents.len(), 1);

    let values = incidents[0]
        .variables
        .get("propObjectValues")
        .expect("Should have propObjectValues")
        .as_list()
        .unwrap();
    assert!(values.contains(&Json::Text("alignRight".to_string())));
    assert!(values.contains(&Json::Text("alignLeft".to_string())));
}

#[test]
fn test_typed_object_literal_with_string_value() {
    // Direct string property values should be captured as propValue
    let source = r#"
import { ButtonProps } from '@patternfly/react-core';
const x: ButtonProps = { variant: 'primary' };
"#;
    let incidents = scan_source_jsx(source, r"^variant$", Some(ReferenceLocation::JsxProp));
    assert_eq!(incidents.len(), 1);
    assert_eq!(
        incidents[0].variables.get("propValue"),
        Some(&Json::Text("primary".to_string()))
    );
    assert_eq!(
        incidents[0].variables.get("componentName"),
        Some(&Json::Text("Button".to_string()))
    );
}

#[test]
fn test_typed_object_literal_no_match_without_import() {
    // Type not in import map should not produce incidents
    let source = r#"
type LocalProps = { align: string };
const x: LocalProps = { align: 'right' };
"#;
    let incidents = scan_source_jsx(source, r"^align$", Some(ReferenceLocation::JsxProp));
    assert!(
        incidents.is_empty(),
        "Should not match typed objects where type is not imported"
    );
}

#[test]
fn test_typed_object_literal_no_match_non_props_type() {
    // Type that doesn't end with "Props" should not match
    let source = r#"
import { ToolbarItem } from '@patternfly/react-core';
const x: ToolbarItem = { align: 'right' };
"#;
    let incidents = scan_source_jsx(source, r"^align$", Some(ReferenceLocation::JsxProp));
    assert!(
        incidents.is_empty(),
        "Should not match types that don't end with 'Props'"
    );
}

#[test]
fn test_typed_object_literal_partial_wrapper() {
    // Partial<ToolbarItemProps> should unwrap to ToolbarItem
    let source = r#"
import { ToolbarItemProps } from '@patternfly/react-core';
const x: Partial<ToolbarItemProps> = { align: { default: 'alignRight' } };
"#;
    let incidents = scan_source_jsx(source, r"^align$", Some(ReferenceLocation::JsxProp));
    assert_eq!(
        incidents.len(),
        1,
        "Should unwrap Partial<> to find Props type"
    );
    assert_eq!(
        incidents[0].variables.get("componentName"),
        Some(&Json::Text("ToolbarItem".to_string()))
    );
}

#[test]
fn test_typed_object_literal_exported() {
    // export const x: FooProps = { ... } should also work
    let source = r#"
import { ToolbarGroupProps } from '@patternfly/react-core';
export const groupProps: ToolbarGroupProps = {
variant: 'icon-button-group',
align: { default: 'alignRight' }
};
"#;
    let incidents = scan_source_jsx(source, r"^align$", Some(ReferenceLocation::JsxProp));
    assert_eq!(
        incidents.len(),
        1,
        "Should detect props in exported variable declarations"
    );
    assert_eq!(
        incidents[0].variables.get("componentName"),
        Some(&Json::Text("ToolbarGroup".to_string()))
    );
}

#[test]
fn test_typed_object_literal_no_match_wrong_prop() {
    // Only the matching property key should create an incident
    let source = r#"
import { ToolbarItemProps } from '@patternfly/react-core';
const x: ToolbarItemProps = { variant: 'pagination', align: { default: 'alignRight' } };
"#;
    let incidents = scan_source_jsx(source, r"^spaceItems$", Some(ReferenceLocation::JsxProp));
    assert!(
        incidents.is_empty(),
        "Should not match properties that don't match the pattern"
    );
}

#[test]
fn test_typed_object_literal_coexists_with_jsx() {
    // Both JSX prop and typed object literal should produce incidents
    let source = r#"
import { ToolbarItem, ToolbarItemProps } from '@patternfly/react-core';
const x: ToolbarItemProps = { align: { default: 'alignRight' } };
const el = <ToolbarItem align={{ default: 'alignRight' }} />;
"#;
    let incidents = scan_source_jsx(source, r"^align$", Some(ReferenceLocation::JsxProp));
    assert_eq!(
        incidents.len(),
        2,
        "Should detect both typed object literal and JSX prop"
    );
}

#[test]
fn test_typed_object_literal_real_world_pagination() {
    // Exact pattern from quipucords-ui usePaginationPropHelpers.ts
    let source = r#"
import { PaginationProps, ToolbarItemProps } from '@patternfly/react-core';

export const usePaginationPropHelpers = (args: any) => {
const paginationProps: PaginationProps = {
    itemCount: 100,
    perPage: 10,
    page: 1,
};

const paginationToolbarItemProps: ToolbarItemProps = {
    variant: 'pagination',
    align: { default: 'alignRight' }
};

return { paginationProps, paginationToolbarItemProps };
};
"#;
    let incidents = scan_source_jsx(source, r"^align$", Some(ReferenceLocation::JsxProp));
    assert_eq!(
        incidents.len(),
        1,
        "Should detect 'align' in typed object literal inside function"
    );
    assert_eq!(
        incidents[0].variables.get("componentName"),
        Some(&Json::Text("ToolbarItem".to_string()))
    );
    assert_eq!(
        incidents[0].variables.get("module"),
        Some(&Json::Text(
            "@patternfly/react-core".to_string()
        ))
    );

    // Check that propObjectValues are extracted
    let values = incidents[0]
        .variables
        .get("propObjectValues")
        .expect("Should have propObjectValues")
        .as_list()
        .unwrap();
    assert!(values.contains(&Json::Text("alignRight".to_string())));
}

// ── Function-return tracing tests ────────────────────────────────

#[test]
fn test_function_return_inherits_parent_context() {
    // renderDropdownItems() returns <DropdownItem>, called inside <Dropdown>.
    // The scanner should see DropdownItem with parent Dropdown.
    let source = r#"
import { Dropdown, DropdownItem } from '@patternfly/react-core';
const renderItems = () => {
return <DropdownItem>Item</DropdownItem>;
};
const el = <Dropdown>{renderItems()}</Dropdown>;
"#;
    let incidents = scan_source_jsx(
        source,
        r"^DropdownItem$",
        Some(ReferenceLocation::JsxComponent),
    );
    // Should have incidents: one from function body (no parent) + one from call site (parent=Dropdown)
    let with_dropdown_parent: Vec<_> = incidents
        .iter()
        .filter(|i| {
            i.variables.get("parentName")
                == Some(&Json::Text("Dropdown".to_string()))
        })
        .collect();
    assert!(
        !with_dropdown_parent.is_empty(),
        "Should have DropdownItem with parent Dropdown from call site. Incidents: {:?}",
        incidents.iter().map(|i| &i.variables).collect::<Vec<_>>()
    );
}

#[test]
fn test_function_return_with_map_inherits_parent() {
    // Common pattern: function returns items.map(x => <Component />)
    let source = r#"
import { Dropdown, DropdownItem } from '@patternfly/react-core';
const renderItems = () => {
return [1, 2].map(i => <DropdownItem key={i}>Item {i}</DropdownItem>);
};
const el = <Dropdown>{renderItems()}</Dropdown>;
"#;
    let incidents = scan_source_jsx(
        source,
        r"^DropdownItem$",
        Some(ReferenceLocation::JsxComponent),
    );
    let with_dropdown_parent: Vec<_> = incidents
        .iter()
        .filter(|i| {
            i.variables.get("parentName")
                == Some(&Json::Text("Dropdown".to_string()))
        })
        .collect();
    assert!(
        !with_dropdown_parent.is_empty(),
        "Should trace through .map() arrow and inherit Dropdown parent. Incidents: {:?}",
        incidents.iter().map(|i| &i.variables).collect::<Vec<_>>()
    );
}

#[test]
fn test_nested_function_return_inherits_parent() {
    // Function declared INSIDE a component body (not top-level).
    // This is the FilterToolbar pattern.
    let source = r#"
import { Dropdown, DropdownItem } from '@patternfly/react-core';
const FilterToolbar = () => {
const renderDropdownItems = () => {
    return <DropdownItem>Item</DropdownItem>;
};
return (
    <Dropdown>{renderDropdownItems()}</Dropdown>
);
};
"#;
    let incidents = scan_source_jsx(
        source,
        r"^DropdownItem$",
        Some(ReferenceLocation::JsxComponent),
    );
    let with_dropdown_parent: Vec<_> = incidents
        .iter()
        .filter(|i| {
            i.variables.get("parentName")
                == Some(&Json::Text("Dropdown".to_string()))
        })
        .collect();
    assert!(
        !with_dropdown_parent.is_empty(),
        "Should find nested function's DropdownItem with parent Dropdown. Incidents: {:?}",
        incidents.iter().map(|i| &i.variables).collect::<Vec<_>>()
    );
}

#[test]
fn test_function_return_inside_wrapper_has_correct_parent() {
    // renderItems() called inside <DropdownList> inside <Dropdown>.
    // The call-site parent should be DropdownList, not Dropdown.
    let source = r#"
import { Dropdown, DropdownList, DropdownItem } from '@patternfly/react-core';
const renderItems = () => {
return <DropdownItem>Item</DropdownItem>;
};
const el = (
<Dropdown>
    <DropdownList>{renderItems()}</DropdownList>
</Dropdown>
);
"#;
    let incidents = scan_source_jsx(
        source,
        r"^DropdownItem$",
        Some(ReferenceLocation::JsxComponent),
    );
    let with_list_parent: Vec<_> = incidents
        .iter()
        .filter(|i| {
            i.variables.get("parentName")
                == Some(&Json::Text("DropdownList".to_string()))
        })
        .collect();
    assert!(
        !with_list_parent.is_empty(),
        "Should have DropdownItem with parent DropdownList. Incidents: {:?}",
        incidents.iter().map(|i| &i.variables).collect::<Vec<_>>()
    );
}

#[test]
fn test_function_return_no_double_count() {
    // DropdownItem should not be double-counted — once from the function
    // body walk and once from the call-site resolution.
    let source = r#"
import { Dropdown, DropdownItem } from '@patternfly/react-core';
const renderItems = () => <DropdownItem>Item</DropdownItem>;
const el = <Dropdown>{renderItems()}</Dropdown>;
"#;
    let incidents = scan_source_jsx(
        source,
        r"^DropdownItem$",
        Some(ReferenceLocation::JsxComponent),
    );
    // Two incidents: one from function body (no parent), one from call site (parent=Dropdown)
    // The function body walk sees it with no parent, the call-site walk sees it with parent=Dropdown
    // Both are valid — the conformance rule filters by parent=Dropdown
    let with_parent: Vec<_> = incidents
        .iter()
        .filter(|i| i.variables.get("parentName").is_some())
        .collect();
    assert!(
        !with_parent.is_empty(),
        "Should have at least one incident with parent context from call site"
    );
}

// ── notChild tests ──────────────────────────────────────────────


#[test]
fn test_not_child_basic() {
    let source = r#"
import { InputGroup, InputGroupItem, TextInput, Button } from '@patternfly/react-core';
const el = (
<InputGroup>
    <InputGroupItem><TextInput /></InputGroupItem>
    <TextInput />
    <Button>Go</Button>
</InputGroup>
);
"#;
    let incidents = scan_source_jsx_not_child(
        source,
        r"^InputGroup$",
        r"^(InputGroupItem|InputGroupText)$",
    );
    // TextInput and Button are direct children not matching notChild
    assert_eq!(incidents.len(), 2);
    let names: Vec<_> = incidents
        .iter()
        .map(|i| i.variables.get("componentName").unwrap().as_str().unwrap())
        .collect();
    assert!(names.contains(&"TextInput"));
    assert!(names.contains(&"Button"));
    // All should have parentName = InputGroup
    for inc in &incidents {
        assert_eq!(inc.variables.get("parentName").unwrap().as_str().unwrap(), "InputGroup");
    }
}

#[test]
fn test_not_child_all_valid() {
    let source = r#"
import { InputGroup, InputGroupItem, InputGroupText } from '@patternfly/react-core';
const el = (
<InputGroup>
    <InputGroupItem><div /></InputGroupItem>
    <InputGroupText>@</InputGroupText>
</InputGroup>
);
"#;
    let incidents = scan_source_jsx_not_child(
        source,
        r"^InputGroup$",
        r"^(InputGroupItem|InputGroupText)$",
    );
    // All children match — no incidents
    assert_eq!(incidents.len(), 0);
}

#[test]
fn test_not_child_no_parent_incident() {
    // When notChild is set, the parent itself should NOT produce an incident
    let source = r#"
import { InputGroup, TextInput } from '@patternfly/react-core';
const el = (
<InputGroup>
    <TextInput />
</InputGroup>
);
"#;
    let incidents = scan_source_jsx_not_child(
        source,
        r"^InputGroup$",
        r"^(InputGroupItem|InputGroupText)$",
    );
    // Only one incident for TextInput, NOT one for InputGroup itself
    assert_eq!(incidents.len(), 1);
    assert_eq!(
        incidents[0].variables.get("componentName").unwrap().as_str().unwrap(),
        "TextInput"
    );
}

// ── child (positive child filter) tests ────────────────────────


#[test]
fn test_child_fires_when_old_child_present() {
    // Modal has ModalBox (old-style child) — should fire
    let source = r#"
        import { Modal } from '@patternfly/react-core';
        import { ModalBox } from '@patternfly/react-core';
        const App = () => (
            <Modal>
                <ModalBox>content</ModalBox>
            </Modal>
        );
    "#;
    let incidents = scan_source_jsx_child(source, r"^Modal$", r"^(ModalBox|ModalBoxBody)$");
    assert_eq!(
        incidents.len(),
        1,
        "Should fire on Modal when it has ModalBox as a child"
    );
    assert_eq!(
        incidents[0].variables.get("componentName").unwrap().as_str().unwrap(),
        "Modal"
    );
}

#[test]
fn test_child_does_not_fire_when_old_child_absent() {
    // Modal has ModalBody (new-style child), no old children — should NOT fire
    let source = r#"
        import { Modal, ModalBody } from '@patternfly/react-core';
        const App = () => (
            <Modal>
                <ModalBody>content</ModalBody>
            </Modal>
        );
    "#;
    let incidents = scan_source_jsx_child(source, r"^Modal$", r"^(ModalBox|ModalBoxBody)$");
    assert!(
        incidents.is_empty(),
        "Should NOT fire when Modal has no old-style children"
    );
}

#[test]
fn test_child_fires_on_any_matching_child() {
    // Modal has both old AND new children (partially migrated)
    let source = r#"
        import { Modal, ModalBody, ModalBox } from '@patternfly/react-core';
        const App = () => (
            <Modal>
                <ModalBody>content</ModalBody>
                <ModalBox>old content</ModalBox>
            </Modal>
        );
    "#;
    let incidents = scan_source_jsx_child(source, r"^Modal$", r"^(ModalBox|ModalBoxBody)$");
    assert_eq!(
        incidents.len(),
        1,
        "Should fire — Modal still has old-style ModalBox child"
    );
}

#[test]
fn test_child_no_children_does_not_fire() {
    // Self-closing Modal with no children at all
    let source = r#"
        import { Modal } from '@patternfly/react-core';
        const App = () => <Modal />;
    "#;
    let incidents = scan_source_jsx_child(source, r"^Modal$", r"^(ModalBox|ModalBoxBody)$");
    assert!(
        incidents.is_empty(),
        "Should NOT fire on self-closing Modal with no children"
    );
}

#[test]
fn test_child_non_matching_children_do_not_fire() {
    // Modal has children but none match the child pattern
    let source = r#"
        import { Modal } from '@patternfly/react-core';
        const App = () => (
            <Modal>
                <div>content</div>
                <span>more</span>
            </Modal>
        );
    "#;
    let incidents = scan_source_jsx_child(source, r"^Modal$", r"^(ModalBox|ModalBoxBody)$");
    assert!(
        incidents.is_empty(),
        "Should NOT fire when no children match the child pattern"
    );
}

#[test]
fn test_child_incident_is_on_parent_not_child() {
    // Verify the incident is on the parent (Modal), not on the matching child (ModalBox)
    let source = r#"
        import { Modal, ModalBox } from '@patternfly/react-core';
        const App = () => (
            <Modal id="my-modal">
                <ModalBox>content</ModalBox>
            </Modal>
        );
    "#;
    let incidents = scan_source_jsx_child(source, r"^Modal$", r"^ModalBox$");
    assert_eq!(incidents.len(), 1);
    assert_eq!(
        incidents[0].variables.get("componentName").unwrap().as_str().unwrap(),
        "Modal",
        "Incident should be on the parent (Modal), not the child"
    );
}

// ── Component boundary sentinel tests ───────────────────────────

#[test]
fn test_is_hook_name() {
    assert!(is_hook_name("useToolbar"));
    assert!(is_hook_name("useMyCustomHook"));
    assert!(is_hook_name("useState"));
    assert!(!is_hook_name("use")); // no uppercase after "use"
    assert!(!is_hook_name("used")); // lowercase after "use"
    assert!(!is_hook_name("notAHook"));
    assert!(!is_hook_name("User")); // starts with U, not "use"
    assert!(!is_hook_name(""));
}

#[test]
fn test_hook_function_decl_sets_sentinel_parent() {
    // function useMyHook() { return <ToolbarItem />; }
    // ToolbarItem should get parentName = "__HookReturn__"
    let source = r#"
import { ToolbarItem } from '@patternfly/react-core';
function useMyToolbar() {
return <ToolbarItem>Action</ToolbarItem>;
}
"#;
    let incidents = scan_source_jsx(
        source,
        r"^ToolbarItem$",
        Some(ReferenceLocation::JsxComponent),
    );
    assert_eq!(incidents.len(), 1);
    assert_eq!(
        incidents[0].variables.get("parentName"),
        Some(&Json::Text("__HookReturn__".to_string())),
        "Hook function decl should set __HookReturn__ sentinel. Got: {:?}",
        incidents[0].variables
    );
}

#[test]
fn test_hook_arrow_function_sets_sentinel_parent() {
    // const useMyHook = () => <ToolbarItem />;
    // ToolbarItem should get parentName = "__HookReturn__"
    let source = r#"
import { ToolbarItem } from '@patternfly/react-core';
const useMyToolbar = () => {
return <ToolbarItem>Action</ToolbarItem>;
};
"#;
    let incidents = scan_source_jsx(
        source,
        r"^ToolbarItem$",
        Some(ReferenceLocation::JsxComponent),
    );
    assert_eq!(incidents.len(), 1);
    assert_eq!(
        incidents[0].variables.get("parentName"),
        Some(&Json::Text("__HookReturn__".to_string())),
        "Hook arrow function should set __HookReturn__ sentinel. Got: {:?}",
        incidents[0].variables
    );
}

#[test]
fn test_hook_returning_react_fc_sets_sentinel() {
    // function useMyHook() { return () => <ToolbarItem />; }
    // The inner arrow function's JSX still inherits __HookReturn__
    let source = r#"
import { ToolbarItem } from '@patternfly/react-core';
function useMyToolbar() {
return () => (
    <ToolbarItem>Action</ToolbarItem>
);
}
"#;
    let incidents = scan_source_jsx(
        source,
        r"^ToolbarItem$",
        Some(ReferenceLocation::JsxComponent),
    );
    assert_eq!(incidents.len(), 1);
    assert_eq!(
        incidents[0].variables.get("parentName"),
        Some(&Json::Text("__HookReturn__".to_string())),
        "Hook returning arrow FC should propagate __HookReturn__ sentinel. Got: {:?}",
        incidents[0].variables
    );
}

#[test]
fn test_hook_nested_jsx_gets_correct_parent() {
    // function useMyHook() { return <Toolbar><ToolbarItem /></Toolbar>; }
    // ToolbarItem should get parentName = "Toolbar", NOT __HookReturn__
    let source = r#"
import { Toolbar, ToolbarItem } from '@patternfly/react-core';
function useMyToolbar() {
return (
    <Toolbar>
        <ToolbarItem>Action</ToolbarItem>
    </Toolbar>
);
}
"#;
    let incidents = scan_source_jsx(
        source,
        r"^ToolbarItem$",
        Some(ReferenceLocation::JsxComponent),
    );
    assert_eq!(incidents.len(), 1);
    assert_eq!(
        incidents[0].variables.get("parentName"),
        Some(&Json::Text("Toolbar".to_string())),
        "Nested JSX inside hook should get normal component parent. Got: {:?}",
        incidents[0].variables
    );
}

#[test]
fn test_react_fc_type_annotation_sets_sentinel_parent() {
    // const MyComponent: React.FC = () => <ToolbarItem />;
    // ToolbarItem should get parentName = "__ComponentReturn__"
    let source = r#"
import React from 'react';
import { ToolbarItem } from '@patternfly/react-core';
const MyToolbarActions: React.FC = () => (
<ToolbarItem>Action</ToolbarItem>
);
"#;
    let incidents = scan_source_jsx(
        source,
        r"^ToolbarItem$",
        Some(ReferenceLocation::JsxComponent),
    );
    assert_eq!(incidents.len(), 1);
    assert_eq!(
        incidents[0].variables.get("parentName"),
        Some(&Json::Text(
            "__ComponentReturn__".to_string()
        )),
        "React.FC typed component should set __ComponentReturn__ sentinel. Got: {:?}",
        incidents[0].variables
    );
}

#[test]
fn test_react_fc_with_generic_sets_sentinel_parent() {
    // const Foo: React.FC<Props> = () => <ToolbarItem />;
    let source = r#"
import React from 'react';
import { ToolbarItem } from '@patternfly/react-core';
const MyToolbar: React.FC<MyProps> = () => (
<ToolbarItem>Action</ToolbarItem>
);
"#;
    let incidents = scan_source_jsx(
        source,
        r"^ToolbarItem$",
        Some(ReferenceLocation::JsxComponent),
    );
    assert_eq!(incidents.len(), 1);
    assert_eq!(
        incidents[0].variables.get("parentName"),
        Some(&Json::Text(
            "__ComponentReturn__".to_string()
        )),
        "React.FC<Props> typed component should set __ComponentReturn__ sentinel. Got: {:?}",
        incidents[0].variables
    );
}

#[test]
fn test_regular_component_no_sentinel() {
    // const App = () => <ToolbarItem />;
    // No React.FC annotation, not a hook — should have NO parentName (no sentinel)
    let source = r#"
import { ToolbarItem } from '@patternfly/react-core';
const App = () => (
<ToolbarItem>Action</ToolbarItem>
);
"#;
    let incidents = scan_source_jsx(
        source,
        r"^ToolbarItem$",
        Some(ReferenceLocation::JsxComponent),
    );
    assert_eq!(incidents.len(), 1);
    assert!(
        !incidents[0].variables.get("parentName").is_some(),
        "Regular component without annotation should have no parentName. Got: {:?}",
        incidents[0].variables
    );
}

#[test]
fn test_wrong_parent_inside_hook_still_tracked() {
    // function useMyHook() { return <Card><ToolbarItem /></Card>; }
    // ToolbarItem has parentName = "Card" (a real wrong parent)
    let source = r#"
import { Card } from '@patternfly/react-core';
import { ToolbarItem } from '@patternfly/react-core';
function useMyHook() {
return (
    <Card>
        <ToolbarItem>Action</ToolbarItem>
    </Card>
);
}
"#;
    let incidents = scan_source_jsx(
        source,
        r"^ToolbarItem$",
        Some(ReferenceLocation::JsxComponent),
    );
    assert_eq!(incidents.len(), 1);
    assert_eq!(
        incidents[0].variables.get("parentName"),
        Some(&Json::Text("Card".to_string())),
        "Wrong parent inside hook should still track the real component parent. Got: {:?}",
        incidents[0].variables
    );
}

#[test]
fn test_exported_hook_function_decl_sets_sentinel() {
    // export function useMyHook() { return <ToolbarItem />; }
    let source = r#"
import { ToolbarItem } from '@patternfly/react-core';
export function useMyToolbar() {
return <ToolbarItem>Action</ToolbarItem>;
}
"#;
    let incidents = scan_source_jsx(
        source,
        r"^ToolbarItem$",
        Some(ReferenceLocation::JsxComponent),
    );
    assert_eq!(incidents.len(), 1);
    assert_eq!(
        incidents[0].variables.get("parentName"),
        Some(&Json::Text("__HookReturn__".to_string())),
        "Exported hook should set __HookReturn__ sentinel. Got: {:?}",
        incidents[0].variables
    );
}

// ── requiresChild tests ─────────────────────────────────────────


#[test]
fn test_requires_child_fires_when_no_matching_child() {
    // AlertGroup has <div> but no <Alert> — should fire
    let source = r#"
import { AlertGroup } from '@patternfly/react-core';
const el = (
<AlertGroup>
    <div>not an alert</div>
</AlertGroup>
);
"#;
    let incidents = scan_source_jsx_requires_child(source, r"^AlertGroup$", r"^Alert$");
    assert_eq!(
        incidents.len(),
        1,
        "Should fire when no direct child matches requiresChild"
    );
}

#[test]
fn test_requires_child_does_not_fire_when_child_present() {
    // AlertGroup has <Alert> among other children — should NOT fire
    let source = r#"
import { AlertGroup, Alert } from '@patternfly/react-core';
const el = (
<AlertGroup>
    <Alert />
    <div>wrapper</div>
</AlertGroup>
);
"#;
    let incidents = scan_source_jsx_requires_child(source, r"^AlertGroup$", r"^Alert$");
    assert_eq!(
        incidents.len(),
        0,
        "Should NOT fire when at least one child matches requiresChild"
    );
}

#[test]
fn test_requires_child_does_not_fire_when_any_child_matches() {
    // AlertGroup has both Alert and AlertActionCloseButton — should NOT fire
    let source = r#"
import { AlertGroup, Alert, AlertActionCloseButton } from '@patternfly/react-core';
const el = (
<AlertGroup>
    <Alert />
    <AlertActionCloseButton />
</AlertGroup>
);
"#;
    let incidents = scan_source_jsx_requires_child(
        source,
        r"^AlertGroup$",
        r"^(Alert|AlertActionCloseButton)$",
    );
    assert_eq!(
        incidents.len(),
        0,
        "Should NOT fire when any child matches the requiresChild pattern"
    );
}

#[test]
fn test_requires_child_fires_on_self_closing() {
    // Self-closing <AlertGroup /> has no children at all — should fire
    let source = r#"
import { AlertGroup } from '@patternfly/react-core';
const el = <AlertGroup />;
"#;
    let incidents = scan_source_jsx_requires_child(source, r"^AlertGroup$", r"^Alert$");
    assert_eq!(
        incidents.len(),
        1,
        "Should fire on self-closing element with no children"
    );
}

#[test]
fn test_requires_child_incident_is_on_parent() {
    // Verify the incident span points to AlertGroup, not any child
    let source = r#"
import { AlertGroup } from '@patternfly/react-core';
const el = (
<AlertGroup>
    <div>not alert</div>
</AlertGroup>
);
"#;
    let incidents = scan_source_jsx_requires_child(source, r"^AlertGroup$", r"^Alert$");
    assert_eq!(incidents.len(), 1);
    assert_eq!(
        incidents[0].variables.get("componentName").unwrap().as_str().unwrap(),
        "AlertGroup",
        "Incident should be on the parent (AlertGroup)"
    );
}

#[test]
fn test_requires_child_does_not_emit_normal_incident() {
    // When requiresChild is set and a matching child IS present,
    // neither the requiresChild incident nor the normal incident should fire
    let source = r#"
import { AlertGroup, Alert } from '@patternfly/react-core';
const el = (
<AlertGroup>
    <Alert />
</AlertGroup>
);
"#;
    let incidents = scan_source_jsx_requires_child(source, r"^AlertGroup$", r"^Alert$");
    assert_eq!(
        incidents.len(),
        0,
        "When requiresChild is set, no normal incident should be emitted and no requiresChild incident when child is present"
    );
}

// ── Expression child walking tests ──────────────────────────────

#[test]
fn test_requires_child_sees_map_children() {
    // List has children rendered via .map() — should NOT fire
    let source = r#"
import { List, ListItem } from '@patternfly/react-core';
const el = (
<List>
    {items.map(item => (
        <ListItem key={item.id}>{item.name}</ListItem>
    ))}
</List>
);
"#;
    let incidents = scan_source_jsx_requires_child(source, r"^List$", r"^ListItem$");
    assert_eq!(
        incidents.len(),
        0,
        "Should see ListItem inside .map() expression"
    );
}

#[test]
fn test_requires_child_sees_conditional_children() {
    // AlertGroup has children via conditional expression — should NOT fire
    let source = r#"
import { AlertGroup, Alert } from '@patternfly/react-core';
const el = (
<AlertGroup>
    {hasAlert && <Alert />}
</AlertGroup>
);
"#;
    let incidents = scan_source_jsx_requires_child(source, r"^AlertGroup$", r"^Alert$");
    assert_eq!(
        incidents.len(),
        0,
        "Should see Alert inside conditional expression"
    );
}

#[test]
fn test_requires_child_sees_ternary_children() {
    // ToggleGroup has children via ternary — should NOT fire
    let source = r#"
import { ToggleGroup, ToggleGroupItem } from '@patternfly/react-core';
const el = (
<ToggleGroup>
    {isReady ? <ToggleGroupItem text="A" /> : <ToggleGroupItem text="B" />}
</ToggleGroup>
);
"#;
    let incidents =
        scan_source_jsx_requires_child(source, r"^ToggleGroup$", r"^ToggleGroupItem$");
    assert_eq!(
        incidents.len(),
        0,
        "Should see ToggleGroupItem inside ternary expression"
    );
}

#[test]
fn test_requires_child_still_fires_with_wrong_map_children() {
    // List has .map() but renders <div> not <ListItem> — SHOULD fire
    let source = r#"
import { List } from '@patternfly/react-core';
const el = (
<List>
    {items.map(item => (
        <div key={item.id}>{item.name}</div>
    ))}
</List>
);
"#;
    let incidents = scan_source_jsx_requires_child(source, r"^List$", r"^ListItem$");
    assert_eq!(
        incidents.len(),
        1,
        "Should still fire when .map() renders wrong component"
    );
}

#[test]
fn test_requires_child_sees_optional_chain_map() {
    // List has children via optional chaining ?.map() — should NOT fire
    let source = r#"
import { List, ListItem } from '@patternfly/react-core';
const el = (
<List>
    {items?.map(item => (
        <ListItem key={item.id}>{item.name}</ListItem>
    ))}
</List>
);
"#;
    let incidents = scan_source_jsx_requires_child(source, r"^List$", r"^ListItem$");
    assert_eq!(
        incidents.len(),
        0,
        "Should see ListItem inside ?.map() expression"
    );
}

#[test]
fn test_child_gate_sees_map_children() {
    // child gate should also see components inside .map()
    let source = r#"
import { AlertGroup, Alert } from '@patternfly/react-core';
const el = (
<AlertGroup>
    {items.map(item => (
        <Alert key={item.id} />
    ))}
</AlertGroup>
);
"#;
    let incidents = scan_source_jsx_child(source, r"^AlertGroup$", r"^Alert$");
    assert_eq!(
        incidents.len(),
        1,
        "child gate should see Alert inside .map() and emit parent incident"
    );
}

#[test]
fn test_not_child_sees_map_children() {
    // notChild should see components inside .map()
    let source = r#"
import { Form, FormGroup } from '@patternfly/react-core';
const el = (
<Form>
    {items.map(item => (
        <FormGroup key={item.id}>
            <input />
        </FormGroup>
    ))}
</Form>
);
"#;
    let incidents =
        scan_source_jsx_not_child(source, r"^Form$", r"^(FormGroup|FormSection|ActionGroup)$");
    assert_eq!(
        incidents.len(),
        0,
        "notChild should see FormGroup inside .map() and not emit incident"
    );
}

#[test]
fn test_requires_child_sees_array_literal_children() {
    // Tabs has children in an array literal: {[<Tab />, ...]}
    let source = r#"
import { Tabs, Tab } from '@patternfly/react-core';
const el = (
<Tabs activeKey={0}>
    {[
        <Tab key="a" eventKey="a" title="A">content A</Tab>,
        <Tab key="b" eventKey="b" title="B">content B</Tab>,
    ]}
</Tabs>
);
"#;
    let incidents = scan_source_jsx_requires_child(source, r"^Tabs$", r"^(Tab|TabTitleIcon)$");
    assert_eq!(
        incidents.len(),
        0,
        "Should see Tab inside array literal expression"
    );
}

#[test]
fn test_requires_child_sees_array_with_map() {
    // Tabs has children in array literal containing .map():
    // {[staticTab, ...items.map(i => <Tab />)]}
    let source = r#"
import { Tabs, Tab } from '@patternfly/react-core';
const el = (
<Tabs activeKey={0}>
    {[
        <Tab key="static" eventKey="static" title="Static">static</Tab>,
        ...items.map(item => (
            <Tab key={item.id} eventKey={item.id} title={item.name}>
                {item.content}
            </Tab>
        ))
    ]}
</Tabs>
);
"#;
    let incidents = scan_source_jsx_requires_child(source, r"^Tabs$", r"^(Tab|TabTitleIcon)$");
    assert_eq!(
        incidents.len(),
        0,
        "Should see Tab inside array literal with spread .map()"
    );
}

// ── Children passthrough suppression tests ─────────────────────────

#[test]
fn test_requires_child_suppressed_when_passes_children() {
    // Table passes {children} through — requiresChild should NOT fire
    // because the actual children come from the call site.
    let source = r#"
import { Table } from '@patternfly/react-table';

const TableWrapper = ({ children }) => (
<Table>
    {children}
</Table>
);
"#;
    let incidents =
        scan_source_jsx_requires_child(source, r"^Table$", r"^(Thead|Tbody|Tr|Caption)$");
    assert_eq!(
        incidents.len(),
        0,
        "requiresChild should NOT fire when component passes children through"
    );
}

#[test]
fn test_requires_child_suppressed_when_passes_props_children() {
    // Table passes {props.children} through — same suppression
    let source = r#"
import React from 'react';
import { Table } from '@patternfly/react-table';

const TableWithBatteries = React.forwardRef((props, ref) => (
<Table innerRef={ref} {...props}>
    {props.children}
</Table>
));
"#;
    let incidents =
        scan_source_jsx_requires_child(source, r"^Table$", r"^(Thead|Tbody|Tr|Caption)$");
    assert_eq!(
        incidents.len(),
        0,
        "requiresChild should NOT fire when component passes props.children through"
    );
}

#[test]
fn test_requires_child_still_fires_when_no_children_passthrough() {
    // Table has real children but none matching — should fire
    let source = r#"
import { Table } from '@patternfly/react-table';

const el = (
<Table>
    <div>not a valid child</div>
</Table>
);
"#;
    let incidents =
        scan_source_jsx_requires_child(source, r"^Table$", r"^(Thead|Tbody|Tr|Caption)$");
    assert_eq!(
        incidents.len(),
        1,
        "requiresChild should fire when no children passthrough and no matching child"
    );
}

// ── Function reference resolution tests ──────────────────────────────

#[test]
fn test_fn_ref_prop_resolves_parent_same_file() {
    // When toggle={toggle} passes a function reference as a prop,
    // JSX inside the function should see the parent component (Select).
    // The scanner finds MenuToggle twice:
    //   1. In the function definition (parentName=None)
    //   2. Via reference resolution at <Select toggle={toggle}> (parentName=Select)
    let source = r#"
import { Select, MenuToggle } from '@patternfly/react-core';

const toggle = (toggleRef) => (
<MenuToggle ref={toggleRef} onClick={onToggle}>
    Filter
</MenuToggle>
);

const el = (
<Select toggle={toggle} isOpen={isOpen}>
    <div>options</div>
</Select>
);
"#;
    let incidents = scan_source_jsx(
        source,
        r"^MenuToggle$",
        Some(ReferenceLocation::JsxComponent),
    );
    assert!(
        !incidents.is_empty(),
        "Should find MenuToggle at least once"
    );
    let resolved = incidents.iter().find(|i| {
        i.variables.get("parentName") == Some(&Json::Text("Select".to_string()))
    });
    assert!(
        resolved.is_some(),
        "Should have an incident with parentName=Select (resolved through toggle fn ref)"
    );
}

#[test]
fn test_fn_ref_prop_inline_arrow_still_works() {
    // Inline arrow functions work as well.
    let source = r#"
import { Select, MenuToggle } from '@patternfly/react-core';

const el = (
<Select toggle={(ref) => <MenuToggle ref={ref}>Filter</MenuToggle>} isOpen={isOpen}>
    <div>options</div>
</Select>
);
"#;
    let incidents = scan_source_jsx(
        source,
        r"^MenuToggle$",
        Some(ReferenceLocation::JsxComponent),
    );
    assert_eq!(incidents.len(), 1, "Should find MenuToggle");
    assert_eq!(
        incidents[0].variables.get("parentName"),
        Some(&Json::Text("Select".to_string())),
        "MenuToggle's parent should be Select (inline arrow)"
    );
}

#[test]
fn test_fn_ref_as_jsx_child_resolves_parent() {
    // When a function reference is used as a JSX child: {renderItems}
    let source = r#"
import { DropdownList, DropdownItem } from '@patternfly/react-core';

const renderItems = () => (
<DropdownItem key="1">Action</DropdownItem>
);

const el = (
<DropdownList>
    {renderItems}
</DropdownList>
);
"#;
    let incidents = scan_source_jsx(
        source,
        r"^DropdownItem$",
        Some(ReferenceLocation::JsxComponent),
    );
    assert!(
        !incidents.is_empty(),
        "Should find DropdownItem at least once"
    );
    let resolved = incidents.iter().find(|i| {
        i.variables.get("parentName")
            == Some(&Json::Text("DropdownList".to_string()))
    });
    assert!(
        resolved.is_some(),
        "Should have an incident with parentName=DropdownList (resolved through renderItems ref)"
    );
}

#[test]
fn test_fn_ref_nested_jsx_in_function() {
    // Function reference with multiple levels of JSX nesting.
    let source = r#"
import { Toolbar, ToolbarContent, ToolbarItem, Button } from '@patternfly/react-core';

const renderToolbarContent = () => (
<ToolbarContent>
    <ToolbarItem>
        <Button>Click</Button>
    </ToolbarItem>
</ToolbarContent>
);

const el = (
<Toolbar>
    {renderToolbarContent}
</Toolbar>
);
"#;
    // Check that ToolbarContent sees Toolbar as parent via fn ref resolution
    let incidents = scan_source_jsx(
        source,
        r"^ToolbarContent$",
        Some(ReferenceLocation::JsxComponent),
    );
    let resolved = incidents.iter().find(|i| {
        i.variables.get("parentName") == Some(&Json::Text("Toolbar".to_string()))
    });
    assert!(
        resolved.is_some(),
        "Should have ToolbarContent with parentName=Toolbar"
    );

    // Check that ToolbarItem sees ToolbarContent as parent (nested inside the function)
    let incidents = scan_source_jsx(
        source,
        r"^ToolbarItem$",
        Some(ReferenceLocation::JsxComponent),
    );
    let resolved = incidents.iter().find(|i| {
        i.variables.get("parentName")
            == Some(&Json::Text("ToolbarContent".to_string()))
    });
    assert!(
        resolved.is_some(),
        "Should have ToolbarItem with parentName=ToolbarContent"
    );
}

// ── Spread attribute tests ──────────────────────────────────────────

#[test]
fn test_jsx_prop_spread_object_literal() {
    // Direct object literal spread: {...{ actions, title }}
    let source = r#"
import { Modal } from '@patternfly/react-core';
const el = <Modal {...{ actions: [], title: "Hi" }}>content</Modal>;
"#;
    let incidents = scan_source_jsx(source, r"^actions$", Some(ReferenceLocation::JsxProp));
    assert_eq!(incidents.len(), 1);
    assert_eq!(
        incidents[0].variables.get("propName"),
        Some(&Json::Text("actions".to_string()))
    );
    assert_eq!(
        incidents[0].variables.get("componentName"),
        Some(&Json::Text("Modal".to_string()))
    );
    assert_eq!(
        incidents[0].variables.get("spreadSource"),
        Some(&Json::Text("true".to_string()))
    );
}

#[test]
fn test_jsx_prop_spread_conditional_and() {
    // Conditional spread with logical AND: {...(actions && { actions })}
    let source = r#"
import { Modal } from '@patternfly/react-core';
const actions = [<button>Close</button>];
const el = <Modal {...(actions && { actions })}>content</Modal>;
"#;
    let incidents = scan_source_jsx(source, r"^actions$", Some(ReferenceLocation::JsxProp));
    assert_eq!(
        incidents.len(),
        1,
        "Should detect 'actions' in conditional spread"
    );
    assert_eq!(
        incidents[0].variables.get("propName"),
        Some(&Json::Text("actions".to_string()))
    );
    assert_eq!(
        incidents[0].variables.get("spreadSource"),
        Some(&Json::Text("true".to_string()))
    );
}

#[test]
fn test_jsx_prop_spread_ternary() {
    // Ternary spread: {...(isOpen ? { actions } : {})}
    let source = r#"
import { Modal } from '@patternfly/react-core';
const isOpen = true;
const el = <Modal {...(isOpen ? { actions: [] } : {})}>content</Modal>;
"#;
    let incidents = scan_source_jsx(source, r"^actions$", Some(ReferenceLocation::JsxProp));
    assert_eq!(
        incidents.len(),
        1,
        "Should detect 'actions' in ternary spread"
    );
    assert_eq!(
        incidents[0].variables.get("propName"),
        Some(&Json::Text("actions".to_string()))
    );
}

#[test]
fn test_jsx_prop_spread_identifier_resolved() {
    // Identifier spread resolved via LocalExprMap: {...modalProps}
    let source = r#"
import { Modal } from '@patternfly/react-core';
const modalProps = { actions: [], title: "Hello", onClose: () => {} };
const el = <Modal {...modalProps}>content</Modal>;
"#;
    let incidents = scan_source_jsx(source, r"^actions$", Some(ReferenceLocation::JsxProp));
    assert_eq!(
        incidents.len(),
        1,
        "Should resolve 'actions' from modalProps variable"
    );
    assert_eq!(
        incidents[0].variables.get("propName"),
        Some(&Json::Text("actions".to_string()))
    );
    assert_eq!(
        incidents[0].variables.get("spreadSource"),
        Some(&Json::Text("true".to_string()))
    );
}

#[test]
fn test_jsx_prop_spread_identifier_multiple_props() {
    // Multiple matching props from an identifier spread
    let source = r#"
import { Modal } from '@patternfly/react-core';
const modalProps = { actions: [], title: "Hello", header: <div /> };
const el = <Modal {...modalProps}>content</Modal>;
"#;
    // Match both actions and title
    let incidents = scan_source_jsx(
        source,
        r"^(actions|title)$",
        Some(ReferenceLocation::JsxProp),
    );
    assert_eq!(incidents.len(), 2, "Should find both 'actions' and 'title'");
    let prop_names: Vec<&str> = incidents
        .iter()
        .filter_map(|i| i.variables.get("propName").and_then(|v| v.as_str()))
        .collect();
    assert!(prop_names.contains(&"actions"));
    assert!(prop_names.contains(&"title"));
}

#[test]
fn test_jsx_prop_spread_unresolvable_identifier() {
    // Unresolvable identifier spread — should NOT produce incidents
    // (avoids false positives when we can't determine what's being spread)
    let source = r#"
import { Modal } from '@patternfly/react-core';
const el = <Modal {...props}>content</Modal>;
"#;
    let incidents = scan_source_jsx(source, r"^actions$", Some(ReferenceLocation::JsxProp));
    assert!(
        incidents.is_empty(),
        "Should not produce incidents for unresolvable spread identifiers"
    );
}

#[test]
fn test_jsx_prop_spread_no_match() {
    // Spread with props that don't match the pattern
    let source = r#"
import { Modal } from '@patternfly/react-core';
const el = <Modal {...{ title: "Hi", onClose: () => {} }}>content</Modal>;
"#;
    let incidents = scan_source_jsx(source, r"^actions$", Some(ReferenceLocation::JsxProp));
    assert!(
        incidents.is_empty(),
        "Should not match when spread doesn't contain the target prop"
    );
}

#[test]
fn test_jsx_prop_spread_with_module() {
    // Verify spread incidents include the module from import_map
    let source = r#"
import { Modal } from '@patternfly/react-core';
const el = <Modal {...{ actions: [] }}>content</Modal>;
"#;
    let incidents = scan_source_jsx(source, r"^actions$", Some(ReferenceLocation::JsxProp));
    assert_eq!(incidents.len(), 1);
    assert_eq!(
        incidents[0].variables.get("module"),
        Some(&Json::Text(
            "@patternfly/react-core".to_string()
        ))
    );
}

#[test]
fn test_jsx_prop_spread_coexists_with_direct_prop() {
    // Both a direct prop and a spread prop matching the same pattern
    // should produce two incidents
    let source = r#"
import { Modal } from '@patternfly/react-core';
const el = <Modal title="direct" {...{ actions: [] }}>content</Modal>;
"#;
    let incidents = scan_source_jsx(
        source,
        r"^(title|actions)$",
        Some(ReferenceLocation::JsxProp),
    );
    assert_eq!(
        incidents.len(),
        2,
        "Should find both direct prop and spread prop"
    );
    let direct = incidents
        .iter()
        .find(|i| !i.variables.get("spreadSource").is_some());
    let spread = incidents
        .iter()
        .find(|i| i.variables.get("spreadSource").is_some());
    assert!(direct.is_some(), "Should have a direct prop incident");
    assert!(spread.is_some(), "Should have a spread prop incident");
}

#[test]
fn test_jsx_prop_spread_nested_in_component() {
    // Spread inside a component function body
    let source = r#"
import { Modal } from '@patternfly/react-core';
const MyComponent = () => {
const opts = { actions: [], title: "Hi" };
return <Modal {...opts}>content</Modal>;
};
"#;
    let incidents = scan_source_jsx(source, r"^actions$", Some(ReferenceLocation::JsxProp));
    assert_eq!(
        incidents.len(),
        1,
        "Should resolve spread from variable inside component body"
    );
}

#[test]
fn test_jsx_prop_spread_location_none_also_scans() {
    // When location is None (scan all), spread props should still be found
    let source = r#"
import { Modal } from '@patternfly/react-core';
const el = <Modal {...{ actions: [] }}>content</Modal>;
"#;
    let incidents = scan_source_jsx(source, r"^actions$", None);
    let spread_incident = incidents.iter().find(|i| {
        i.variables.get("spreadSource") == Some(&Json::Text("true".to_string()))
    });
    assert!(
        spread_incident.is_some(),
        "Should find spread props when location is None"
    );
}

#[test]
fn test_jsx_prop_spread_shorthand_property() {
    // Shorthand property in spread: {...{ actions }} (key === value)
    let source = r#"
import { Modal } from '@patternfly/react-core';
const actions = [<button>OK</button>];
const el = <Modal {...{ actions }}>content</Modal>;
"#;
    let incidents = scan_source_jsx(source, r"^actions$", Some(ReferenceLocation::JsxProp));
    assert_eq!(
        incidents.len(),
        1,
        "Should detect shorthand property in spread"
    );
    assert_eq!(
        incidents[0].variables.get("propName"),
        Some(&Json::Text("actions".to_string()))
    );
}

// ── Function call spread tests ──────────────────────────────────────

#[test]
fn test_jsx_prop_spread_local_fn_call_concise_arrow() {
    // Concise arrow returning object: const getProps = () => ({ actions })
    let source = r#"
import { Modal } from '@patternfly/react-core';
const getProps = () => ({ actions: [], title: "Hi" });
const el = <Modal {...getProps()}>content</Modal>;
"#;
    let incidents = scan_source_jsx(source, r"^actions$", Some(ReferenceLocation::JsxProp));
    assert_eq!(
        incidents.len(),
        1,
        "Should extract 'actions' from concise arrow return"
    );
    assert_eq!(
        incidents[0].variables.get("spreadSource"),
        Some(&Json::Text("true".to_string()))
    );
}

#[test]
fn test_jsx_prop_spread_local_fn_call_block_body() {
    // Block body with return statement
    let source = r#"
import { Modal } from '@patternfly/react-core';
const getProps = () => {
return { actions: [], title: "Hi" };
};
const el = <Modal {...getProps()}>content</Modal>;
"#;
    let incidents = scan_source_jsx(source, r"^actions$", Some(ReferenceLocation::JsxProp));
    assert_eq!(
        incidents.len(),
        1,
        "Should extract 'actions' from block body return"
    );
}

#[test]
fn test_jsx_prop_spread_local_fn_call_function_expression() {
    // function expression (not arrow)
    let source = r#"
import { Modal } from '@patternfly/react-core';
const getProps = function() { return { actions: [] }; };
const el = <Modal {...getProps()}>content</Modal>;
"#;
    let incidents = scan_source_jsx(source, r"^actions$", Some(ReferenceLocation::JsxProp));
    assert_eq!(
        incidents.len(),
        1,
        "Should extract 'actions' from function expression return"
    );
}

#[test]
fn test_jsx_prop_spread_local_fn_call_no_match() {
    // Function returns object but doesn't contain the target prop
    let source = r#"
import { Modal } from '@patternfly/react-core';
const getProps = () => ({ title: "Hi" });
const el = <Modal {...getProps()}>content</Modal>;
"#;
    let incidents = scan_source_jsx(source, r"^actions$", Some(ReferenceLocation::JsxProp));
    assert!(
        incidents.is_empty(),
        "Should not match when function return doesn't contain target prop"
    );
}

#[test]
fn test_jsx_prop_spread_local_fn_call_unresolvable() {
    // Function not in local scope — should not produce incidents
    let source = r#"
import { Modal } from '@patternfly/react-core';
const el = <Modal {...unknownFn()}>content</Modal>;
"#;
    let incidents = scan_source_jsx(source, r"^actions$", Some(ReferenceLocation::JsxProp));
    assert!(
        incidents.is_empty(),
        "Should not produce incidents for unresolvable function calls"
    );
}

#[test]
fn test_jsx_prop_spread_local_identifier_fn_return() {
    // Identifier spread where the local variable is a function —
    // should extract return object props
    let source = r#"
import { Modal } from '@patternfly/react-core';
const getProps = () => ({ actions: [], title: "Hi" });
const el = <Modal {...getProps}>content</Modal>;
"#;
    // Note: {...getProps} spreads the function itself, not its return value.
    // This should NOT match — the function is spread, not called.
    let incidents = scan_source_jsx(source, r"^actions$", Some(ReferenceLocation::JsxProp));
    // Function spread extracts return object props (since that's what
    // the consumer likely means when spreading a function reference)
    assert_eq!(
        incidents.len(),
        1,
        "Should extract return object props from function identifier spread"
    );
}

#[test]
fn test_jsx_prop_spread_parenthesized_return() {
    // Parenthesized return: return ({ actions })
    let source = r#"
import { Modal } from '@patternfly/react-core';
const getProps = () => {
return ({ actions: [], title: "Hi" });
};
const el = <Modal {...getProps()}>content</Modal>;
"#;
    let incidents = scan_source_jsx(source, r"^actions$", Some(ReferenceLocation::JsxProp));
    assert_eq!(
        incidents.len(),
        1,
        "Should handle parenthesized return expression"
    );
}
