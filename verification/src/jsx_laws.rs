//! What holds of everything that a scan for JSX reports.

use crate::capabilities::ReferenceLocation;
use crate::estree::{child, children, extent, type_is, Role, WorkV};
use crate::incident::IncidentV;
use crate::json::JsonV;
use crate::jsx::{
    export_bound, export_works, followed_hits, foreign_hits, foreign_left, hits, hits_in,
    local_hits, local_left, no_trail, own_hits, plan, referred_name, statement_hits, within,
    RenderV, TrailV,
};
use crate::jsx_children::{
    bound_of, called_name, child_components, element_name, name_node, plan_function,
};
use crate::jsx_context::{annotation, props_type, typed_prop, typed_props, JsxV};
use crate::jsx_element::{
    attribute_name, attribute_object, child_incident, component_hits, component_incident,
    element_hits, key_hits, key_incident, prop_hits, prop_incident, property_hits, spread_hits,
    spread_incidents, strangers,
};
use crate::lookup::{lemma_name_seen, named};
use crate::object_props::{key_prop, spread_props, PropV};
use crate::pattern::regex_accepts;
use vstd::prelude::*;

verus! {

/// Whether an incident names a component.
pub open spec fn names_component(i: IncidentV) -> bool {
    i.variables.dom().contains("componentName"@)
}

/// Whether an incident names a prop.
pub open spec fn names_prop(i: IncidentV) -> bool {
    i.variables.dom().contains("propName"@)
}

/// Whether an incident is one that a scan may report: it lies in the file and names a component.
/// Where components are looked for, it names no prop; where props are looked for, it names one.
/// Where neither are looked for there is none.
pub open spec fn is_proper(i: IncidentV, jsx: JsxV) -> bool {
    &&& i.file_uri == jsx.file_uri
    &&& names_component(i)
    &&& match jsx.location {
        None => true,
        Some(ReferenceLocation::JsxComponent) => !names_prop(i),
        Some(ReferenceLocation::JsxProp) => names_prop(i),
        Some(_) => false,
    }
}

/// Whether all of some incidents may be reported.
pub open spec fn all_proper(s: Seq<IncidentV>, jsx: JsxV) -> bool {
    forall|k: int| 0 <= k < s.len() ==> is_proper(#[trigger] s[k], jsx)
}

/// Whether an incident is a prop's.
spec fn is_prop(i: IncidentV, jsx: JsxV) -> bool {
    i.file_uri == jsx.file_uri && names_component(i) && names_prop(i)
}

/// Whether an incident is a component's.
spec fn is_component(i: IncidentV, jsx: JsxV) -> bool {
    i.file_uri == jsx.file_uri && names_component(i) && !names_prop(i)
}

/// Whether all of some incidents are props'.
spec fn all_prop(s: Seq<IncidentV>, jsx: JsxV) -> bool {
    forall|k: int| 0 <= k < s.len() ==> is_prop(#[trigger] s[k], jsx)
}

/// Whether all of some incidents are components'.
spec fn all_component(s: Seq<IncidentV>, jsx: JsxV) -> bool {
    forall|k: int| 0 <= k < s.len() ==> is_component(#[trigger] s[k], jsx)
}

proof fn lemma_names()
    ensures
        "propName"@ != "componentName"@,
        "propName"@ != "module"@,
        "propName"@ != "parentName"@,
        "propName"@ != "parentFrom"@,
{
    reveal_strlit("propName");
    reveal_strlit("componentName");
    reveal_strlit("module");
    reveal_strlit("parentName");
    reveal_strlit("parentFrom");
    assert("propName"@.len() == 8);
    assert("componentName"@.len() == 13);
    assert("module"@.len() == 6);
    assert("parentName"@.len() == 10);
    assert("parentFrom"@.len() == 10);
}

proof fn lemma_strangers(
    components: Seq<PropV>,
    n: int,
    pattern: Seq<char>,
    parent: Seq<char>,
    jsx: JsxV,
)
    ensures
        all_component(strangers(components, n, pattern, parent, jsx), jsx),
    decreases n,
{
    lemma_names();
    if 0 < n <= components.len() {
        lemma_strangers(components, n - 1, pattern, parent, jsx);
        let before = strangers(components, n - 1, pattern, parent, jsx);
        if !regex_accepts(pattern, components[n - 1].name) {
            let hit = child_incident(components[n - 1], parent, jsx);
            assert(is_component(hit, jsx));
            assert(strangers(components, n, pattern, parent, jsx) == before.push(hit));
        }
    }
}

proof fn lemma_component_hits(el: JsonV, parent: Option<Seq<char>>, jsx: JsxV)
    ensures
        all_proper(component_hits(el, parent, jsx), jsx),
{
    lemma_names();
    let components = child_components(el, jsx.scope.locals);
    let name = element_name(name_node(el));
    if let Some(p) = jsx.not_child {
        lemma_strangers(components, components.len() as int, p, name, jsx);
    }
    assert(is_component(component_incident(el, parent, jsx), jsx));
}

proof fn lemma_prop_hits(attributes: Seq<JsonV>, n: int, component: Seq<char>, jsx: JsxV)
    ensures
        all_prop(prop_hits(attributes, n, component, jsx), jsx),
    decreases n,
{
    if 0 < n <= attributes.len() {
        lemma_prop_hits(attributes, n - 1, component, jsx);
        let before = prop_hits(attributes, n - 1, component, jsx);
        if let Some(name) = attribute_name(attributes[n - 1]) {
            if jsx.accepts(name) {
                let hit = prop_incident(attributes[n - 1], name, component, jsx);
                assert(is_prop(hit, jsx));
                assert(prop_hits(attributes, n, component, jsx) == before.push(hit));
            }
        }
    }
}

proof fn lemma_property_hits(properties: Seq<JsonV>, n: int, component: Seq<char>, jsx: JsxV)
    ensures
        all_prop(property_hits(properties, n, component, jsx), jsx),
    decreases n,
{
    if 0 < n <= properties.len() {
        lemma_property_hits(properties, n - 1, component, jsx);
        let before = property_hits(properties, n - 1, component, jsx);
        if let Some(key) = key_prop(properties[n - 1]) {
            if jsx.accepts(key.name) {
                let hit = key_incident(key, component, jsx);
                assert(is_prop(hit, jsx));
                assert(property_hits(properties, n, component, jsx) == before.push(hit));
            }
        }
    }
}

proof fn lemma_key_hits(attributes: Seq<JsonV>, n: int, component: Seq<char>, jsx: JsxV)
    ensures
        all_prop(key_hits(attributes, n, component, jsx), jsx),
    decreases n,
{
    if 0 < n <= attributes.len() {
        lemma_key_hits(attributes, n - 1, component, jsx);
        let before = key_hits(attributes, n - 1, component, jsx);
        if let Some(object) = attribute_object(attributes[n - 1]) {
            let properties = children(object, "properties"@);
            lemma_property_hits(properties, properties.len() as int, component, jsx);
            assert(key_hits(attributes, n, component, jsx) == before + property_hits(
                properties,
                properties.len() as int,
                component,
                jsx,
            ));
        } else {
            assert(key_hits(attributes, n, component, jsx) == before);
        }
    }
}

proof fn lemma_spread_incidents(props: Seq<PropV>, n: int, component: Seq<char>, jsx: JsxV)
    ensures
        all_prop(spread_incidents(props, n, component, jsx), jsx),
    decreases n,
{
    if 0 < n <= props.len() {
        lemma_spread_incidents(props, n - 1, component, jsx);
        let before = spread_incidents(props, n - 1, component, jsx);
        let p = props[n - 1];
        if jsx.accepts(p.name) {
            let hit = jsx.with_module(
                jsx.at(p.start, p.end).with_text("propName"@, p.name).with_text(
                    "componentName"@,
                    component,
                ).with_text("spreadSource"@, "true"@),
                "module"@,
                component,
            );
            assert(is_prop(hit, jsx));
            assert(spread_incidents(props, n, component, jsx) == before.push(hit));
        }
    }
}

proof fn lemma_spread_hits(attributes: Seq<JsonV>, n: int, component: Seq<char>, jsx: JsxV)
    ensures
        all_prop(spread_hits(attributes, n, component, jsx), jsx),
    decreases n,
{
    if 0 < n <= attributes.len() {
        lemma_spread_hits(attributes, n - 1, component, jsx);
        let props = spread_props(child(attributes[n - 1], "argument"@), jsx.scope);
        lemma_spread_incidents(props, props.len() as int, component, jsx);
        let before = spread_hits(attributes, n - 1, component, jsx);
        if type_is(attributes[n - 1], "JSXSpreadAttribute"@) {
            assert(spread_hits(attributes, n, component, jsx) == before + spread_incidents(
                props,
                props.len() as int,
                component,
                jsx,
            ));
        }
    }
}

proof fn lemma_element_hits(el: JsonV, parent: Option<Seq<char>>, jsx: JsxV)
    ensures
        all_proper(element_hits(el, parent, jsx), jsx),
{
    let name = element_name(name_node(el));
    let attributes = children(child(el, "openingElement"@), "attributes"@);
    let n = attributes.len() as int;
    lemma_component_hits(el, parent, jsx);
    lemma_prop_hits(attributes, n, name, jsx);
    lemma_key_hits(attributes, n, name, jsx);
    lemma_spread_hits(attributes, n, name, jsx);
}

proof fn lemma_typed_props(
    properties: Seq<JsonV>,
    n: int,
    component: Seq<char>,
    module: Seq<char>,
    jsx: JsxV,
)
    ensures
        all_prop(typed_props(properties, n, component, module, jsx), jsx),
    decreases n,
{
    if 0 < n <= properties.len() {
        lemma_typed_props(properties, n - 1, component, module, jsx);
        let before = typed_props(properties, n - 1, component, module, jsx);
        if let Some(key) = key_prop(properties[n - 1]) {
            if jsx.accepts(key.name) {
                let hit = typed_prop(properties[n - 1], key, component, module, jsx);
                assert(is_prop(hit, jsx));
                assert(typed_props(properties, n, component, module, jsx) == before.push(hit));
            }
        }
    }
}

proof fn lemma_own_hits(w: RenderV, jsx: JsxV)
    ensures
        all_proper(own_hits(w, jsx), jsx),
{
    lemma_element_hits(w.work.node, w.parent, jsx);
    let properties = children(child(w.work.node, "init"@), "properties"@);
    if let Some((component, module)) = props_type(
        annotation(w.work.node),
        jsx.source,
        jsx.scope.imports,
    ) {
        lemma_typed_props(properties, properties.len() as int, component, module, jsx);
    }
}

proof fn lemma_hits(w: RenderV, jsx: JsxV, trail: TrailV)
    ensures
        all_proper(hits(w, jsx, trail), jsx),
    decreases local_left(jsx, trail), foreign_left(jsx, trail), extent(w.work), 2nat, 0nat,
{
    lemma_own_hits(w, jsx);
    lemma_followed(w, jsx, trail);
    lemma_hits_in(plan(w, jsx), plan(w, jsx).len(), extent(w.work), jsx, trail);
}

proof fn lemma_followed(w: RenderV, jsx: JsxV, trail: TrailV)
    ensures
        all_proper(followed_hits(w, jsx, trail), jsx),
    decreases local_left(jsx, trail), foreign_left(jsx, trail), extent(w.work), 1nat, 0nat,
{
    if let Some(name) = referred_name(w.work) {
        lemma_local(name, w, jsx, trail);
        lemma_foreign(name, w, jsx, trail);
    } else if let Some(name) = called_name(w.work) {
        lemma_local(name, w, jsx, trail);
    }
}

proof fn lemma_local(name: Seq<char>, w: RenderV, jsx: JsxV, trail: TrailV)
    ensures
        all_proper(local_hits(name, w, jsx, trail), jsx),
    decreases local_left(jsx, trail), foreign_left(jsx, trail), extent(w.work), 0nat, 0nat,
{
    if let Some(f) = named(jsx.scope.locals, name) {
        if !trail.local.contains(name) {
            lemma_name_seen(jsx.scope.locals, trail.local, name);
            let body = plan_function(f);
            lemma_hits_in(
                within(body, w.parent),
                body.len(),
                bound_of(f),
                jsx,
                TrailV { local: trail.local.push(name), foreign: Seq::empty() },
            );
        }
    }
}

proof fn lemma_foreign(name: Seq<char>, w: RenderV, jsx: JsxV, trail: TrailV)
    ensures
        all_proper(foreign_hits(name, w, jsx, trail), jsx),
    decreases local_left(jsx, trail), foreign_left(jsx, trail), extent(w.work), 0nat, 0nat,
{
    if named(jsx.scope.imports, name) is Some && !trail.foreign.contains(name) {
        lemma_name_seen(jsx.scope.imports, trail.foreign, name);
        let found = jsx.scope.exported_by_index(name);
        let ws = export_works(found, found.len() as int);
        lemma_hits_in(
            within(ws, w.parent),
            ws.len(),
            export_bound(found, found.len() as int),
            jsx,
            TrailV { local: trail.local, foreign: trail.foreign.push(name) },
        );
    }
}

proof fn lemma_hits_in(ws: Seq<RenderV>, n: nat, bound: nat, jsx: JsxV, trail: TrailV)
    ensures
        all_proper(hits_in(ws, n, bound, jsx, trail), jsx),
    decreases local_left(jsx, trail), foreign_left(jsx, trail), bound, 0nat, n,
{
    if !(n == 0 || n > ws.len() || extent(ws[n - 1].work) >= bound) {
        lemma_hits_in(ws, (n - 1) as nat, bound, jsx, trail);
        lemma_hits(ws[n - 1], jsx, trail);
    }
}

/// Everything that a scan reports lies in the file that is scanned and names a component. A scan
/// for components reports no props, a scan for props nothing else, and a scan for anything else
/// nothing at all.
pub proof fn law_scan_reports(stmts: Seq<JsonV>, n: int, jsx: JsxV)
    ensures
        all_proper(statement_hits(stmts, n, jsx), jsx),
    decreases n,
{
    if 0 < n <= stmts.len() {
        law_scan_reports(stmts, n - 1, jsx);
        lemma_hits(
            RenderV {
                work: WorkV {
                    role: Role::Statement,
                    node: stmts[n - 1],
                },
                parent: None,
            },
            jsx,
            no_trail(),
        );
    }
}

} // verus!
