//! The incidents of a single JSX element: the component itself, its props, and the props that are
//! spread over it.

use crate::capabilities::ReferenceLocation;
use crate::estree::{
    child, children, get_children, get_children_in, get_identifier, get_number, get_string_literal,
    get_text, has_type, identifier, is_static_member, is_type, node_models, number_field,
    check_static_member, string_literal, text_field, type_is,
};
use crate::incident::{incident_models, push_incident, Incident, IncidentV};
use crate::json::{Json, JsonV};
use crate::jsx_children::{
    child_components, collect_child_components, element_name, get_named_element, name_node,
    named_element,
};
use crate::jsx_context::{parent_view, set_strings, wants, with_strings, JsxScan, JsxV};

use crate::object_props::{
    attribute_strings, extract_object_string_values, extract_spread_prop_names, get_key_prop,
    key_prop, prop_models, spread_props, Prop, PropV,
};
use crate::pattern::{regex_accepts, regex_source};
use crate::scanner::make_incident;
use crate::spans::{slice_within, text_within};
use crate::text::{same, trim, trimmed};
use vstd::prelude::*;

verus! {

/// Whether the expression in a JSX child is `children` or `props.children`.
pub open spec fn is_passthrough(v: JsonV) -> bool {
    if identifier(v) is Some {
        identifier(v) == Some("children"@)
    } else {
        is_static_member(v) && text_field(child(v, "property"@), "name"@) == Some("children"@)
            && identifier(child(v, "object"@)) == Some("props"@)
    }
}

/// Whether one of the first `n` children hands on the children of the component around it.
pub open spec fn passes_through(list: Seq<JsonV>, n: int) -> bool
    decreases n,
{
    if n <= 0 || n > list.len() {
        false
    } else {
        passes_through(list, n - 1) || (type_is(list[n - 1], "JSXExpressionContainer"@)
            && is_passthrough(child(list[n - 1], "expression"@)))
    }
}

/// Whether one of the first `n` components has a name that matches.
pub open spec fn any_matches(components: Seq<PropV>, n: int, pattern: Seq<char>) -> bool
    decreases n,
{
    if n <= 0 || n > components.len() {
        false
    } else {
        any_matches(components, n - 1, pattern) || regex_accepts(pattern, components[n - 1].name)
    }
}

/// The incident for a component.
pub open spec fn component_incident(
    el: JsonV,
    parent: Option<Seq<char>>,
    jsx: JsxV,
) -> IncidentV {
    let own = named_element(el);
    let base = jsx.with_module(
        jsx.at(own.start, own.end).with_text("componentName"@, own.name),
        "module"@,
        own.name,
    );
    match parent {
        Some(p) => jsx.with_module(base.with_text("parentName"@, p), "parentFrom"@, p),
        None => base,
    }
}

/// The incident for a component that is found among the children of another.
pub open spec fn child_incident(c: PropV, parent: Seq<char>, jsx: JsxV) -> IncidentV {
    jsx.with_module(
        jsx.with_module(
            jsx.at(c.start, c.end).with_text("componentName"@, c.name).with_text(
                "parentName"@,
                parent,
            ),
            "module"@,
            c.name,
        ),
        "parentFrom"@,
        parent,
    )
}

/// The incidents for those of the first `n` components whose name does not match.
pub open spec fn strangers(
    components: Seq<PropV>,
    n: int,
    pattern: Seq<char>,
    parent: Seq<char>,
    jsx: JsxV,
) -> Seq<IncidentV>
    decreases n,
{
    if n <= 0 || n > components.len() {
        Seq::empty()
    } else {
        let before = strangers(components, n - 1, pattern, parent, jsx);
        if regex_accepts(pattern, components[n - 1].name) {
            before
        } else {
            before.push(child_incident(components[n - 1], parent, jsx))
        }
    }
}

/// The incidents for a component and its children.
///
/// Without a condition on its children the component is reported; with `child` only if one of
/// them matches. With `requires_child` it is reported if none matches, and with `not_child` each
/// child is that does not match, unless the component hands on children of its own.
pub open spec fn component_hits(el: JsonV, parent: Option<Seq<char>>, jsx: JsxV) -> Seq<IncidentV> {
    let own = named_element(el);
    let found = component_incident(el, parent, jsx);
    let components = child_components(el, jsx.scope.locals);
    let n = components.len() as int;
    let nodes = children(el, "children"@);
    let handed_on = passes_through(nodes, nodes.len() as int);
    if !jsx.wants_components() || !jsx.accepts(own.name) {
        Seq::empty()
    } else {
        (if jsx.not_child is None && jsx.requires_child is None && (jsx.child matches Some(p)
            ==> any_matches(components, n, p)) {
            seq![found]
        } else {
            Seq::empty()
        }) + (match jsx.requires_child {
            Some(p) => if !any_matches(components, n, p) && !handed_on {
                seq![found]
            } else {
                Seq::empty()
            },
            None => Seq::empty(),
        }) + (match jsx.not_child {
            Some(p) => if !handed_on {
                strangers(components, n, p, own.name, jsx)
            } else {
                Seq::empty()
            },
            None => Seq::empty(),
        })
    }
}

/// The value of a JSX attribute, as far as it can be told.
pub open spec fn attribute_value(value: JsonV, source: Seq<char>) -> Option<Seq<char>> {
    let expr = child(value, "expression"@);
    let start = number_field(value, "start"@);
    let end = number_field(value, "end"@);
    if string_literal(value) is Some {
        string_literal(value)
    } else if type_is(value, "JSXExpressionContainer"@) {
        if is_static_member(expr) && text_field(child(expr, "property"@), "name"@) is Some {
            text_field(child(expr, "property"@), "name"@)
        } else {
            Some(trimmed(inner_text(source, start, end)))
        }
    } else {
        None
    }
}

/// The text between two offsets without its first and its last byte.
pub open spec fn inner_text(source: Seq<char>, start: u32, end: u32) -> Seq<char> {
    text_within(
        source,
        if start < u32::MAX {
            start + 1
        } else {
            start as int
        },
        if end > 0 {
            end - 1
        } else {
            0
        },
    )
}

/// The incident, with the value of a JSX attribute.
pub open spec fn with_value(i: IncidentV, value: JsonV, jsx: JsxV) -> IncidentV {
    let valued = match attribute_value(value, jsx.source) {
        Some(text) => i.with_text("propValue"@, text),
        None => i,
    };
    if type_is(value, "JSXExpressionContainer"@) {
        with_strings(valued, attribute_strings(child(value, "expression"@)))
    } else {
        valued
    }
}

/// The name of an attribute, where it is a plain one.
pub open spec fn attribute_name(a: JsonV) -> Option<Seq<char>> {
    if type_is(a, "JSXAttribute"@) && type_is(child(a, "name"@), "JSXIdentifier"@) {
        text_field(child(a, "name"@), "name"@)
    } else {
        None
    }
}

/// The incident for a prop.
pub open spec fn prop_incident(
    a: JsonV,
    name: Seq<char>,
    component: Seq<char>,
    jsx: JsxV,
) -> IncidentV {
    let ident = child(a, "name"@);
    let base = jsx.at(number_field(ident, "start"@), number_field(ident, "end"@)).with_text(
        "propName"@,
        name,
    ).with_text("componentName"@, component);
    jsx.with_module(with_value(base, child(a, "value"@), jsx), "module"@, component)
}

/// The incidents for those of the first `n` attributes whose name matches.
pub open spec fn prop_hits(attributes: Seq<JsonV>, n: int, component: Seq<char>, jsx: JsxV) -> Seq<
    IncidentV,
>
    decreases n,
{
    if n <= 0 || n > attributes.len() {
        Seq::empty()
    } else {
        let before = prop_hits(attributes, n - 1, component, jsx);
        match attribute_name(attributes[n - 1]) {
            Some(name) => if jsx.accepts(name) {
                before.push(prop_incident(attributes[n - 1], name, component, jsx))
            } else {
                before
            },
            None => before,
        }
    }
}

/// The object expression that is the value of an attribute, parenthesised or not.
pub open spec fn attribute_object(a: JsonV) -> Option<JsonV> {
    let expr = child(child(a, "value"@), "expression"@);
    if !type_is(a, "JSXAttribute"@) || !type_is(child(a, "value"@), "JSXExpressionContainer"@) {
        None
    } else if type_is(expr, "ObjectExpression"@) {
        Some(expr)
    } else if type_is(expr, "ParenthesizedExpression"@) && type_is(
        child(expr, "expression"@),
        "ObjectExpression"@,
    ) {
        Some(child(expr, "expression"@))
    } else {
        None
    }
}

/// The incident for a property name.
pub open spec fn key_incident(key: PropV, component: Seq<char>, jsx: JsxV) -> IncidentV {
    jsx.with_module(
        jsx.at(key.start, key.end).with_text("propName"@, key.name).with_text(
            "componentName"@,
            component,
        ),
        "module"@,
        component,
    )
}

/// The incidents for those of the first `n` properties whose name matches.
pub open spec fn property_hits(
    properties: Seq<JsonV>,
    n: int,
    component: Seq<char>,
    jsx: JsxV,
) -> Seq<IncidentV>
    decreases n,
{
    if n <= 0 || n > properties.len() {
        Seq::empty()
    } else {
        let before = property_hits(properties, n - 1, component, jsx);
        match key_prop(properties[n - 1]) {
            Some(key) => if jsx.accepts(key.name) {
                before.push(key_incident(key, component, jsx))
            } else {
                before
            },
            None => before,
        }
    }
}

/// The incidents for the property names in the values of the first `n` attributes.
pub open spec fn key_hits(attributes: Seq<JsonV>, n: int, component: Seq<char>, jsx: JsxV) -> Seq<
    IncidentV,
>
    decreases n,
{
    if n <= 0 || n > attributes.len() {
        Seq::empty()
    } else {
        key_hits(attributes, n - 1, component, jsx) + (match attribute_object(attributes[n - 1]) {
            Some(object) => {
                let properties = children(object, "properties"@);
                property_hits(properties, properties.len() as int, component, jsx)
            },
            None => Seq::empty(),
        })
    }
}

/// The incidents for those of the first `n` spread props whose name matches.
pub open spec fn spread_incidents(props: Seq<PropV>, n: int, component: Seq<char>, jsx: JsxV) -> Seq<
    IncidentV,
>
    decreases n,
{
    if n <= 0 || n > props.len() {
        Seq::empty()
    } else {
        let before = spread_incidents(props, n - 1, component, jsx);
        let p = props[n - 1];
        if jsx.accepts(p.name) {
            before.push(
                jsx.with_module(
                    jsx.at(p.start, p.end).with_text("propName"@, p.name).with_text(
                        "componentName"@,
                        component,
                    ).with_text("spreadSource"@, "true"@),
                    "module"@,
                    component,
                ),
            )
        } else {
            before
        }
    }
}

/// The incidents for what the first `n` attributes spread.
pub open spec fn spread_hits(attributes: Seq<JsonV>, n: int, component: Seq<char>, jsx: JsxV) -> Seq<
    IncidentV,
>
    decreases n,
{
    if n <= 0 || n > attributes.len() {
        Seq::empty()
    } else {
        let before = spread_hits(attributes, n - 1, component, jsx);
        if type_is(attributes[n - 1], "JSXSpreadAttribute"@) {
            let props = spread_props(child(attributes[n - 1], "argument"@), jsx.scope);
            before + spread_incidents(props, props.len() as int, component, jsx)
        } else {
            before
        }
    }
}

/// The incidents of an element itself: the component, then its props, the keys in their values,
/// and what is spread.
pub open spec fn element_hits(el: JsonV, parent: Option<Seq<char>>, jsx: JsxV) -> Seq<IncidentV> {
    let name = element_name(name_node(el));
    let attributes = children(child(el, "openingElement"@), "attributes"@);
    let n = attributes.len() as int;
    component_hits(el, parent, jsx) + (if jsx.wants_props() {
        prop_hits(attributes, n, name, jsx) + key_hits(attributes, n, name, jsx) + spread_hits(
            attributes,
            n,
            name,
            jsx,
        )
    } else {
        Seq::empty()
    })
}

/// Check if a JSX expression is a `{children}` or `{props.children}` passthrough: the actual
/// children are provided at the call site, not at the definition site.
fn is_children_passthrough_expression(v: &Json) -> (r: bool)
    ensures
        r == is_passthrough(v@),
{
    if let Some(name) = get_identifier(v) {
        return same(name, "children");
    }
    if !check_static_member(v) {
        return false;
    }
    match (v.get("property"), v.get("object")) {
        (Some(property), Some(object)) => match (get_text(property, "name"), get_identifier(
            object,
        )) {
            (Some(p), Some(o)) => same(p, "children") && same(o, "props"),
            _ => false,
        },
        _ => false,
    }
}

fn hands_on_children(el: &Json) -> (r: bool)
    ensures
        r == passes_through(children(el@, "children"@), children(el@, "children"@).len() as int),
{
    let list = get_children(el, "children");
    let ghost all = children(el@, "children"@);
    let mut found = false;
    let mut i: usize = 0;
    while i < list.len()
        invariant
            i <= list@.len(),
            all == node_models(list@),
            found == passes_through(all, i as int),
        decreases list.len() - i,
    {
        assert(all[i as int] == list@[i as int]@);
        if is_type(list[i], "JSXExpressionContainer") {
            if let Some(expr) = list[i].get("expression") {
                if is_children_passthrough_expression(expr) {
                    found = true;
                }
            }
        }
        i = i + 1;
    }
    found
}

fn has_match(components: &Vec<Prop>, pattern: &regex::Regex) -> (r: bool)
    ensures
        r == any_matches(
            prop_models(components@),
            components@.len() as int,
            regex_source(*pattern),
        ),
{
    let ghost all = prop_models(components@);
    let ghost p = regex_source(*pattern);
    let mut found = false;
    let mut i: usize = 0;
    while i < components.len()
        invariant
            i <= components@.len(),
            all == prop_models(components@),
            p == regex_source(*pattern),
            found == any_matches(all, i as int, p),
        decreases components.len() - i,
    {
        assert(all[i as int] == components@[i as int]@);
        if pattern.is_match(components[i].name.as_str()) {
            found = true;
        }
        i = i + 1;
    }
    found
}

fn set_module(incident: &mut Incident, key: &str, name: &str, scan: &JsxScan<'_>)
    ensures
        final(incident)@ == scan@.with_module(old(incident)@, key@, name@),
{
    if let Some(module) = scan.scope.imports.get(name) {
        incident.set_text(key, module);
    }
}

fn make_component_incident(own: &Prop, parent: Option<&str>, scan: &JsxScan<'_>, Ghost(el): Ghost<
    JsonV,
>) -> (r: Incident)
    requires
        own@ == named_element(el),
    ensures
        r@ == component_incident(el, parent_view(parent), scan@),
{
    let mut incident = make_incident(scan.source, scan.file_uri, own.start, own.end);
    incident.set_text("componentName", own.name.as_str());
    set_module(&mut incident, "module", own.name.as_str(), scan);
    if let Some(p) = parent {
        incident.set_text("parentName", p);
        set_module(&mut incident, "parentFrom", p, scan);
    }
    incident
}

fn add_strangers(
    components: &Vec<Prop>,
    pattern: &regex::Regex,
    parent: &str,
    scan: &JsxScan<'_>,
    out: &mut Vec<Incident>,
)
    ensures
        incident_models(final(out)@) == incident_models(old(out)@) + strangers(
            prop_models(components@),
            components@.len() as int,
            regex_source(*pattern),
            parent@,
            scan@,
        ),
{
    let ghost all = prop_models(components@);
    let ghost p = regex_source(*pattern);
    let ghost jsx = scan@;
    let ghost before = incident_models(out@);
    let mut i: usize = 0;
    assert(before + strangers(all, 0, p, parent@, jsx) =~= before);
    while i < components.len()
        invariant
            i <= components@.len(),
            all == prop_models(components@),
            p == regex_source(*pattern),
            jsx == scan@,
            incident_models(out@) == before + strangers(all, i as int, p, parent@, jsx),
        decreases components.len() - i,
    {
        let c = &components[i];
        assert(all[i as int] == c@);
        if !pattern.is_match(c.name.as_str()) {
            let mut incident = make_incident(scan.source, scan.file_uri, c.start, c.end);
            incident.set_text("componentName", c.name.as_str());
            incident.set_text("parentName", parent);
            set_module(&mut incident, "module", c.name.as_str(), scan);
            set_module(&mut incident, "parentFrom", parent, scan);
            push_incident(out, incident);
        }
        i = i + 1;
        assert(incident_models(out@) =~= before + strangers(all, i as int, p, parent@, jsx));
    }
}

fn check_component(
    el: &Json,
    own: &Prop,
    parent: Option<&str>,
    scan: &JsxScan<'_>,
    out: &mut Vec<Incident>,
)
    requires
        own@ == named_element(el@),
    ensures
        incident_models(final(out)@) == incident_models(old(out)@) + component_hits(
            el@,
            parent_view(parent),
            scan@,
        ),
{
    let ghost before = incident_models(out@);
    let ghost jsx = scan@;
    let ghost parents = parent_view(parent);
    let ghost found = component_incident(el@, parents, jsx);
    let ghost empty = Seq::<IncidentV>::empty();
    if !wants(scan.location, ReferenceLocation::JsxComponent) || !scan.pattern.is_match(
        own.name.as_str(),
    ) {
        assert(incident_models(out@) =~= before + component_hits(el@, parents, jsx));
        return;
    }
    let components = collect_child_components(el, scan.scope.locals);
    let ghost all = prop_models(components@);
    assert(all.len() == components@.len());
    let handed_on = hands_on_children(el);
    let gate = match scan.child {
        Some(re) => has_match(&components, re),
        None => true,
    };
    let ghost mut first = empty;
    if gate && scan.not_child.is_none() && scan.requires_child.is_none() {
        push_incident(out, make_component_incident(own, parent, scan, Ghost(el@)));
        proof {
            first = seq![found];
        }
    }
    assert(incident_models(out@) =~= before + first);
    let ghost mut second = empty;
    if let Some(re) = scan.requires_child {
        if !has_match(&components, re) && !handed_on {
            push_incident(out, make_component_incident(own, parent, scan, Ghost(el@)));
            proof {
                second = seq![found];
            }
        }
    }
    assert(incident_models(out@) =~= before + first + second);
    if let Some(re) = scan.not_child {
        if !handed_on {
            add_strangers(&components, re, own.name.as_str(), scan, out);
        }
    }
    assert(incident_models(out@) =~= before + component_hits(el@, parents, jsx));
}

fn get_attribute_value(value: &Json, source: &str) -> (r: Option<String>)
    ensures
        (match r {
            Some(t) => Some(t@),
            None => None,
        }) == attribute_value(value@, source@),
{
    if let Some(s) = get_string_literal(value) {
        return Some(s.to_owned());
    }
    if !is_type(value, "JSXExpressionContainer") {
        return None;
    }
    if let Some(expr) = value.get("expression") {
        if check_static_member(expr) {
            if let Some(property) = expr.get("property") {
                if let Some(name) = get_text(property, "name") {
                    return Some(name.to_owned());
                }
            }
        }
    }
    let start = get_number(value, "start");
    let end = get_number(value, "end");
    let inner = slice_within(
        source,
        if start < u32::MAX {
            start + 1
        } else {
            start
        },
        if end > 0 {
            end - 1
        } else {
            0
        },
    );
    Some(trim(inner.as_str()))
}

fn set_value(incident: &mut Incident, a: &Json, scan: &JsxScan<'_>)
    ensures
        final(incident)@ == with_value(old(incident)@, child(a@, "value"@), scan@),
{
    if let Some(value) = a.get("value") {
        if let Some(text) = get_attribute_value(value, scan.source) {
            incident.set_text("propValue", text.as_str());
        }
        if is_type(value, "JSXExpressionContainer") {
            let ghost valued = incident@;
            match value.get("expression") {
                Some(expr) => {
                    let list = extract_object_string_values(expr);
                    set_strings(incident, &list);
                },
                None => {
                    assert(attribute_strings(child(value@, "expression"@)).len() == 0);
                },
            }
        }
    }
}

fn get_attribute_name(a: &Json) -> (r: Option<&str>)
    ensures
        match r {
            Some(n) => attribute_name(a@) == Some(n@),
            None => attribute_name(a@) is None,
        },
{
    if is_type(a, "JSXAttribute") && has_type(a, "name", "JSXIdentifier") {
        match a.get("name") {
            Some(name) => get_text(name, "name"),
            None => None,
        }
    } else {
        None
    }
}

fn check_props(
    attributes: &Vec<&Json>,
    component: &str,
    scan: &JsxScan<'_>,
    out: &mut Vec<Incident>,
)
    ensures
        incident_models(final(out)@) == incident_models(old(out)@) + prop_hits(
            node_models(attributes@),
            attributes@.len() as int,
            component@,
            scan@,
        ),
{
    let ghost all = node_models(attributes@);
    let ghost jsx = scan@;
    let ghost before = incident_models(out@);
    let mut i: usize = 0;
    assert(before + prop_hits(all, 0, component@, jsx) =~= before);
    while i < attributes.len()
        invariant
            i <= attributes@.len(),
            all == node_models(attributes@),
            jsx == scan@,
            incident_models(out@) == before + prop_hits(all, i as int, component@, jsx),
        decreases attributes.len() - i,
    {
        let a = attributes[i];
        assert(all[i as int] == a@);
        if let Some(name) = get_attribute_name(a) {
            if scan.pattern.is_match(name) {
                let (start, end): (u32, u32) = match a.get("name") {
                    Some(ident) => (get_number(ident, "start"), get_number(ident, "end")),
                    None => (0, 0),
                };
                let mut incident = make_incident(scan.source, scan.file_uri, start, end);
                incident.set_text("propName", name);
                incident.set_text("componentName", component);
                set_value(&mut incident, a, scan);
                set_module(&mut incident, "module", component, scan);
                push_incident(out, incident);
            }
        }
        i = i + 1;
        assert(incident_models(out@) =~= before + prop_hits(all, i as int, component@, jsx));
    }
}

fn get_attribute_object<'a>(a: &'a Json) -> (r: Option<&'a Json>)
    ensures
        match r {
            Some(o) => attribute_object(a@) == Some(o@),
            None => attribute_object(a@) is None,
        },
{
    if !is_type(a, "JSXAttribute") || !has_type(a, "value", "JSXExpressionContainer") {
        return None;
    }
    if let Some(value) = a.get("value") {
        if let Some(expr) = value.get("expression") {
            if is_type(expr, "ObjectExpression") {
                return Some(expr);
            }
            if is_type(expr, "ParenthesizedExpression") && has_type(
                expr,
                "expression",
                "ObjectExpression",
            ) {
                return expr.get("expression");
            }
        }
    }
    None
}

fn check_properties(object: &Json, component: &str, scan: &JsxScan<'_>, out: &mut Vec<Incident>)
    ensures
        incident_models(final(out)@) == incident_models(old(out)@) + property_hits(
            children(object@, "properties"@),
            children(object@, "properties"@).len() as int,
            component@,
            scan@,
        ),
{
    let properties = get_children(object, "properties");
    let ghost all = children(object@, "properties"@);
    let ghost jsx = scan@;
    let ghost before = incident_models(out@);
    let mut i: usize = 0;
    assert(before + property_hits(all, 0, component@, jsx) =~= before);
    while i < properties.len()
        invariant
            i <= properties@.len(),
            all == node_models(properties@),
            jsx == scan@,
            incident_models(out@) == before + property_hits(all, i as int, component@, jsx),
        decreases properties.len() - i,
    {
        assert(all[i as int] == properties@[i as int]@);
        if let Some(key) = get_key_prop(properties[i]) {
            if scan.pattern.is_match(key.name.as_str()) {
                let mut incident = make_incident(scan.source, scan.file_uri, key.start, key.end);
                incident.set_text("propName", key.name.as_str());
                incident.set_text("componentName", component);
                set_module(&mut incident, "module", component, scan);
                push_incident(out, incident);
            }
        }
        i = i + 1;
        assert(incident_models(out@) =~= before + property_hits(all, i as int, component@, jsx));
    }
}

/// Check object literal property keys for pattern matches.
///
/// When a JSX prop value is an object expression (e.g., `formGroupProps={{ labelIcon: ... }}`),
/// each property key is checked against the pattern. This catches indirect prop spreading, where
/// an object is passed to a wrapper component that spreads it.
fn check_object_keys(
    attributes: &Vec<&Json>,
    component: &str,
    scan: &JsxScan<'_>,
    out: &mut Vec<Incident>,
)
    ensures
        incident_models(final(out)@) == incident_models(old(out)@) + key_hits(
            node_models(attributes@),
            attributes@.len() as int,
            component@,
            scan@,
        ),
{
    let ghost all = node_models(attributes@);
    let ghost jsx = scan@;
    let ghost before = incident_models(out@);
    let mut i: usize = 0;
    assert(before + key_hits(all, 0, component@, jsx) =~= before);
    while i < attributes.len()
        invariant
            i <= attributes@.len(),
            all == node_models(attributes@),
            jsx == scan@,
            incident_models(out@) == before + key_hits(all, i as int, component@, jsx),
        decreases attributes.len() - i,
    {
        assert(all[i as int] == attributes@[i as int]@);
        if let Some(object) = get_attribute_object(attributes[i]) {
            check_properties(object, component, scan, out);
        }
        i = i + 1;
        assert(incident_models(out@) =~= before + key_hits(all, i as int, component@, jsx));
    }
}

fn add_spread_incidents(
    props: &Vec<Prop>,
    component: &str,
    scan: &JsxScan<'_>,
    out: &mut Vec<Incident>,
)
    ensures
        incident_models(final(out)@) == incident_models(old(out)@) + spread_incidents(
            prop_models(props@),
            props@.len() as int,
            component@,
            scan@,
        ),
{
    let ghost all = prop_models(props@);
    let ghost jsx = scan@;
    let ghost before = incident_models(out@);
    let mut i: usize = 0;
    assert(before + spread_incidents(all, 0, component@, jsx) =~= before);
    while i < props.len()
        invariant
            i <= props@.len(),
            all == prop_models(props@),
            jsx == scan@,
            incident_models(out@) == before + spread_incidents(all, i as int, component@, jsx),
        decreases props.len() - i,
    {
        let p = &props[i];
        assert(all[i as int] == p@);
        if scan.pattern.is_match(p.name.as_str()) {
            let mut incident = make_incident(scan.source, scan.file_uri, p.start, p.end);
            incident.set_text("propName", p.name.as_str());
            incident.set_text("componentName", component);
            incident.set_text("spreadSource", "true");
            set_module(&mut incident, "module", component, scan);
            push_incident(out, incident);
        }
        i = i + 1;
        assert(incident_models(out@) =~= before + spread_incidents(
            all,
            i as int,
            component@,
            jsx,
        ));
    }
}

/// Check spread attributes for prop names that match the pattern. Incidents from spread scanning
/// include a `spreadSource` variable set to "true" so consumers can distinguish them from direct
/// props.
fn check_spreads(
    attributes: &Vec<&Json>,
    component: &str,
    scan: &JsxScan<'_>,
    out: &mut Vec<Incident>,
)
    ensures
        incident_models(final(out)@) == incident_models(old(out)@) + spread_hits(
            node_models(attributes@),
            attributes@.len() as int,
            component@,
            scan@,
        ),
{
    let ghost all = node_models(attributes@);
    let ghost jsx = scan@;
    let ghost before = incident_models(out@);
    let mut i: usize = 0;
    assert(before + spread_hits(all, 0, component@, jsx) =~= before);
    while i < attributes.len()
        invariant
            i <= attributes@.len(),
            all == node_models(attributes@),
            jsx == scan@,
            incident_models(out@) == before + spread_hits(all, i as int, component@, jsx),
        decreases attributes.len() - i,
    {
        assert(all[i as int] == attributes@[i as int]@);
        if is_type(attributes[i], "JSXSpreadAttribute") {
            let props = match attributes[i].get("argument") {
                Some(x) => extract_spread_prop_names(x, &scan.scope),
                None => extract_spread_prop_names(&Json::Null, &scan.scope),
            };
            add_spread_incidents(&props, component, scan, out);
        }
        i = i + 1;
        assert(incident_models(out@) =~= before + spread_hits(all, i as int, component@, jsx));
    }
}

/// Check a JSX element: its component name, its props, the keys of objects in their values, and
/// the props that are spread over it.
pub fn check_jsx_element(
    el: &Json,
    parent: Option<&str>,
    scan: &JsxScan<'_>,
    out: &mut Vec<Incident>,
)
    ensures
        incident_models(final(out)@) == incident_models(old(out)@) + element_hits(
            el@,
            parent_view(parent),
            scan@,
        ),
{
    let ghost before = incident_models(out@);
    let own = get_named_element(el);
    check_component(el, &own, parent, scan, out);
    if wants(scan.location, ReferenceLocation::JsxProp) {
        let name = own.name.as_str();
        let attributes = get_children_in(el, "openingElement", "attributes");
        check_props(&attributes, name, scan, out);
        check_object_keys(&attributes, name, scan, out);
        check_spreads(&attributes, name, scan, out);
    }
    assert(incident_models(out@) =~= before + element_hits(
        el@,
        parent_view(parent),
        scan@,
    ));
}

} // verus!
