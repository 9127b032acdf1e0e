//! What a scan reports of a single JSX element: the component, its props, and nothing else.

use crate::component_laws::lemma_in_either;
use crate::estree::{
    child, children, flag, identifier, is_static_member, number_field, string_literal, text_field,
    type_is,
};
use crate::incident::IncidentV;
use crate::json::JsonV;
use crate::jsx_children::{child_components, element_name, name_node};
use crate::jsx_context::JsxV;
use crate::jsx_element::{
    any_matches, attribute_object, attribute_value, child_incident, component_hits,
    component_incident, element_hits, key_hits, key_incident, passes_through, prop_hits,
    prop_incident, property_hits, spread_hits, spread_incidents, strangers,
};
use crate::lookup::named;
use crate::object_props::{key_prop, spread_props, PropV};
use crate::pattern::regex_accepts;
use crate::reference_laws::says;
use crate::scanner::{capped, line_at};
use vstd::prelude::*;

verus! {

proof fn lemma_keys()
    ensures
        "componentName"@ != "parentName"@,
        "componentName"@ != "parentFrom"@,
        "componentName"@ != "module"@,
        "componentName"@ != "propValue"@,
        "componentName"@ != "propObjectValues"@,
        "componentName"@ != "spreadSource"@,
        "componentName"@ != "propName"@,
        "parentName"@ != "parentFrom"@,
        "parentName"@ != "module"@,
        "parentFrom"@ != "module"@,
        "propName"@ != "module"@,
        "propName"@ != "propValue"@,
        "propName"@ != "propObjectValues"@,
        "propName"@ != "spreadSource"@,
        "propValue"@ != "module"@,
        "propValue"@ != "propObjectValues"@,
        "propObjectValues"@ != "module"@,
        "spreadSource"@ != "module"@,
{
    reveal_strlit("componentName");
    reveal_strlit("parentName");
    reveal_strlit("parentFrom");
    reveal_strlit("module");
    reveal_strlit("propName");
    reveal_strlit("propValue");
    reveal_strlit("propObjectValues");
    reveal_strlit("spreadSource");
    assert("componentName"@.len() == 13);
    assert("parentName"@.len() == 10);
    assert("parentFrom"@.len() == 10);
    assert("module"@.len() == 6);
    assert("propName"@.len() == 8);
    assert("propValue"@.len() == 9);
    assert("propObjectValues"@.len() == 16);
    assert("spreadSource"@.len() == 12);
    assert("parentName"@[6] == 'N');
    assert("parentFrom"@[6] == 'F');
}

/// Whether an incident stands in the file of a scan, on the line of an offset.
pub open spec fn stands_on(i: IncidentV, jsx: JsxV, start: u32) -> bool {
    &&& i.file_uri == jsx.file_uri
    &&& i.line_number == Some(capped(line_at(jsx.source, start)))
}

/// Whether an incident tells under a key the module that a name is imported from, where the file
/// imports it, and else nothing.
pub open spec fn tells_import(i: IncidentV, key: Seq<char>, jsx: JsxV, name: Seq<char>) -> bool {
    match named(jsx.scope.imports, name) {
        Some(module) => says(i, key, module),
        None => !i.variables.dom().contains(key),
    }
}

// ---- Components ----

/// Whether a component among the children of an element has a name that a pattern accepts.
pub open spec fn has_component(el: JsonV, jsx: JsxV, pattern: Seq<char>) -> bool {
    exists|k: int|
        0 <= k < child_components(el, jsx.scope.locals).len() && regex_accepts(
            pattern,
            (#[trigger] child_components(el, jsx.scope.locals)[k]).name,
        )
}

/// Whether an expression is `children`, or `children` of `props`.
pub open spec fn is_children(e: JsonV) -> bool {
    ||| identifier(e) == Some("children"@)
    ||| identifier(e) is None && is_static_member(e) && text_field(
        child(e, "property"@),
        "name"@,
    ) == Some("children"@) && identifier(child(e, "object"@)) == Some("props"@)
}

/// Whether an element hands on the children of the component around it: one of its own children
/// is an expression for them.
pub open spec fn hands_on(el: JsonV) -> bool {
    exists|k: int|
        {
            &&& 0 <= k < children(el, "children"@).len()
            &&& type_is(#[trigger] children(el, "children"@)[k], "JSXExpressionContainer"@)
            &&& is_children(child(children(el, "children"@)[k], "expression"@))
        }
}

proof fn lemma_any_matches(components: Seq<PropV>, n: int, pattern: Seq<char>)
    requires
        0 <= n <= components.len(),
    ensures
        any_matches(components, n, pattern) <==> exists|k: int|
            0 <= k < n && regex_accepts(pattern, (#[trigger] components[k]).name),
    decreases n,
{
    if n > 0 {
        lemma_any_matches(components, n - 1, pattern);
    }
}

proof fn lemma_passes_through(list: Seq<JsonV>, n: int)
    requires
        0 <= n <= list.len(),
    ensures
        passes_through(list, n) <==> exists|k: int|
            {
                &&& 0 <= k < n
                &&& type_is(#[trigger] list[k], "JSXExpressionContainer"@)
                &&& is_children(child(list[k], "expression"@))
            },
    decreases n,
{
    if n > 0 {
        lemma_passes_through(list, n - 1);
    }
}

/// Whether an incident is the one for an element under a parent: it stands where the name of the
/// element does, names the component and the parent, and tells where they come from.
pub open spec fn tells_element(
    i: IncidentV,
    el: JsonV,
    parent: Option<Seq<char>>,
    jsx: JsxV,
) -> bool {
    &&& stands_on(i, jsx, number_field(name_node(el), "start"@))
    &&& says(i, "componentName"@, element_name(name_node(el)))
    &&& tells_import(i, "module"@, jsx, element_name(name_node(el)))
    &&& match parent {
        Some(p) => says(i, "parentName"@, p) && tells_import(i, "parentFrom"@, jsx, p),
        None => {
            &&& !i.variables.dom().contains("parentName"@)
            &&& !i.variables.dom().contains("parentFrom"@)
        },
    }
}

proof fn lemma_tells_element(el: JsonV, parent: Option<Seq<char>>, jsx: JsxV)
    ensures
        tells_element(component_incident(el, parent, jsx), el, parent, jsx),
{
    lemma_keys();
}

/// Whether an incident is the one for a component among the children of another.
pub open spec fn tells_child(i: IncidentV, c: PropV, parent: Seq<char>, jsx: JsxV) -> bool {
    &&& stands_on(i, jsx, c.start)
    &&& says(i, "componentName"@, c.name)
    &&& says(i, "parentName"@, parent)
    &&& tells_import(i, "module"@, jsx, c.name)
    &&& tells_import(i, "parentFrom"@, jsx, parent)
}

proof fn lemma_tells_child(c: PropV, parent: Seq<char>, jsx: JsxV)
    ensures
        tells_child(child_incident(c, parent, jsx), c, parent, jsx),
{
    lemma_keys();
}

/// Whether the component of an element itself is reported: its name is accepted, and its children
/// are as asked for.
pub open spec fn component_asked_for(el: JsonV, jsx: JsxV) -> bool {
    &&& jsx.wants_components()
    &&& regex_accepts(jsx.pattern, element_name(name_node(el)))
    &&& match jsx.requires_child {
        Some(p) => !has_component(el, jsx, p) && !hands_on(el),
        None => jsx.not_child is None && (jsx.child is Some ==> has_component(
            el,
            jsx,
            jsx.child->0,
        )),
    }
}

/// Whether a component among the children of an element is reported: its name is not the one that
/// the children are to have.
pub open spec fn child_asked_for(el: JsonV, jsx: JsxV, k: int) -> bool {
    &&& jsx.wants_components()
    &&& regex_accepts(jsx.pattern, element_name(name_node(el)))
    &&& jsx.not_child is Some
    &&& !hands_on(el)
    &&& 0 <= k < child_components(el, jsx.scope.locals).len()
    &&& !regex_accepts(jsx.not_child->0, child_components(el, jsx.scope.locals)[k].name)
}

proof fn lemma_conditions(el: JsonV, jsx: JsxV)
    ensures
        ({
            let components = child_components(el, jsx.scope.locals);
            let nodes = children(el, "children"@);
            &&& forall|p: Seq<char>| #[trigger]
                any_matches(components, components.len() as int, p) == has_component(el, jsx, p)
            &&& passes_through(nodes, nodes.len() as int) == hands_on(el)
        }),
{
    let components = child_components(el, jsx.scope.locals);
    let nodes = children(el, "children"@);
    lemma_passes_through(nodes, nodes.len() as int);
    assert forall|p: Seq<char>| #[trigger]
        any_matches(components, components.len() as int, p) == has_component(el, jsx, p) by {
        lemma_any_matches(components, components.len() as int, p);
    }
}

proof fn lemma_strangers_complete(
    components: Seq<PropV>,
    n: int,
    pattern: Seq<char>,
    parent: Seq<char>,
    jsx: JsxV,
    k: int,
)
    requires
        0 <= k < n <= components.len(),
        !regex_accepts(pattern, components[k].name),
    ensures
        strangers(components, n, pattern, parent, jsx).contains(
            child_incident(components[k], parent, jsx),
        ),
    decreases n,
{
    let before = strangers(components, n - 1, pattern, parent, jsx);
    let now = strangers(components, n, pattern, parent, jsx);
    let hit = child_incident(components[k], parent, jsx);
    if k < n - 1 {
        lemma_strangers_complete(components, n - 1, pattern, parent, jsx, k);
        let j = choose|j: int| 0 <= j < before.len() && before[j] == hit;
        assert(now[j] == before[j]);
    } else {
        assert(now == before.push(hit));
        assert(now[before.len() as int] == hit);
    }
}

proof fn lemma_strangers_sound(
    components: Seq<PropV>,
    n: int,
    pattern: Seq<char>,
    parent: Seq<char>,
    jsx: JsxV,
    i: IncidentV,
) -> (k: int)
    requires
        0 <= n <= components.len(),
        strangers(components, n, pattern, parent, jsx).contains(i),
    ensures
        0 <= k < n,
        !regex_accepts(pattern, components[k].name),
        i == child_incident(components[k], parent, jsx),
    decreases n,
{
    let before = strangers(components, n - 1, pattern, parent, jsx);
    let now = strangers(components, n, pattern, parent, jsx);
    let j = choose|j: int| 0 <= j < now.len() && now[j] == i;
    if j < before.len() {
        assert(before[j] == i);
        lemma_strangers_sound(components, n - 1, pattern, parent, jsx, i)
    } else {
        n - 1
    }
}

proof fn lemma_component_part(el: JsonV, parent: Option<Seq<char>>, jsx: JsxV, i: IncidentV)
    requires
        component_hits(el, parent, jsx).contains(i),
    ensures
        element_hits(el, parent, jsx).contains(i),
{
    let name = element_name(name_node(el));
    let attributes = children(child(el, "openingElement"@), "attributes"@);
    let n = attributes.len() as int;
    let rest = if jsx.wants_props() {
        prop_hits(attributes, n, name, jsx) + key_hits(attributes, n, name, jsx) + spread_hits(
            attributes,
            n,
            name,
            jsx,
        )
    } else {
        Seq::empty()
    };
    assert(element_hits(el, parent, jsx) == component_hits(el, parent, jsx) + rest);
    lemma_in_either(component_hits(el, parent, jsx), rest, i);
}

/// A component that is asked for is reported, where its element stands.
pub proof fn law_component_reported(el: JsonV, parent: Option<Seq<char>>, jsx: JsxV)
    ensures
        component_asked_for(el, jsx) ==> exists|i: IncidentV| #[trigger]
            element_hits(el, parent, jsx).contains(i) && tells_element(i, el, parent, jsx),
{
    if component_asked_for(el, jsx) {
        lemma_conditions(el, jsx);
        let found = component_incident(el, parent, jsx);
        lemma_tells_element(el, parent, jsx);
        let components = child_components(el, jsx.scope.locals);
        let third = match jsx.not_child {
            Some(p) => if !hands_on(el) {
                strangers(components, components.len() as int, p, element_name(name_node(el)), jsx)
            } else {
                Seq::empty()
            },
            None => Seq::empty(),
        };
        let one = seq![found];
        assert(one[0] == found);
        let none = Seq::<IncidentV>::empty();
        if jsx.requires_child is Some {
            assert(component_hits(el, parent, jsx) == none + one + third);
            lemma_in_either(none, one, found);
            lemma_in_either(none + one, third, found);
        } else {
            assert(component_hits(el, parent, jsx) == one + none + third);
            lemma_in_either(one, none, found);
            lemma_in_either(one + none, third, found);
        }
        lemma_component_part(el, parent, jsx, found);
        assert(element_hits(el, parent, jsx).contains(found));
    }
}

/// Each component among the children that is not as asked for is reported, where it stands.
pub proof fn law_child_reported(el: JsonV, parent: Option<Seq<char>>, jsx: JsxV, k: int)
    ensures
        child_asked_for(el, jsx, k) ==> exists|i: IncidentV| #[trigger]
            element_hits(el, parent, jsx).contains(i) && tells_child(
                i,
                child_components(el, jsx.scope.locals)[k],
                element_name(name_node(el)),
                jsx,
            ),
{
    if child_asked_for(el, jsx, k) {
        lemma_conditions(el, jsx);
        let components = child_components(el, jsx.scope.locals);
        let name = element_name(name_node(el));
        let p = jsx.not_child->0;
        let hit = child_incident(components[k], name, jsx);
        lemma_tells_child(components[k], name, jsx);
        lemma_strangers_complete(components, components.len() as int, p, name, jsx, k);
        let third = strangers(components, components.len() as int, p, name, jsx);
        let found = component_incident(el, parent, jsx);
        let second = match jsx.requires_child {
            Some(r) => if !has_component(el, jsx, r) && !hands_on(el) {
                seq![found]
            } else {
                Seq::empty()
            },
            None => Seq::empty(),
        };
        let none = Seq::<IncidentV>::empty();
        assert(component_hits(el, parent, jsx) == none + second + third);
        lemma_in_either(none + second, third, hit);
        lemma_component_part(el, parent, jsx, hit);
        assert(element_hits(el, parent, jsx).contains(hit));
    }
}

/// Whether an incident is one for a component of an element that is asked for.
pub open spec fn is_component_hit(
    i: IncidentV,
    el: JsonV,
    parent: Option<Seq<char>>,
    jsx: JsxV,
) -> bool {
    ||| component_asked_for(el, jsx) && tells_element(i, el, parent, jsx)
    ||| exists|k: int| #[trigger]
        child_asked_for(el, jsx, k) && tells_child(
            i,
            child_components(el, jsx.scope.locals)[k],
            element_name(name_node(el)),
            jsx,
        )
}

proof fn lemma_component_sound(el: JsonV, parent: Option<Seq<char>>, jsx: JsxV, i: IncidentV)
    requires
        component_hits(el, parent, jsx).contains(i),
    ensures
        is_component_hit(i, el, parent, jsx),
{
    lemma_conditions(el, jsx);
    lemma_tells_element(el, parent, jsx);
    let components = child_components(el, jsx.scope.locals);
    let n = components.len() as int;
    let name = element_name(name_node(el));
    let found = component_incident(el, parent, jsx);
    let first = if jsx.not_child is None && jsx.requires_child is None && (jsx.child matches Some(p)
        ==> has_component(el, jsx, p)) {
        seq![found]
    } else {
        Seq::empty()
    };
    let second = match jsx.requires_child {
        Some(p) => if !has_component(el, jsx, p) && !hands_on(el) {
            seq![found]
        } else {
            Seq::empty()
        },
        None => Seq::empty(),
    };
    let third = match jsx.not_child {
        Some(p) => if !hands_on(el) {
            strangers(components, n, p, name, jsx)
        } else {
            Seq::empty()
        },
        None => Seq::empty(),
    };
    assert(component_hits(el, parent, jsx) == first + second + third);
    lemma_in_either(first + second, third, i);
    lemma_in_either(first, second, i);
    if third.contains(i) {
        let k = lemma_strangers_sound(components, n, jsx.not_child->0, name, jsx, i);
        lemma_tells_child(components[k], name, jsx);
        assert(child_asked_for(el, jsx, k));
    }
}

// ---- Props ----

/// The attributes of an element.
pub open spec fn attributes_of(el: JsonV) -> Seq<JsonV> {
    children(child(el, "openingElement"@), "attributes"@)
}

/// Whether an attribute is a plain one with a name.
pub open spec fn has_name(a: JsonV, name: Seq<char>) -> bool {
    &&& type_is(a, "JSXAttribute"@)
    &&& type_is(child(a, "name"@), "JSXIdentifier"@)
    &&& text_field(child(a, "name"@), "name"@) == Some(name)
}

/// Whether an incident is the one for an attribute of a component: it stands where the name of the
/// attribute does, and tells the value, as far as it is known.
pub open spec fn tells_attribute(
    i: IncidentV,
    a: JsonV,
    name: Seq<char>,
    component: Seq<char>,
    jsx: JsxV,
) -> bool {
    &&& stands_on(i, jsx, number_field(child(a, "name"@), "start"@))
    &&& says(i, "propName"@, name)
    &&& says(i, "componentName"@, component)
    &&& tells_import(i, "module"@, jsx, component)
    &&& match attribute_value(child(a, "value"@), jsx.source) {
        Some(text) => says(i, "propValue"@, text),
        None => !i.variables.dom().contains("propValue"@),
    }
}

proof fn lemma_tells_attribute(a: JsonV, name: Seq<char>, component: Seq<char>, jsx: JsxV)
    ensures
        tells_attribute(prop_incident(a, name, component, jsx), a, name, component, jsx),
{
    lemma_keys();
}

proof fn lemma_props_complete(
    attributes: Seq<JsonV>,
    n: int,
    component: Seq<char>,
    jsx: JsxV,
    k: int,
    name: Seq<char>,
)
    requires
        0 <= k < n <= attributes.len(),
        has_name(attributes[k], name),
        regex_accepts(jsx.pattern, name),
    ensures
        prop_hits(attributes, n, component, jsx).contains(
            prop_incident(attributes[k], name, component, jsx),
        ),
    decreases n,
{
    let before = prop_hits(attributes, n - 1, component, jsx);
    let now = prop_hits(attributes, n, component, jsx);
    let hit = prop_incident(attributes[k], name, component, jsx);
    if k < n - 1 {
        lemma_props_complete(attributes, n - 1, component, jsx, k, name);
        let j = choose|j: int| 0 <= j < before.len() && before[j] == hit;
        assert(now[j] == before[j]);
    } else {
        assert(now == before.push(hit));
        assert(now[before.len() as int] == hit);
    }
}

/// Whether an incident is one for an attribute whose name is accepted.
pub open spec fn is_attribute_hit(
    i: IncidentV,
    attributes: Seq<JsonV>,
    component: Seq<char>,
    jsx: JsxV,
) -> bool {
    exists|k: int, name: Seq<char>|
        {
            &&& 0 <= k < attributes.len()
            &&& #[trigger] has_name(attributes[k], name)
            &&& regex_accepts(jsx.pattern, name)
            &&& tells_attribute(i, attributes[k], name, component, jsx)
        }
}

proof fn lemma_props_sound(
    attributes: Seq<JsonV>,
    n: int,
    component: Seq<char>,
    jsx: JsxV,
    i: IncidentV,
)
    requires
        0 <= n <= attributes.len(),
        prop_hits(attributes, n, component, jsx).contains(i),
    ensures
        is_attribute_hit(i, attributes, component, jsx),
    decreases n,
{
    let before = prop_hits(attributes, n - 1, component, jsx);
    let now = prop_hits(attributes, n, component, jsx);
    let j = choose|j: int| 0 <= j < now.len() && now[j] == i;
    if n > 0 {
        if j < before.len() {
            assert(before[j] == i);
            lemma_props_sound(attributes, n - 1, component, jsx, i);
        } else {
            let name = text_field(child(attributes[n - 1], "name"@), "name"@)->0;
            assert(has_name(attributes[n - 1], name));
            lemma_tells_attribute(attributes[n - 1], name, component, jsx);
        }
    }
}

/// Whether a property of an object has a name that is written down: a plain one, or a string.
pub open spec fn has_key(p: JsonV, key: PropV) -> bool {
    &&& type_is(p, "Property"@)
    &&& key.start == number_field(child(p, "key"@), "start"@)
    &&& key.end == number_field(child(p, "key"@), "end"@)
    &&& if !flag(p, "computed"@) && identifier(child(p, "key"@)) is Some {
        identifier(child(p, "key"@)) == Some(key.name)
    } else {
        string_literal(child(p, "key"@)) == Some(key.name)
    }
}

/// Whether an incident is the one for a property name that stands for a prop of a component.
pub open spec fn tells_key(i: IncidentV, key: PropV, component: Seq<char>, jsx: JsxV) -> bool {
    &&& stands_on(i, jsx, key.start)
    &&& says(i, "propName"@, key.name)
    &&& says(i, "componentName"@, component)
    &&& tells_import(i, "module"@, jsx, component)
}

proof fn lemma_tells_key(key: PropV, component: Seq<char>, jsx: JsxV)
    ensures
        tells_key(key_incident(key, component, jsx), key, component, jsx),
{
    lemma_keys();
}

proof fn lemma_properties_complete(
    properties: Seq<JsonV>,
    n: int,
    component: Seq<char>,
    jsx: JsxV,
    k: int,
    key: PropV,
)
    requires
        0 <= k < n <= properties.len(),
        has_key(properties[k], key),
        regex_accepts(jsx.pattern, key.name),
    ensures
        property_hits(properties, n, component, jsx).contains(key_incident(key, component, jsx)),
    decreases n,
{
    let before = property_hits(properties, n - 1, component, jsx);
    let now = property_hits(properties, n, component, jsx);
    let hit = key_incident(key, component, jsx);
    if k < n - 1 {
        lemma_properties_complete(properties, n - 1, component, jsx, k, key);
        let j = choose|j: int| 0 <= j < before.len() && before[j] == hit;
        assert(now[j] == before[j]);
    } else {
        assert(key_prop(properties[k]) == Some(key));
        assert(now == before.push(hit));
        assert(now[before.len() as int] == hit);
    }
}

/// Whether an incident is one for a property whose name is accepted.
pub open spec fn is_property_hit(
    i: IncidentV,
    properties: Seq<JsonV>,
    component: Seq<char>,
    jsx: JsxV,
) -> bool {
    exists|k: int, key: PropV|
        {
            &&& 0 <= k < properties.len()
            &&& #[trigger] has_key(properties[k], key)
            &&& regex_accepts(jsx.pattern, key.name)
            &&& tells_key(i, key, component, jsx)
        }
}

proof fn lemma_properties_sound(
    properties: Seq<JsonV>,
    n: int,
    component: Seq<char>,
    jsx: JsxV,
    i: IncidentV,
)
    requires
        0 <= n <= properties.len(),
        property_hits(properties, n, component, jsx).contains(i),
    ensures
        is_property_hit(i, properties, component, jsx),
    decreases n,
{
    let before = property_hits(properties, n - 1, component, jsx);
    let now = property_hits(properties, n, component, jsx);
    let j = choose|j: int| 0 <= j < now.len() && now[j] == i;
    if n > 0 {
        if j < before.len() {
            assert(before[j] == i);
            lemma_properties_sound(properties, n - 1, component, jsx, i);
        } else {
            let key = key_prop(properties[n - 1])->0;
            assert(has_key(properties[n - 1], key));
            lemma_tells_key(key, component, jsx);
        }
    }
}

/// Whether an object is the value of an attribute, in parentheses or not.
pub open spec fn has_object(a: JsonV, object: JsonV) -> bool {
    let e = child(child(a, "value"@), "expression"@);
    &&& type_is(a, "JSXAttribute"@)
    &&& type_is(child(a, "value"@), "JSXExpressionContainer"@)
    &&& type_is(object, "ObjectExpression"@)
    &&& object == e || (!type_is(e, "ObjectExpression"@) && type_is(
        e,
        "ParenthesizedExpression"@,
    ) && object == child(e, "expression"@))
}

proof fn lemma_keys_complete(
    attributes: Seq<JsonV>,
    n: int,
    component: Seq<char>,
    jsx: JsxV,
    k: int,
    i: IncidentV,
)
    requires
        0 <= k < n <= attributes.len(),
        attribute_object(attributes[k]) is Some,
        property_hits(
            children(attribute_object(attributes[k])->0, "properties"@),
            children(attribute_object(attributes[k])->0, "properties"@).len() as int,
            component,
            jsx,
        ).contains(i),
    ensures
        key_hits(attributes, n, component, jsx).contains(i),
    decreases n,
{
    let before = key_hits(attributes, n - 1, component, jsx);
    let more = match attribute_object(attributes[n - 1]) {
        Some(object) => {
            let properties = children(object, "properties"@);
            property_hits(properties, properties.len() as int, component, jsx)
        },
        None => Seq::empty(),
    };
    assert(key_hits(attributes, n, component, jsx) == before + more);
    lemma_in_either(before, more, i);
    if k < n - 1 {
        lemma_keys_complete(attributes, n - 1, component, jsx, k, i);
    }
}

/// Whether an incident is one for a key of an object that is the value of an attribute.
pub open spec fn is_key_hit(
    i: IncidentV,
    attributes: Seq<JsonV>,
    component: Seq<char>,
    jsx: JsxV,
) -> bool {
    exists|k: int, object: JsonV|
        {
            &&& 0 <= k < attributes.len()
            &&& #[trigger] has_object(attributes[k], object)
            &&& is_property_hit(i, children(object, "properties"@), component, jsx)
        }
}

proof fn lemma_keys_sound(
    attributes: Seq<JsonV>,
    n: int,
    component: Seq<char>,
    jsx: JsxV,
    i: IncidentV,
)
    requires
        0 <= n <= attributes.len(),
        key_hits(attributes, n, component, jsx).contains(i),
    ensures
        is_key_hit(i, attributes, component, jsx),
    decreases n,
{
    if n > 0 {
        let before = key_hits(attributes, n - 1, component, jsx);
        let more = match attribute_object(attributes[n - 1]) {
            Some(object) => {
                let properties = children(object, "properties"@);
                property_hits(properties, properties.len() as int, component, jsx)
            },
            None => Seq::empty(),
        };
        assert(key_hits(attributes, n, component, jsx) == before + more);
        lemma_in_either(before, more, i);
        if before.contains(i) {
            lemma_keys_sound(attributes, n - 1, component, jsx, i);
        } else {
            let object = attribute_object(attributes[n - 1])->0;
            let properties = children(object, "properties"@);
            assert(has_object(attributes[n - 1], object));
            lemma_properties_sound(properties, properties.len() as int, component, jsx, i);
        }
    }
}

/// Whether an incident is the one for a prop that is spread over a component.
pub open spec fn tells_spread(i: IncidentV, p: PropV, component: Seq<char>, jsx: JsxV) -> bool {
    tells_key(i, p, component, jsx) && says(i, "spreadSource"@, "true"@)
}

spec fn spread_one(p: PropV, component: Seq<char>, jsx: JsxV) -> IncidentV {
    jsx.with_module(
        jsx.at(p.start, p.end).with_text("propName"@, p.name).with_text(
            "componentName"@,
            component,
        ).with_text("spreadSource"@, "true"@),
        "module"@,
        component,
    )
}

proof fn lemma_tells_spread(p: PropV, component: Seq<char>, jsx: JsxV)
    ensures
        tells_spread(spread_one(p, component, jsx), p, component, jsx),
{
    lemma_keys();
}

spec fn from_props(
    props: Seq<PropV>,
    n: int,
    component: Seq<char>,
    jsx: JsxV,
    i: IncidentV,
) -> bool {
    exists|k: int|
        0 <= k < n && regex_accepts(jsx.pattern, (#[trigger] props[k]).name) && i == spread_one(
            props[k],
            component,
            jsx,
        )
}

proof fn lemma_spread_incidents(
    props: Seq<PropV>,
    n: int,
    component: Seq<char>,
    jsx: JsxV,
    i: IncidentV,
)
    requires
        0 <= n <= props.len(),
    ensures
        spread_incidents(props, n, component, jsx).contains(i) == from_props(
            props,
            n,
            component,
            jsx,
            i,
        ),
    decreases n,
{
    if n > 0 {
        lemma_spread_incidents(props, n - 1, component, jsx, i);
        let before = spread_incidents(props, n - 1, component, jsx);
        let now = spread_incidents(props, n, component, jsx);
        let hit = spread_one(props[n - 1], component, jsx);
        if regex_accepts(jsx.pattern, props[n - 1].name) {
            assert(now =~= before + seq![hit]);
            lemma_in_either(before, seq![hit], i);
            assert(seq![hit][0] == hit);
        } else {
            assert(now == before);
        }
        if from_props(props, n - 1, component, jsx, i) {
            let k = choose|k: int|
                0 <= k < n - 1 && regex_accepts(jsx.pattern, (#[trigger] props[k]).name) && i
                    == spread_one(props[k], component, jsx);
            assert(regex_accepts(jsx.pattern, props[k].name));
        }
    }
}

spec fn from_spread(
    attributes: Seq<JsonV>,
    n: int,
    component: Seq<char>,
    jsx: JsxV,
    i: IncidentV,
) -> bool {
    exists|k: int|
        {
            &&& 0 <= k < n
            &&& type_is(#[trigger] attributes[k], "JSXSpreadAttribute"@)
            &&& from_props(
                spread_props(child(attributes[k], "argument"@), jsx.scope),
                spread_props(child(attributes[k], "argument"@), jsx.scope).len() as int,
                component,
                jsx,
                i,
            )
        }
}

proof fn lemma_spreads(
    attributes: Seq<JsonV>,
    n: int,
    component: Seq<char>,
    jsx: JsxV,
    i: IncidentV,
)
    requires
        0 <= n <= attributes.len(),
    ensures
        spread_hits(attributes, n, component, jsx).contains(i) == from_spread(
            attributes,
            n,
            component,
            jsx,
            i,
        ),
    decreases n,
{
    if n > 0 {
        lemma_spreads(attributes, n - 1, component, jsx, i);
        let before = spread_hits(attributes, n - 1, component, jsx);
        let now = spread_hits(attributes, n, component, jsx);
        if type_is(attributes[n - 1], "JSXSpreadAttribute"@) {
            let props = spread_props(child(attributes[n - 1], "argument"@), jsx.scope);
            let more = spread_incidents(props, props.len() as int, component, jsx);
            assert(now == before + more);
            lemma_in_either(before, more, i);
            lemma_spread_incidents(props, props.len() as int, component, jsx, i);
        } else {
            assert(now == before);
        }
        if from_spread(attributes, n - 1, component, jsx, i) {
            let k = choose|k: int|
                {
                    &&& 0 <= k < n - 1
                    &&& type_is(#[trigger] attributes[k], "JSXSpreadAttribute"@)
                    &&& from_props(
                        spread_props(child(attributes[k], "argument"@), jsx.scope),
                        spread_props(child(attributes[k], "argument"@), jsx.scope).len() as int,
                        component,
                        jsx,
                        i,
                    )
                };
            assert(type_is(attributes[k], "JSXSpreadAttribute"@));
        }
    }
}

proof fn lemma_prop_part(el: JsonV, parent: Option<Seq<char>>, jsx: JsxV, i: IncidentV)
    ensures
        ({
            let name = element_name(name_node(el));
            let attributes = attributes_of(el);
            let n = attributes.len() as int;
            element_hits(el, parent, jsx).contains(i) <==> component_hits(
                el,
                parent,
                jsx,
            ).contains(i) || (jsx.wants_props() && (prop_hits(attributes, n, name, jsx).contains(i)
                || key_hits(attributes, n, name, jsx).contains(i) || spread_hits(
                attributes,
                n,
                name,
                jsx,
            ).contains(i)))
        }),
{
    let name = element_name(name_node(el));
    let attributes = attributes_of(el);
    let n = attributes.len() as int;
    let a = prop_hits(attributes, n, name, jsx);
    let b = key_hits(attributes, n, name, jsx);
    let c = spread_hits(attributes, n, name, jsx);
    let none = Seq::<IncidentV>::empty();
    let own = component_hits(el, parent, jsx);
    if jsx.wants_props() {
        assert(element_hits(el, parent, jsx) == own + (a + b + c));
        lemma_in_either(own, a + b + c, i);
        lemma_in_either(a + b, c, i);
        lemma_in_either(a, b, i);
    } else {
        assert(element_hits(el, parent, jsx) == own + none);
        lemma_in_either(own, none, i);
    }
}

/// Where props are looked for, every attribute whose name is accepted is reported.
pub proof fn law_attribute_reported(
    el: JsonV,
    parent: Option<Seq<char>>,
    jsx: JsxV,
    k: int,
    name: Seq<char>,
)
    requires
        jsx.wants_props(),
        0 <= k < attributes_of(el).len(),
        has_name(attributes_of(el)[k], name),
    ensures
        regex_accepts(jsx.pattern, name) ==> exists|i: IncidentV| #[trigger]
            element_hits(el, parent, jsx).contains(i) && tells_attribute(
                i,
                attributes_of(el)[k],
                name,
                element_name(name_node(el)),
                jsx,
            ),
{
    if regex_accepts(jsx.pattern, name) {
        let component = element_name(name_node(el));
        let attributes = attributes_of(el);
        let hit = prop_incident(attributes[k], name, component, jsx);
        lemma_props_complete(attributes, attributes.len() as int, component, jsx, k, name);
        lemma_tells_attribute(attributes[k], name, component, jsx);
        lemma_prop_part(el, parent, jsx, hit);
        assert(element_hits(el, parent, jsx).contains(hit));
    }
}

/// Where props are looked for, every key whose name is accepted of an object that is the value of
/// an attribute is reported.
pub proof fn law_key_reported(
    el: JsonV,
    parent: Option<Seq<char>>,
    jsx: JsxV,
    k: int,
    object: JsonV,
    j: int,
    key: PropV,
)
    requires
        jsx.wants_props(),
        0 <= k < attributes_of(el).len(),
        has_object(attributes_of(el)[k], object),
        0 <= j < children(object, "properties"@).len(),
        has_key(children(object, "properties"@)[j], key),
    ensures
        regex_accepts(jsx.pattern, key.name) ==> exists|i: IncidentV| #[trigger]
            element_hits(el, parent, jsx).contains(i) && tells_key(
                i,
                key,
                element_name(name_node(el)),
                jsx,
            ),
{
    if regex_accepts(jsx.pattern, key.name) {
        let component = element_name(name_node(el));
        let attributes = attributes_of(el);
        let hit = key_incident(key, component, jsx);
        let properties = children(object, "properties"@);
        assert(attribute_object(attributes[k]) == Some(object));
        lemma_properties_complete(properties, properties.len() as int, component, jsx, j, key);
        lemma_keys_complete(attributes, attributes.len() as int, component, jsx, k, hit);
        lemma_tells_key(key, component, jsx);
        lemma_prop_part(el, parent, jsx, hit);
        assert(element_hits(el, parent, jsx).contains(hit));
    }
}

/// Where props are looked for, every prop whose name is accepted and that an attribute spreads is
/// reported.
pub proof fn law_spread_reported(
    el: JsonV,
    parent: Option<Seq<char>>,
    jsx: JsxV,
    k: int,
    j: int,
)
    requires
        jsx.wants_props(),
        0 <= k < attributes_of(el).len(),
        type_is(attributes_of(el)[k], "JSXSpreadAttribute"@),
        0 <= j < spread_props(child(attributes_of(el)[k], "argument"@), jsx.scope).len(),
    ensures
        ({
            let p = spread_props(child(attributes_of(el)[k], "argument"@), jsx.scope)[j];
            regex_accepts(jsx.pattern, p.name) ==> exists|i: IncidentV| #[trigger]
                element_hits(el, parent, jsx).contains(i) && tells_spread(
                    i,
                    p,
                    element_name(name_node(el)),
                    jsx,
                )
        }),
{
    let attributes = attributes_of(el);
    let props = spread_props(child(attributes[k], "argument"@), jsx.scope);
    let component = element_name(name_node(el));
    if regex_accepts(jsx.pattern, props[j].name) {
        let hit = spread_one(props[j], component, jsx);
        lemma_tells_spread(props[j], component, jsx);
        assert(from_props(props, props.len() as int, component, jsx, hit));
        assert(from_spread(attributes, attributes.len() as int, component, jsx, hit));
        lemma_spreads(attributes, attributes.len() as int, component, jsx, hit);
        lemma_prop_part(el, parent, jsx, hit);
        assert(element_hits(el, parent, jsx).contains(hit));
    }
}

/// Whether an incident is one for a prop that an attribute spreads.
pub open spec fn is_spread_hit(
    i: IncidentV,
    attributes: Seq<JsonV>,
    component: Seq<char>,
    jsx: JsxV,
) -> bool {
    exists|k: int, p: PropV|
        {
            &&& 0 <= k < attributes.len()
            &&& type_is(attributes[k], "JSXSpreadAttribute"@)
            &&& #[trigger] spread_props(child(attributes[k], "argument"@), jsx.scope).contains(p)
            &&& regex_accepts(jsx.pattern, p.name)
            &&& tells_spread(i, p, component, jsx)
        }
}

/// Everything that is reported of an element is the component, a component among its children, an
/// attribute, a key or a prop that is spread, and one that is asked for.
pub proof fn law_element_asked_for(el: JsonV, parent: Option<Seq<char>>, jsx: JsxV, i: IncidentV)
    requires
        element_hits(el, parent, jsx).contains(i),
    ensures
        is_component_hit(i, el, parent, jsx) || (jsx.wants_props() && (is_attribute_hit(
            i,
            attributes_of(el),
            element_name(name_node(el)),
            jsx,
        ) || is_key_hit(i, attributes_of(el), element_name(name_node(el)), jsx) || is_spread_hit(
            i,
            attributes_of(el),
            element_name(name_node(el)),
            jsx,
        ))),
{
    let name = element_name(name_node(el));
    let attributes = attributes_of(el);
    let n = attributes.len() as int;
    lemma_prop_part(el, parent, jsx, i);
    if component_hits(el, parent, jsx).contains(i) {
        lemma_component_sound(el, parent, jsx, i);
    } else if prop_hits(attributes, n, name, jsx).contains(i) {
        lemma_props_sound(attributes, n, name, jsx, i);
    } else if key_hits(attributes, n, name, jsx).contains(i) {
        lemma_keys_sound(attributes, n, name, jsx, i);
    } else {
        lemma_spreads(attributes, n, name, jsx, i);
        let k = choose|k: int|
            {
                &&& 0 <= k < n
                &&& type_is(#[trigger] attributes[k], "JSXSpreadAttribute"@)
                &&& from_props(
                    spread_props(child(attributes[k], "argument"@), jsx.scope),
                    spread_props(child(attributes[k], "argument"@), jsx.scope).len() as int,
                    name,
                    jsx,
                    i,
                )
            };
        let props = spread_props(child(attributes[k], "argument"@), jsx.scope);
        let j = choose|j: int|
            0 <= j < props.len() && regex_accepts(jsx.pattern, (#[trigger] props[j]).name) && i
                == spread_one(props[j], name, jsx);
        lemma_tells_spread(props[j], name, jsx);
        assert(spread_props(child(attributes[k], "argument"@), jsx.scope).contains(props[j]));
    }
}

} // verus!
