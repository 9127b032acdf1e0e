//! What a scan for JSX looks for, and the incidents of variables that hold component props.

use crate::capabilities::ReferenceLocation;
use crate::estree::{
    child, children, get_children, get_children_in, get_identifier, get_number, get_string_literal,
    has_type, identifier, is_type, node_models, number_field, string_literal, type_is,
};
use crate::imports::ImportMap;
use crate::incident::{incident_models, opt_view, push_incident, Incident, IncidentV};
use crate::json::{json_size, lemma_field_smaller, lemma_item_smaller, Json, JsonV};
use crate::lookup::named;
use crate::object_props::{
    extract_object_expression_string_values, get_key_prop, key_prop, object_strings, PropV,
};
use crate::pattern::{opt_source, regex_accepts, regex_source};
use crate::scanner::{incident_at, make_incident};
use crate::scope::{Scope, ScopeV};
use crate::spans::{slice_between, slice_within, text_between, text_within};
use crate::text::{chars_of, ends_with, same, text_of, texts, trim, trimmed};
use vstd::prelude::*;

verus! {

/// Parent name for JSX found at the root of a React component definition (e.g.,
/// `const Foo: React.FC = () => <X />`). The real parent is determined where the component is
/// used.
pub const COMPONENT_RETURN_SENTINEL: &'static str = "__ComponentReturn__";

/// Parent name for JSX found inside a React hook body (e.g.,
/// `function useMyHook() { return <X />; }`). Hooks always compose their return values into a
/// parent at the call site.
pub const HOOK_RETURN_SENTINEL: &'static str = "__HookReturn__";

/// What a scan for JSX looks for, and where.
pub ghost struct JsxV {
    pub source: Seq<char>,
    pub pattern: Seq<char>,
    pub file_uri: Seq<char>,
    pub location: Option<ReferenceLocation>,
    pub scope: ScopeV,
    /// Only components with a child that matches.
    pub child: Option<Seq<char>>,
    /// Only children that do not match.
    pub not_child: Option<Seq<char>>,
    /// Only components without a child that matches.
    pub requires_child: Option<Seq<char>>,
    /// Components that pass their children through, with the component they wrap them in.
    pub transparent: Seq<(Seq<char>, Option<Seq<char>>)>,
}

/// What a scan for JSX looks for, and where.
pub struct JsxScan<'a> {
    pub source: &'a str,
    pub pattern: &'a regex::Regex,
    pub file_uri: &'a str,
    pub location: Option<ReferenceLocation>,
    pub scope: Scope<'a>,
    /// Only components with a child that matches.
    pub child: &'a Option<regex::Regex>,
    /// Only children that do not match.
    pub not_child: &'a Option<regex::Regex>,
    /// Only components without a child that matches.
    pub requires_child: &'a Option<regex::Regex>,
    /// Components that pass their children through, with the component they wrap them in.
    pub transparent: &'a Vec<(String, Option<String>)>,
}

/// What a list of transparent components holds.
pub open spec fn wrapper_models(s: Seq<(String, Option<String>)>) -> Seq<
    (Seq<char>, Option<Seq<char>>),
> {
    s.map_values(|e: (String, Option<String>)| (e.0@, opt_view(e.1)))
}

impl<'a> View for JsxScan<'a> {
    type V = JsxV;

    open spec fn view(&self) -> JsxV {
        JsxV {
            source: self.source@,
            pattern: regex_source(*self.pattern),
            file_uri: self.file_uri@,
            location: self.location,
            scope: self.scope@,
            child: opt_source(*self.child),
            not_child: opt_source(*self.not_child),
            requires_child: opt_source(*self.requires_child),
            transparent: wrapper_models(self.transparent@),
        }
    }
}

impl JsxV {
    /// Whether the pattern matches a name.
    pub open spec fn accepts(self, name: Seq<char>) -> bool {
        regex_accepts(self.pattern, name)
    }

    /// Whether components are looked for.
    pub open spec fn wants_components(self) -> bool {
        self.location is None || self.location == Some(ReferenceLocation::JsxComponent)
    }

    /// Whether props are looked for.
    pub open spec fn wants_props(self) -> bool {
        self.location is None || self.location == Some(ReferenceLocation::JsxProp)
    }

    /// An incident at a place in the file.
    pub open spec fn at(self, start: u32, end: u32) -> IncidentV {
        incident_at(self.source, self.file_uri, start, end)
    }

    /// The incident, with the module that a name is imported from.
    pub open spec fn with_module(self, i: IncidentV, key: Seq<char>, name: Seq<char>) -> IncidentV {
        match named(self.scope.imports, name) {
            Some(module) => i.with_text(key, module),
            None => i,
        }
    }
}

/// Whether a name follows the React hook naming convention: starts with `use` followed by an
/// uppercase letter.
pub open spec fn is_hook(name: Seq<char>) -> bool {
    name.len() > 3 && name[0] == 'u' && name[1] == 's' && name[2] == 'e' && 'A' <= name[3] <= 'Z'
}

/// Check whether a name follows the React hook naming convention: starts with `use` followed by
/// an uppercase letter (e.g., `useToolbar`, `useMyHook`).
pub fn is_hook_name(name: &str) -> (r: bool)
    ensures
        r == is_hook(name@),
{
    let c = chars_of(name);
    c.len() > 3 && c[0] == 'u' && c[1] == 's' && c[2] == 'e' && 'A' <= c[3] && c[3] <= 'Z'
}

/// The name in a type reference, as the source has it.
pub open spec fn reference_name(v: JsonV, source: Seq<char>) -> Seq<char> {
    let name = child(v, "typeName"@);
    match text_between(
        source,
        number_field(name, "start"@) as int,
        number_field(name, "end"@) as int,
    ) {
        Some(t) => t,
        None => Seq::empty(),
    }
}

fn get_reference_name(node: &Json, source: &str) -> (r: String)
    ensures
        r@ == reference_name(node@, source@),
{
    let (start, end): (u32, u32) = match node.get("typeName") {
        Some(name) => (get_number(name, "start"), get_number(name, "end")),
        None => (0, 0),
    };
    match slice_between(source, start, end) {
        Some(t) => t,
        None => {
            let r = String::new();
            assert(r@ =~= Seq::<char>::empty());
            r
        },
    }
}

/// Whether a type is a React component type.
pub open spec fn component_type(v: JsonV, source: Seq<char>) -> bool {
    let name = reference_name(v, source);
    type_is(v, "TSTypeReference"@) && (name == "React.FC"@ || name == "React.FunctionComponent"@
        || name == "React.ComponentType"@ || name == "FC"@ || name == "FunctionComponent"@)
}

/// Return `true` if the type is a React component type reference.
pub fn type_is_react_component(node: &Json, source: &str) -> (r: bool)
    ensures
        r == component_type(node@, source@),
{
    if !is_type(node, "TSTypeReference") {
        return false;
    }
    let name = get_reference_name(node, source);
    let n = name.as_str();
    same(n, "React.FC") || same(n, "React.FunctionComponent") || same(n, "React.ComponentType")
        || same(n, "FC") || same(n, "FunctionComponent")
}

/// The type that a declarator is annotated with.
pub open spec fn annotation(d: JsonV) -> JsonV {
    child(child(child(d, "id"@), "typeAnnotation"@), "typeAnnotation"@)
}

fn get_annotation<'a>(d: &'a Json) -> (r: Option<&'a Json>)
    ensures
        match r {
            Some(t) => annotation(d@) == t@,
            None => annotation(d@) is Null,
        },
{
    if let Some(id) = d.get("id") {
        if let Some(a) = id.get("typeAnnotation") {
            return a.get("typeAnnotation");
        }
    }
    None
}

/// The parent that what a declarator is initialised with is rendered in.
pub open spec fn declarator_parent(
    d: JsonV,
    source: Seq<char>,
    parent: Option<Seq<char>>,
) -> Option<Seq<char>> {
    if component_type(annotation(d), source) {
        Some(COMPONENT_RETURN_SENTINEL@)
    } else if identifier(child(d, "id"@)) is Some && is_hook(identifier(child(d, "id"@))->0) {
        Some(HOOK_RETURN_SENTINEL@)
    } else {
        parent
    }
}

/// The parent that what a declared function returns is rendered in.
pub open spec fn function_parent(f: JsonV, parent: Option<Seq<char>>) -> Option<Seq<char>> {
    if identifier(child(f, "id"@)) is Some && is_hook(identifier(child(f, "id"@))->0) {
        Some(HOOK_RETURN_SENTINEL@)
    } else {
        parent
    }
}

/// What an optional name holds.
pub open spec fn parent_view(parent: Option<&str>) -> Option<Seq<char>> {
    match parent {
        Some(p) => Some(p@),
        None => None,
    }
}

fn named_like_hook(node: &Json) -> (r: bool)
    ensures
        r == (identifier(child(node@, "id"@)) is Some && is_hook(
            identifier(child(node@, "id"@))->0,
        )),
{
    match node.get("id") {
        Some(id) => match get_identifier(id) {
            Some(name) => is_hook_name(name),
            None => false,
        },
        None => false,
    }
}

/// The parent for what a variable is initialised with. When a variable is typed as a React
/// component, JSX inside the initializer is a component definition. When a variable name follows
/// the React hook convention, any JSX in its body is composed elsewhere.
pub(crate) fn parent_in_declarator<'a>(d: &Json, source: &str, parent: Option<&'a str>) -> (r:
    Option<&'a str>)
    ensures
        parent_view(r) == declarator_parent(d@, source@, parent_view(parent)),
{
    if let Some(t) = get_annotation(d) {
        if type_is_react_component(t, source) {
            return Some(COMPONENT_RETURN_SENTINEL);
        }
    }
    if named_like_hook(d) {
        Some(HOOK_RETURN_SENTINEL)
    } else {
        parent
    }
}

/// If the function declaration is a React hook, the hook sentinel, so that JSX in its body is
/// treated as indirect usage. Otherwise, the passed-in parent.
pub(crate) fn fn_decl_effective_parent<'a>(f: &Json, parent: Option<&'a str>) -> (r: Option<
    &'a str,
>)
    ensures
        parent_view(r) == function_parent(f@, parent_view(parent)),
{
    if named_like_hook(f) {
        Some(HOOK_RETURN_SENTINEL)
    } else {
        parent
    }
}

/// Whether a type is a wrapper around the type that counts.
pub open spec fn is_utility_type(name: Seq<char>) -> bool {
    name == "Partial"@ || name == "Required"@ || name == "Readonly"@ || name == "Pick"@ || name
        == "Omit"@
}

/// The component and the module that a name of a props type stands for.
pub open spec fn props_name(
    name: Seq<char>,
    imports: Seq<(Seq<char>, Seq<char>)>,
) -> Option<(Seq<char>, Seq<char>)> {
    match named(imports, name) {
        Some(module) => if "Props"@.is_suffix_of(name) && name.len() > 5 {
            Some((name.take(name.len() - 5), module))
        } else {
            None
        },
        None => None,
    }
}

/// The component and the module that a props type stands for: a direct reference, a utility
/// wrapper, or the first of the types that intersect.
pub open spec fn props_type(
    v: JsonV,
    source: Seq<char>,
    imports: Seq<(Seq<char>, Seq<char>)>,
) -> Option<(Seq<char>, Seq<char>)>
    decreases json_size(v), 1nat, 0nat,
{
    let arguments = child(v, "typeArguments"@);
    let params = children(arguments, "params"@);
    if type_is(v, "TSTypeReference"@) && props_name(reference_name(v, source), imports) is Some {
        props_name(reference_name(v, source), imports)
    } else if type_is(v, "TSTypeReference"@) && is_utility_type(reference_name(v, source))
        && params.len() > 0 {
        proof {
            lemma_nested_item(v, "typeArguments"@, "params"@, 0);
        }
        props_type(params[0], source, imports)
    } else if type_is(v, "TSIntersectionType"@) {
        first_props(v, children(v, "types"@), 0, source, imports)
    } else {
        None
    }
}

/// The first of the types, from index `i` on, that stands for a component.
pub open spec fn first_props(
    v: JsonV,
    list: Seq<JsonV>,
    i: int,
    source: Seq<char>,
    imports: Seq<(Seq<char>, Seq<char>)>,
) -> Option<(Seq<char>, Seq<char>)>
    decreases json_size(v), 0nat, list.len() - i,
{
    if i < 0 || i >= list.len() || json_size(list[i]) >= json_size(v) {
        None
    } else {
        match props_type(list[i], source, imports) {
            Some(found) => Some(found),
            None => first_props(v, list, i + 1, source, imports),
        }
    }
}

/// What stands in a list two fields down is smaller.
pub proof fn lemma_nested_item(v: JsonV, key: Seq<char>, inner: Seq<char>, i: int)
    requires
        0 <= i < children(child(v, key), inner).len(),
    ensures
        json_size(children(child(v, key), inner)[i]) < json_size(v),
{
    let x = child(v, key);
    lemma_field_smaller(v, key);
    lemma_child_item(x, inner, i);
}

/// What stands in a list is smaller.
pub proof fn lemma_child_item(v: JsonV, key: Seq<char>, i: int)
    requires
        0 <= i < children(v, key).len(),
    ensures
        json_size(children(v, key)[i]) < json_size(v),
{
    lemma_field_smaller(v, key);
    lemma_item_smaller(child(v, key), i);
}

fn check_utility_type(name: &str) -> (r: bool)
    ensures
        r == is_utility_type(name@),
{
    same(name, "Partial") || same(name, "Required") || same(name, "Readonly") || same(name, "Pick")
        || same(name, "Omit")
}

/// What a component and a module are called.
pub open spec fn pair_view(r: Option<(String, String)>) -> Option<(Seq<char>, Seq<char>)> {
    match r {
        Some((a, b)) => Some((a@, b@)),
        None => None,
    }
}

fn find_props_name(name: &str, imports: &ImportMap) -> (r: Option<(String, String)>)
    ensures
        pair_view(r) == props_name(name@, imports@),
{
    let module = match imports.get(name) {
        Some(m) => m,
        None => return None,
    };
    let c = chars_of(name);
    if ends_with(name, "Props") && c.len() > 5 {
        let component = text_of(&c, 0, c.len() - 5);
        assert(component@ =~= name@.take(name@.len() - 5));
        Some((component, module.to_owned()))
    } else {
        None
    }
}

/// Try to resolve a type to a (component name, module) pair.
///
/// Handles direct references like `ToolbarItemProps`, utility wrappers like
/// `Partial<ToolbarItemProps>`, and intersections.
pub fn resolve_type_to_props(node: &Json, source: &str, imports: &ImportMap) -> (r: Option<
    (String, String),
>)
    ensures
        pair_view(r) == props_type(node@, source@, imports@),
    decreases json_size(node@),
{
    if is_type(node, "TSTypeReference") {
        let name = get_reference_name(node, source);
        if let Some(found) = find_props_name(name.as_str(), imports) {
            return Some(found);
        }
        if check_utility_type(name.as_str()) {
            let params = get_children_in(node, "typeArguments", "params");
            if params.len() > 0 {
                proof {
                    lemma_nested_item(node@, "typeArguments"@, "params"@, 0);
                }
                assert(node_models(params@)[0] == params@[0]@);
                return resolve_type_to_props(params[0], source, imports);
            }
        }
    }
    if is_type(node, "TSIntersectionType") {
        let list = get_children(node, "types");
        let ghost all = children(node@, "types"@);
        let mut i: usize = 0;
        while i < list.len()
            invariant
                i <= list@.len(),
                all == node_models(list@),
                all == children(node@, "types"@),
                props_type(node@, source@, imports@) == first_props(
                    node@,
                    all,
                    i as int,
                    source@,
                    imports@,
                ),
            decreases list.len() - i,
        {
            proof {
                lemma_child_item(node@, "types"@, i as int);
            }
            assert(all[i as int] == list@[i as int]@);
            if let Some(found) = resolve_type_to_props(list[i], source, imports) {
                return Some(found);
            }
            i = i + 1;
        }
    }
    None
}

/// The place of a value, as the source has it.
pub open spec fn span_text(v: JsonV, source: Seq<char>) -> Seq<char> {
    trimmed(
        text_within(
            source,
            number_field(v, "start"@) as int,
            number_field(v, "end"@) as int,
        ),
    )
}

fn get_span_text(node: &Json, source: &str) -> (r: String)
    ensures
        r@ == span_text(node@, source@),
{
    let t = slice_within(source, get_number(node, "start"), get_number(node, "end"));
    trim(t.as_str())
}

/// A list of texts, as a value.
pub open spec fn text_list(list: Seq<Seq<char>>) -> JsonV {
    JsonV::List(list.map_values(|s: Seq<char>| JsonV::Text(s)))
}

fn make_text_list(list: &Vec<String>) -> (r: Json)
    ensures
        r@ == text_list(texts(list@)),
{
    let mut out: Vec<Json> = Vec::new();
    let mut i: usize = 0;
    while i < list.len()
        invariant
            i <= list@.len(),
            out@.len() == i,
            forall|k: int| 0 <= k < i ==> (#[trigger] out@[k])@ == JsonV::Text(list@[k]@),
        decreases list.len() - i,
    {
        out.push(Json::Text(list[i].as_str().to_owned()));
        i = i + 1;
    }
    let r = Json::List(out);
    assert(r@->List_0 =~= text_list(texts(list@))->List_0);
    r
}

/// The incident, with the strings that an object holds.
pub open spec fn with_strings(i: IncidentV, list: Seq<Seq<char>>) -> IncidentV {
    if list.len() > 0 {
        i.with("propObjectValues"@, text_list(list))
    } else {
        i
    }
}

pub(crate) fn set_strings(incident: &mut Incident, list: &Vec<String>)
    ensures
        final(incident)@ == with_strings(old(incident)@, texts(list@)),
{
    assert(texts(list@).len() == list@.len());
    if list.len() > 0 {
        incident.set("propObjectValues", make_text_list(list));
    }
}

/// The incident for a property of a typed object literal.
pub open spec fn typed_prop(
    p: JsonV,
    key: PropV,
    component: Seq<char>,
    module: Seq<char>,
    jsx: JsxV,
) -> IncidentV {
    let value = child(p, "value"@);
    let base = jsx.at(key.start, key.end).with_text("propName"@, key.name).with_text(
        "componentName"@,
        component,
    ).with_text("module"@, module);
    match string_literal(value) {
        Some(s) => base.with_text("propValue"@, s),
        None => (if type_is(value, "ObjectExpression"@) {
            with_strings(base, object_strings(value))
        } else {
            base
        }).with_text("propValue"@, span_text(value, jsx.source)),
    }
}

/// The incidents for the first `n` properties of a typed object literal.
pub open spec fn typed_props(
    properties: Seq<JsonV>,
    n: int,
    component: Seq<char>,
    module: Seq<char>,
    jsx: JsxV,
) -> Seq<IncidentV>
    decreases n,
{
    if n <= 0 || n > properties.len() {
        Seq::empty()
    } else {
        let before = typed_props(properties, n - 1, component, module, jsx);
        match key_prop(properties[n - 1]) {
            Some(key) => if jsx.accepts(key.name) {
                before.push(typed_prop(properties[n - 1], key, component, module, jsx))
            } else {
                before
            },
            None => before,
        }
    }
}

/// The incidents for a variable that is declared with a props type and initialised with an object
/// literal.
pub open spec fn typed_object_hits(d: JsonV, jsx: JsxV) -> Seq<IncidentV> {
    let init = child(d, "init"@);
    let properties = children(init, "properties"@);
    match props_type(annotation(d), jsx.source, jsx.scope.imports) {
        Some((component, module)) => if jsx.wants_props() && type_is(init, "ObjectExpression"@) {
            typed_props(properties, properties.len() as int, component, module, jsx)
        } else {
            Seq::empty()
        },
        None => Seq::empty(),
    }
}

/// Sets the value of a property of a typed object literal.
fn set_typed_value(incident: &mut Incident, p: &Json, source: &str)
    ensures
        final(incident)@ == ({
            let value = child(p@, "value"@);
            match string_literal(value) {
                Some(s) => old(incident)@.with_text("propValue"@, s),
                None => (if type_is(value, "ObjectExpression"@) {
                    with_strings(old(incident)@, object_strings(value))
                } else {
                    old(incident)@
                }).with_text("propValue"@, span_text(value, source@)),
            }
        }),
{
    match p.get("value") {
        Some(value) => {
            if let Some(s) = get_string_literal(value) {
                incident.set_text("propValue", s);
                return;
            }
            if is_type(value, "ObjectExpression") {
                let list = extract_object_expression_string_values(value);
                set_strings(incident, &list);
            }
            let t = get_span_text(value, source);
            incident.set_text("propValue", t.as_str());
        },
        None => {
            let t = get_span_text(&Json::Null, source);
            incident.set_text("propValue", t.as_str());
        },
    }
}

/// Check a typed object literal for prop pattern matches.
///
/// When a variable is declared with a props type and initialized with an object literal, the
/// object's properties represent component props. Matches property keys against the pattern and
/// creates incidents as if they were JSX prop usages.
pub(crate) fn check_typed_object_literal(d: &Json, scan: &JsxScan<'_>, out: &mut Vec<Incident>)
    ensures
        incident_models(final(out)@) == incident_models(old(out)@) + typed_object_hits(d@, scan@),
{
    let ghost before = incident_models(out@);
    assert(before + Seq::<IncidentV>::empty() =~= before);
    if !wants(scan.location, ReferenceLocation::JsxProp) {
        return;
    }
    let t = match get_annotation(d) {
        Some(t) => t,
        None => return,
    };
    let (component, module) = match resolve_type_to_props(t, scan.source, scan.scope.imports) {
        Some(found) => found,
        None => return,
    };
    if !has_type(d, "init", "ObjectExpression") {
        return;
    }
    let properties = get_children_in(d, "init", "properties");
    let ghost all = children(child(d@, "init"@), "properties"@);
    let ghost jsx = scan@;
    let mut i: usize = 0;
    while i < properties.len()
        invariant
            i <= properties@.len(),
            all == node_models(properties@),
            jsx == scan@,
            incident_models(out@) == before + typed_props(
                all,
                i as int,
                component@,
                module@,
                jsx,
            ),
        decreases properties.len() - i,
    {
        let p = properties[i];
        assert(all[i as int] == p@);
        if let Some(key) = get_key_prop(p) {
            if scan.pattern.is_match(key.name.as_str()) {
                let mut incident = make_incident(scan.source, scan.file_uri, key.start, key.end);
                incident.set_text("propName", key.name.as_str());
                incident.set_text("componentName", component.as_str());
                incident.set_text("module", module.as_str());
                set_typed_value(&mut incident, p, scan.source);
                push_incident(out, incident);
            }
        }
        i = i + 1;
        assert(incident_models(out@) =~= before + typed_props(
            all,
            i as int,
            component@,
            module@,
            jsx,
        ));
    }
}

/// Whether a place is searched.
pub(crate) fn wants(location: Option<ReferenceLocation>, place: ReferenceLocation) -> (r: bool)
    ensures
        r == (location is None || location == Some(place)),
{
    match location {
        Some(l) => l == place,
        None => true,
    }
}

} // verus!
