//! Property names and values of object expressions, and of what is spread over a JSX element.

use crate::estree::{
    child, children, flag, get_children, get_children_in, get_flag, get_identifier, get_number,
    get_string_literal, get_text, has_type, identifier, is_type, node_models, number_field,
    string_literal, text_field, type_is,
};
use crate::exports::{export_models, Export, ExportV};
use crate::json::{field, json_size, lemma_field_smaller, Json, JsonV};
use crate::locals::find_local;
use crate::lookup::named;
use crate::scope::{Scope, ScopeV};
use crate::text::{same, texts};
use vstd::prelude::*;

verus! {

/// A property name and where it stands.
pub ghost struct PropV {
    pub name: Seq<char>,
    pub start: u32,
    pub end: u32,
}

/// A property name and where it stands.
#[derive(Debug)]
pub struct Prop {
    pub name: String,
    pub start: u32,
    pub end: u32,
}

impl View for Prop {
    type V = PropV;

    open spec fn view(&self) -> PropV {
        PropV { name: self.name@, start: self.start, end: self.end }
    }
}

/// What some properties hold.
pub open spec fn prop_models(s: Seq<Prop>) -> Seq<PropV> {
    s.map_values(|p: Prop| p@)
}

/// The name of a property of an object expression, where it is a plain identifier or a string.
pub open spec fn key_name(p: JsonV) -> Option<Seq<char>> {
    let key = child(p, "key"@);
    if !type_is(p, "Property"@) {
        None
    } else if !flag(p, "computed"@) && identifier(key) is Some {
        identifier(key)
    } else {
        string_literal(key)
    }
}

/// The name of a property, with its place.
pub open spec fn key_prop(p: JsonV) -> Option<PropV> {
    let key = child(p, "key"@);
    match key_name(p) {
        Some(name) => Some(
            PropV {
                name,
                start: number_field(key, "start"@),
                end: number_field(key, "end"@),
            },
        ),
        None => None,
    }
}

/// The names of the first `n` properties.
pub open spec fn key_props(properties: Seq<JsonV>, n: int) -> Seq<PropV>
    decreases n,
{
    if n <= 0 || n > properties.len() {
        Seq::empty()
    } else {
        match key_prop(properties[n - 1]) {
            Some(p) => key_props(properties, n - 1).push(p),
            None => key_props(properties, n - 1),
        }
    }
}

/// The property names of an object expression. Computed names and spreads are left out.
pub open spec fn object_props(v: JsonV) -> Seq<PropV> {
    key_props(children(v, "properties"@), children(v, "properties"@).len() as int)
}

/// The property names of the object that an expression returns, inside parentheses and type
/// assertions.
pub open spec fn returned_props(v: JsonV) -> Seq<PropV>
    decreases json_size(v),
{
    if type_is(v, "ObjectExpression"@) {
        object_props(v)
    } else if (type_is(v, "ParenthesizedExpression"@) || type_is(v, "TSAsExpression"@) || type_is(
        v,
        "TSSatisfiesExpression"@,
    )) && field(v, "expression"@) is Some {
        proof {
            lemma_field_smaller(v, "expression"@);
        }
        returned_props(child(v, "expression"@))
    } else {
        Seq::empty()
    }
}

/// The property names of what the first `n` statements return.
pub open spec fn body_props(stmts: Seq<JsonV>, n: int) -> Seq<PropV>
    decreases n,
{
    if n <= 0 || n > stmts.len() {
        Seq::empty()
    } else if type_is(stmts[n - 1], "ReturnStatement"@) {
        body_props(stmts, n - 1) + returned_props(child(stmts[n - 1], "argument"@))
    } else {
        body_props(stmts, n - 1)
    }
}

/// The property names of what the statements of a function return.
pub open spec fn statement_props(f: JsonV) -> Seq<PropV> {
    let stmts = children(child(f, "body"@), "body"@);
    body_props(stmts, stmts.len() as int)
}

/// The property names of what a function expression returns.
pub open spec fn function_props(v: JsonV) -> Seq<PropV> {
    if type_is(v, "ArrowFunctionExpression"@) {
        if flag(v, "expression"@) {
            returned_props(child(v, "body"@))
        } else {
            statement_props(v)
        }
    } else if type_is(v, "FunctionExpression"@) {
        statement_props(v)
    } else {
        Seq::empty()
    }
}

/// The property names of a value, be it an object or a function that returns one.
pub open spec fn value_props(v: JsonV) -> Seq<PropV> {
    if type_is(v, "ObjectExpression"@) {
        object_props(v)
    } else {
        function_props(v)
    }
}

/// The property names of the first `n` exports. Of one that is called only what it returns
/// counts.
pub open spec fn export_props(found: Seq<ExportV>, n: int, called: bool) -> Seq<PropV>
    decreases n,
{
    if n <= 0 || n > found.len() {
        Seq::empty()
    } else {
        export_props(found, n - 1, called) + (match found[n - 1] {
            ExportV::Expression(e) => if called {
                function_props(e)
            } else {
                value_props(e)
            },
            ExportV::Function(f) => statement_props(f),
        })
    }
}

/// Names that all stand at one place.
pub open spec fn props_at(names: Seq<Seq<char>>, start: u32, end: u32) -> Seq<PropV> {
    names.map_values(|name: Seq<char>| PropV { name, start, end })
}

/// The property names that an identifier stands for.
pub open spec fn identifier_props(v: JsonV, name: Seq<char>, scope: ScopeV) -> Seq<PropV> {
    match named(scope.locals, name) {
        Some(e) => value_props(e),
        None => match scope.known_properties(name) {
            Some(names) => props_at(
                names,
                number_field(v, "start"@),
                number_field(v, "end"@),
            ),
            None => {
                let found = scope.exported(name);
                export_props(found, found.len() as int, false)
            },
        },
    }
}

/// The property names of what a called function returns.
pub open spec fn call_props(name: Seq<char>, scope: ScopeV) -> Seq<PropV> {
    match named(scope.locals, name) {
        Some(e) => function_props(e),
        None => {
            let found = scope.exported(name);
            export_props(found, found.len() as int, true)
        },
    }
}

/// The property names of a spread expression.
pub open spec fn spread_props(v: JsonV, scope: ScopeV) -> Seq<PropV>
    decreases json_size(v),
{
    if type_is(v, "ObjectExpression"@) {
        object_props(v)
    } else if type_is(v, "ParenthesizedExpression"@) && field(v, "expression"@) is Some {
        proof {
            lemma_field_smaller(v, "expression"@);
        }
        spread_props(child(v, "expression"@), scope)
    } else if type_is(v, "LogicalExpression"@) && text_field(v, "operator"@) == Some("&&"@)
        && field(v, "right"@) is Some {
        proof {
            lemma_field_smaller(v, "right"@);
        }
        spread_props(child(v, "right"@), scope)
    } else if type_is(v, "ConditionalExpression"@) && field(v, "consequent"@) is Some && field(
        v,
        "alternate"@,
    ) is Some {
        proof {
            lemma_field_smaller(v, "consequent"@);
            lemma_field_smaller(v, "alternate"@);
        }
        spread_props(child(v, "consequent"@), scope) + spread_props(child(v, "alternate"@), scope)
    } else if identifier(v) is Some {
        identifier_props(v, identifier(v)->0, scope)
    } else if type_is(v, "CallExpression"@) && identifier(child(v, "callee"@)) is Some {
        call_props(identifier(child(v, "callee"@))->0, scope)
    } else {
        Seq::empty()
    }
}

/// The name of a property of an object expression.
pub fn get_key_name(p: &Json) -> (r: Option<&str>)
    ensures
        match r {
            Some(n) => key_name(p@) == Some(n@),
            None => key_name(p@) is None,
        },
{
    if !is_type(p, "Property") {
        return None;
    }
    let key = match p.get("key") {
        Some(k) => k,
        None => return None,
    };
    if !get_flag(p, "computed") {
        if let Some(n) = get_identifier(key) {
            return Some(n);
        }
    }
    get_string_literal(key)
}

/// The name of a property, with its place.
pub fn get_key_prop(p: &Json) -> (r: Option<Prop>)
    ensures
        (match r {
            Some(x) => Some(x@),
            None => None,
        }) == key_prop(p@),
{
    match (get_key_name(p), p.get("key")) {
        (Some(name), Some(key)) => Some(
            Prop {
                name: name.to_owned(),
                start: get_number(key, "start"),
                end: get_number(key, "end"),
            },
        ),
        _ => None,
    }
}

fn push_prop(out: &mut Vec<Prop>, p: Prop)
    ensures
        prop_models(final(out)@) == prop_models(old(out)@).push(p@),
{
    out.push(p);
    assert(prop_models(out@) =~= prop_models(old(out)@).push(p@));
}

/// Extract property names and their spans from an object expression.
fn collect_props_from_object(obj: &Json, out: &mut Vec<Prop>)
    ensures
        prop_models(final(out)@) == prop_models(old(out)@) + object_props(obj@),
{
    let properties = get_children(obj, "properties");
    let ghost list = children(obj@, "properties"@);
    let ghost before = prop_models(out@);
    let mut i: usize = 0;
    assert(before + key_props(list, 0) =~= before);
    while i < properties.len()
        invariant
            i <= properties@.len(),
            list == node_models(properties@),
            prop_models(out@) == before + key_props(list, i as int),
        decreases properties.len() - i,
    {
        assert(list[i as int] == properties@[i as int]@);
        if let Some(p) = get_key_prop(properties[i]) {
            push_prop(out, p);
        }
        i = i + 1;
        assert(prop_models(out@) =~= before + key_props(list, i as int));
    }
}

/// Extract object properties from a return expression, unwrapping parentheses and type
/// assertions.
fn extract_obj_props_from_return_expr(v: &Json, out: &mut Vec<Prop>)
    ensures
        prop_models(final(out)@) == prop_models(old(out)@) + returned_props(v@),
    decreases json_size(v@),
{
    if is_type(v, "ObjectExpression") {
        collect_props_from_object(v, out);
        return;
    }
    if is_type(v, "ParenthesizedExpression") || is_type(v, "TSAsExpression") || is_type(
        v,
        "TSSatisfiesExpression",
    ) {
        if let Some(x) = v.get("expression") {
            proof {
                lemma_field_smaller(v@, "expression"@);
            }
            extract_obj_props_from_return_expr(x, out);
            return;
        }
    }
    assert(prop_models(out@) =~= prop_models(old(out)@) + returned_props(v@));
}

/// The property names of what stands in a field.
fn returned_in(v: &Json, key: &str, out: &mut Vec<Prop>)
    ensures
        prop_models(final(out)@) == prop_models(old(out)@) + returned_props(child(v@, key@)),
{
    match v.get(key) {
        Some(x) => extract_obj_props_from_return_expr(x, out),
        None => {
            assert(prop_models(out@) =~= prop_models(old(out)@) + returned_props(child(v@, key@)));
        },
    }
}

/// Extract object property names from return statements in a function body.
fn extract_return_object_props_from_body(f: &Json, out: &mut Vec<Prop>)
    ensures
        prop_models(final(out)@) == prop_models(old(out)@) + statement_props(f@),
{
    let stmts = get_children_in(f, "body", "body");
    let ghost list = children(child(f@, "body"@), "body"@);
    let ghost before = prop_models(out@);
    let mut i: usize = 0;
    assert(before + body_props(list, 0) =~= before);
    while i < stmts.len()
        invariant
            i <= stmts@.len(),
            list == node_models(stmts@),
            prop_models(out@) == before + body_props(list, i as int),
        decreases stmts.len() - i,
    {
        assert(list[i as int] == stmts@[i as int]@);
        if is_type(stmts[i], "ReturnStatement") {
            returned_in(stmts[i], "argument", out);
        }
        i = i + 1;
        assert(prop_models(out@) =~= before + body_props(list, i as int));
    }
}

/// Extract object property names from a function's return value.
fn extract_return_object_props(v: &Json, out: &mut Vec<Prop>)
    ensures
        prop_models(final(out)@) == prop_models(old(out)@) + function_props(v@),
{
    if is_type(v, "ArrowFunctionExpression") {
        if get_flag(v, "expression") {
            returned_in(v, "body", out);
        } else {
            extract_return_object_props_from_body(v, out);
        }
    } else if is_type(v, "FunctionExpression") {
        extract_return_object_props_from_body(v, out);
    } else {
        assert(prop_models(out@) =~= prop_models(old(out)@) + function_props(v@));
    }
}

fn collect_value_props(v: &Json, out: &mut Vec<Prop>)
    ensures
        prop_models(final(out)@) == prop_models(old(out)@) + value_props(v@),
{
    if is_type(v, "ObjectExpression") {
        collect_props_from_object(v, out);
    } else {
        extract_return_object_props(v, out);
    }
}

fn collect_export_props(found: &Vec<Export<'_>>, called: bool, out: &mut Vec<Prop>)
    ensures
        prop_models(final(out)@) == prop_models(old(out)@) + export_props(
            export_models(found@),
            found@.len() as int,
            called,
        ),
{
    let ghost list = export_models(found@);
    let ghost before = prop_models(out@);
    let mut i: usize = 0;
    assert(before + export_props(list, 0, called) =~= before);
    while i < found.len()
        invariant
            i <= found@.len(),
            list == export_models(found@),
            prop_models(out@) == before + export_props(list, i as int, called),
        decreases found.len() - i,
    {
        assert(list[i as int] == found@[i as int]@);
        match &found[i] {
            Export::Expression(e) => if called {
                extract_return_object_props(e, out);
            } else {
                collect_value_props(e, out);
            },
            Export::Function(f) => extract_return_object_props_from_body(f, out),
        }
        i = i + 1;
        assert(prop_models(out@) =~= before + export_props(list, i as int, called));
    }
}

fn add_props_at(names: &Vec<String>, start: u32, end: u32, out: &mut Vec<Prop>)
    ensures
        prop_models(final(out)@) == prop_models(old(out)@) + props_at(texts(names@), start, end),
{
    let ghost all = props_at(texts(names@), start, end);
    let ghost before = prop_models(out@);
    let mut i: usize = 0;
    assert(before + all.take(0) =~= before);
    while i < names.len()
        invariant
            i <= names@.len(),
            all == props_at(texts(names@), start, end),
            prop_models(out@) == before + all.take(i as int),
        decreases names.len() - i,
    {
        let p = Prop { name: names[i].as_str().to_owned(), start, end };
        assert(all[i as int] == p@);
        push_prop(out, p);
        i = i + 1;
        assert(prop_models(out@) =~= before + all.take(i as int));
    }
    assert(all.take(all.len() as int) =~= all);
}

fn collect_identifier_props(v: &Json, name: &str, scope: &Scope<'_>, out: &mut Vec<Prop>)
    ensures
        prop_models(final(out)@) == prop_models(old(out)@) + identifier_props(v@, name@, scope@),
{
    if let Some(e) = find_local(scope.locals, name) {
        collect_value_props(e, out);
    } else if let Some(names) = scope.find_properties(name) {
        add_props_at(names, get_number(v, "start"), get_number(v, "end"), out);
    } else {
        let found = scope.find_exports(name);
        collect_export_props(&found, false, out);
    }
}

fn collect_call_props(name: &str, scope: &Scope<'_>, out: &mut Vec<Prop>)
    ensures
        prop_models(final(out)@) == prop_models(old(out)@) + call_props(name@, scope@),
{
    match find_local(scope.locals, name) {
        Some(e) => extract_return_object_props(e, out),
        None => {
            let found = scope.find_exports(name);
            collect_export_props(&found, true, out);
        },
    }
}

/// Recursively collect property names from a spread expression.
///
/// Handles object literals, parentheses, the right-hand side of `&&`, both branches of a
/// ternary, identifiers of objects and functions, and function calls. Names are resolved among
/// the local variables first, then across files.
fn collect_spread_props(v: &Json, scope: &Scope<'_>, out: &mut Vec<Prop>)
    ensures
        prop_models(final(out)@) == prop_models(old(out)@) + spread_props(v@, scope@),
    decreases json_size(v@),
{
    let ghost before = prop_models(out@);
    if is_type(v, "ObjectExpression") {
        collect_props_from_object(v, out);
        return;
    }
    if is_type(v, "ParenthesizedExpression") {
        if let Some(x) = v.get("expression") {
            proof {
                lemma_field_smaller(v@, "expression"@);
            }
            collect_spread_props(x, scope, out);
            return;
        }
    }
    if is_type(v, "LogicalExpression") {
        if let Some(operator) = get_text(v, "operator") {
            if same(operator, "&&") {
                if let Some(x) = v.get("right") {
                    proof {
                        lemma_field_smaller(v@, "right"@);
                    }
                    collect_spread_props(x, scope, out);
                    return;
                }
            }
        }
    }
    if is_type(v, "ConditionalExpression") {
        if let (Some(a), Some(b)) = (v.get("consequent"), v.get("alternate")) {
            proof {
                lemma_field_smaller(v@, "consequent"@);
                lemma_field_smaller(v@, "alternate"@);
            }
            collect_spread_props(a, scope, out);
            collect_spread_props(b, scope, out);
            assert(prop_models(out@) =~= before + spread_props(v@, scope@));
            return;
        }
    }
    if let Some(name) = get_identifier(v) {
        collect_identifier_props(v, name, scope, out);
        return;
    }
    if is_type(v, "CallExpression") {
        if let Some(callee) = v.get("callee") {
            if let Some(name) = get_identifier(callee) {
                collect_call_props(name, scope, out);
                return;
            }
        }
    }
    assert(prop_models(out@) =~= before + spread_props(v@, scope@));
}

/// Extract property names from a spread expression.
pub fn extract_spread_prop_names(v: &Json, scope: &Scope<'_>) -> (out: Vec<Prop>)
    ensures
        prop_models(out@) == spread_props(v@, scope@),
{
    let mut out: Vec<Prop> = Vec::new();
    assert(prop_models(out@) =~= Seq::<PropV>::empty());
    collect_spread_props(v, scope, &mut out);
    assert(prop_models(out@) =~= spread_props(v@, scope@));
    out
}

/// The string that a property has as its value.
pub open spec fn property_string(p: JsonV) -> Option<Seq<char>> {
    if type_is(p, "Property"@) {
        string_literal(child(p, "value"@))
    } else {
        None
    }
}

/// The strings among the values of the first `n` properties.
pub open spec fn property_strings(properties: Seq<JsonV>, n: int) -> Seq<Seq<char>>
    decreases n,
{
    if n <= 0 || n > properties.len() {
        Seq::empty()
    } else {
        match property_string(properties[n - 1]) {
            Some(s) => property_strings(properties, n - 1).push(s),
            None => property_strings(properties, n - 1),
        }
    }
}

/// The strings of the first `n` properties: their values, or those of the objects that are their
/// values.
pub open spec fn value_strings(properties: Seq<JsonV>, n: int) -> Seq<Seq<char>>
    decreases n,
{
    if n <= 0 || n > properties.len() {
        Seq::empty()
    } else {
        let before = value_strings(properties, n - 1);
        let p = properties[n - 1];
        let value = child(p, "value"@);
        if property_string(p) is Some {
            before.push(property_string(p)->0)
        } else if type_is(p, "Property"@) && type_is(value, "ObjectExpression"@) {
            let nested = children(value, "properties"@);
            before + property_strings(nested, nested.len() as int)
        } else {
            before
        }
    }
}

/// The strings in an object expression, down to the second level.
pub open spec fn object_strings(v: JsonV) -> Seq<Seq<char>> {
    value_strings(children(v, "properties"@), children(v, "properties"@).len() as int)
}

/// The strings in an expression: an object, both branches of a ternary, a string.
pub open spec fn expression_strings(v: JsonV) -> Seq<Seq<char>>
    decreases json_size(v),
{
    if type_is(v, "ObjectExpression"@) {
        object_strings(v)
    } else if type_is(v, "ParenthesizedExpression"@) && field(v, "expression"@) is Some {
        proof {
            lemma_field_smaller(v, "expression"@);
        }
        expression_strings(child(v, "expression"@))
    } else if type_is(v, "ConditionalExpression"@) && field(v, "consequent"@) is Some && field(
        v,
        "alternate"@,
    ) is Some {
        proof {
            lemma_field_smaller(v, "consequent"@);
            lemma_field_smaller(v, "alternate"@);
        }
        expression_strings(child(v, "consequent"@)) + expression_strings(child(v, "alternate"@))
    } else {
        match string_literal(v) {
            Some(s) => seq![s],
            None => Seq::empty(),
        }
    }
}

/// The strings in the expression that is the value of a JSX attribute. A string by itself does
/// not count.
pub open spec fn attribute_strings(v: JsonV) -> Seq<Seq<char>> {
    if string_literal(v) is Some {
        Seq::empty()
    } else {
        expression_strings(v)
    }
}

fn push_text(out: &mut Vec<String>, s: &str)
    ensures
        texts(final(out)@) == texts(old(out)@).push(s@),
{
    out.push(s.to_owned());
    assert(texts(out@) =~= texts(old(out)@).push(s@));
}

fn get_property_string(p: &Json) -> (r: Option<&str>)
    ensures
        match r {
            Some(s) => property_string(p@) == Some(s@),
            None => property_string(p@) is None,
        },
{
    if !is_type(p, "Property") {
        return None;
    }
    match p.get("value") {
        Some(v) => get_string_literal(v),
        None => None,
    }
}

fn collect_property_strings(obj: &Json, out: &mut Vec<String>)
    ensures
        texts(final(out)@) == texts(old(out)@) + property_strings(
            children(obj@, "properties"@),
            children(obj@, "properties"@).len() as int,
        ),
{
    let properties = get_children(obj, "properties");
    let ghost list = children(obj@, "properties"@);
    let ghost before = texts(out@);
    let mut i: usize = 0;
    assert(before + property_strings(list, 0) =~= before);
    while i < properties.len()
        invariant
            i <= properties@.len(),
            list == node_models(properties@),
            texts(out@) == before + property_strings(list, i as int),
        decreases properties.len() - i,
    {
        assert(list[i as int] == properties@[i as int]@);
        if let Some(s) = get_property_string(properties[i]) {
            push_text(out, s);
        }
        i = i + 1;
        assert(texts(out@) =~= before + property_strings(list, i as int));
    }
}

/// Extract all string literal values from an object expression.
///
/// Given `{ default: 'alignRight', md: 'alignLeft' }`, returns `["alignRight", "alignLeft"]`.
pub fn extract_object_expression_string_values(obj: &Json) -> (out: Vec<String>)
    ensures
        texts(out@) == object_strings(obj@),
{
    let properties = get_children(obj, "properties");
    let ghost list = children(obj@, "properties"@);
    let mut out: Vec<String> = Vec::new();
    assert(texts(out@) =~= value_strings(list, 0));
    let mut i: usize = 0;
    while i < properties.len()
        invariant
            i <= properties@.len(),
            list == node_models(properties@),
            texts(out@) == value_strings(list, i as int),
        decreases properties.len() - i,
    {
        let p = properties[i];
        assert(list[i as int] == p@);
        if let Some(s) = get_property_string(p) {
            push_text(&mut out, s);
        } else if is_type(p, "Property") && has_type(p, "value", "ObjectExpression") {
            if let Some(value) = p.get("value") {
                collect_property_strings(value, &mut out);
            }
        }
        i = i + 1;
    }
    out
}

/// Extract string literal values from an object expression inside an expression. Handles direct
/// objects, parenthesized, and ternary branches.
fn extract_object_string_values_from_expr(v: &Json) -> (out: Vec<String>)
    ensures
        texts(out@) == expression_strings(v@),
    decreases json_size(v@),
{
    let mut out: Vec<String> = Vec::new();
    if is_type(v, "ObjectExpression") {
        return extract_object_expression_string_values(v);
    }
    if is_type(v, "ParenthesizedExpression") {
        if let Some(x) = v.get("expression") {
            proof {
                lemma_field_smaller(v@, "expression"@);
            }
            return extract_object_string_values_from_expr(x);
        }
    }
    if is_type(v, "ConditionalExpression") {
        if let (Some(a), Some(b)) = (v.get("consequent"), v.get("alternate")) {
            proof {
                lemma_field_smaller(v@, "consequent"@);
                lemma_field_smaller(v@, "alternate"@);
            }
            let mut values = extract_object_string_values_from_expr(a);
            let mut more = extract_object_string_values_from_expr(b);
            let ghost x = texts(values@);
            let ghost y = texts(more@);
            values.append(&mut more);
            assert(texts(values@) =~= x + y);
            return values;
        }
    }
    if let Some(s) = get_string_literal(v) {
        out.push(s.to_owned());
    }
    assert(texts(out@) =~= expression_strings(v@));
    out
}

/// Extract all string literal values from the object expression that is the value of a JSX
/// attribute. This allows value-based rules to match prop values inside responsive breakpoint
/// objects.
pub fn extract_object_string_values(v: &Json) -> (out: Vec<String>)
    ensures
        texts(out@) == attribute_strings(v@),
{
    if get_string_literal(v).is_some() {
        let out: Vec<String> = Vec::new();
        assert(texts(out@) =~= Seq::<Seq<char>>::empty());
        out
    } else {
        extract_object_string_values_from_expr(v)
    }
}

} // verus!
