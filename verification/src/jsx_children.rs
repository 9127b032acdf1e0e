//! The components found among the children of a JSX element.
//!
//! Walks JSX children, including expression containers like `.map()`, conditionals, and render
//! functions, to collect the component names found.

use crate::estree::{
    add_each, add_each_in, add_one, all_below, child, each, each_in, extent, flag, get_flag,
    get_identifier, get_number, get_text, group_below, has_type, identifier, is_type, none,
    number_field, one, text_field, type_is, works, Role, Work, WorkV,
};
use crate::json::{field, json_size, lemma_field_smaller, Json, JsonV};
use crate::locals::{find_local, local_models};
use crate::lookup::{fresh_names, lemma_name_seen, named};
use crate::object_props::{prop_models, Prop, PropV};
use crate::text::{concat3, same, texts};
use vstd::prelude::*;

verus! {

/// The text of a field; empty where there is none.
pub open spec fn text_or_empty(v: JsonV, key: Seq<char>) -> Seq<char> {
    match text_field(v, key) {
        Some(s) => s,
        None => Seq::empty(),
    }
}

/// The name of a JSX element as it is written, such as `Button`, `PF.Button` or `svg:path`.
pub open spec fn element_name(v: JsonV) -> Seq<char>
    decreases json_size(v),
{
    if type_is(v, "JSXIdentifier"@) {
        text_or_empty(v, "name"@)
    } else if type_is(v, "JSXNamespacedName"@) {
        text_or_empty(child(v, "namespace"@), "name"@) + ":"@ + text_or_empty(
            child(v, "name"@),
            "name"@,
        )
    } else if type_is(v, "JSXMemberExpression"@) && field(v, "object"@) is Some {
        proof {
            lemma_field_smaller(v, "object"@);
        }
        element_name(child(v, "object"@)) + "."@ + text_or_empty(child(v, "property"@), "name"@)
    } else {
        Seq::empty()
    }
}

fn get_text_or_empty(node: &Json, key: &str) -> (r: String)
    ensures
        r@ == text_or_empty(node@, key@),
{
    match get_text(node, key) {
        Some(s) => s.to_owned(),
        None => {
            let r = String::new();
            assert(r@ =~= Seq::<char>::empty());
            r
        },
    }
}

fn text_in(node: &Json, key: &str, inner: &str) -> (r: String)
    ensures
        r@ == text_or_empty(child(node@, key@), inner@),
{
    match node.get(key) {
        Some(x) => get_text_or_empty(x, inner),
        None => {
            let r = String::new();
            assert(r@ =~= Seq::<char>::empty());
            r
        },
    }
}

/// The name of a JSX element as it is written.
pub fn jsx_element_name_to_string(name: &Json) -> (r: String)
    ensures
        r@ == element_name(name@),
    decreases json_size(name@),
{
    if is_type(name, "JSXIdentifier") {
        return get_text_or_empty(name, "name");
    }
    if is_type(name, "JSXNamespacedName") {
        let namespace = text_in(name, "namespace", "name");
        let local = text_in(name, "name", "name");
        return concat3(namespace.as_str(), ":", local.as_str());
    }
    if is_type(name, "JSXMemberExpression") {
        if let Some(object) = name.get("object") {
            proof {
                lemma_field_smaller(name@, "object"@);
            }
            let obj = jsx_element_name_to_string(object);
            let property = text_in(name, "property", "name");
            return concat3(obj.as_str(), ".", property.as_str());
        }
    }
    let r = String::new();
    assert(r@ =~= Seq::<char>::empty());
    r
}

/// The node that holds the name of a JSX element.
pub open spec fn name_node(el: JsonV) -> JsonV {
    child(child(el, "openingElement"@), "name"@)
}

/// The name of a JSX element, with its place.
pub open spec fn named_element(el: JsonV) -> PropV {
    PropV {
        name: element_name(name_node(el)),
        start: number_field(name_node(el), "start"@),
        end: number_field(name_node(el), "end"@),
    }
}

/// The name of a JSX element, with its place.
pub fn get_named_element(el: &Json) -> (r: Prop)
    ensures
        r@ == named_element(el@),
{
    if let Some(opening) = el.get("openingElement") {
        if let Some(name) = opening.get("name") {
            return Prop {
                name: jsx_element_name_to_string(name),
                start: get_number(name, "start"),
                end: get_number(name, "end"),
            };
        }
    }
    let r = String::new();
    assert(r@ =~= element_name(name_node(el@)));
    Prop { name: r, start: 0, end: 0 }
}

/// What a statement of a function body leads to: what it returns or evaluates.
pub open spec fn plan_statement(v: JsonV) -> Seq<WorkV> {
    if type_is(v, "ReturnStatement"@) {
        none() + one(v, "argument"@, Role::Expression)
    } else if type_is(v, "ExpressionStatement"@) {
        none() + one(v, "expression"@, Role::Expression)
    } else {
        none()
    }
}

/// What the body of a function leads to.
pub open spec fn plan_function(v: JsonV) -> Seq<WorkV> {
    if type_is(v, "ArrowFunctionExpression"@) && flag(v, "expression"@) {
        none() + one(v, "body"@, Role::Expression)
    } else if type_is(v, "ArrowFunctionExpression"@) || type_is(v, "FunctionExpression"@) {
        none() + each_in(v, "body"@, "body"@, Role::Statement)
    } else {
        none()
    }
}

/// What an expression leads to.
pub open spec fn plan_expression(v: JsonV) -> Seq<WorkV> {
    if type_is(v, "JSXElement"@) {
        none()
    } else if type_is(v, "JSXFragment"@) {
        none() + each(v, "children"@, Role::Child)
    } else if type_is(v, "ParenthesizedExpression"@) {
        none() + one(v, "expression"@, Role::Expression)
    } else if type_is(v, "ConditionalExpression"@) {
        none() + one(v, "consequent"@, Role::Expression) + one(v, "alternate"@, Role::Expression)
    } else if type_is(v, "LogicalExpression"@) {
        none() + one(v, "right"@, Role::Expression)
    } else if type_is(v, "ArrowFunctionExpression"@) {
        plan_function(v)
    } else if type_is(v, "CallExpression"@) {
        none() + each(v, "arguments"@, Role::Expression)
    } else if type_is(v, "ChainExpression"@) && type_is(
        child(v, "expression"@),
        "CallExpression"@,
    ) {
        none() + each_in(v, "expression"@, "arguments"@, Role::Expression)
    } else if type_is(v, "ArrayExpression"@) {
        none() + each(v, "elements"@, Role::Expression)
    } else if type_is(v, "SpreadElement"@) {
        none() + one(v, "argument"@, Role::Expression)
    } else {
        none()
    }
}

/// What a JSX child leads to.
pub open spec fn plan_child(v: JsonV) -> Seq<WorkV> {
    if type_is(v, "JSXElement"@) {
        none()
    } else if type_is(v, "JSXFragment"@) {
        none() + each(v, "children"@, Role::Child)
    } else if type_is(v, "JSXExpressionContainer"@) {
        none() + one(v, "expression"@, Role::Container)
    } else {
        none()
    }
}

/// What a piece of work leads to.
pub open spec fn plan(w: WorkV) -> Seq<WorkV> {
    match w.role {
        Role::Statement => plan_statement(w.node),
        Role::Expression | Role::Container => plan_expression(w.node),
        Role::Child => plan_child(w.node),
        _ => none(),
    }
}

/// The component that a piece of work is.
pub open spec fn own_names(w: WorkV) -> Seq<PropV> {
    match w.role {
        Role::Expression | Role::Container | Role::Child => if type_is(w.node, "JSXElement"@) {
            seq![named_element(w.node)]
        } else {
            Seq::empty()
        },
        _ => Seq::empty(),
    }
}

/// The name of the function that a JSX child calls.
pub open spec fn called_name(w: WorkV) -> Option<Seq<char>> {
    if w.role is Container && type_is(w.node, "CallExpression"@) {
        identifier(child(w.node, "callee"@))
    } else {
        None
    }
}

/// The components in a piece of work and in all that it leads to, in order. `busy` are the local
/// functions whose calls are being followed; none is followed from within itself.
pub open spec fn names(
    w: WorkV,
    locals: Seq<(Seq<char>, JsonV)>,
    busy: Seq<Seq<char>>,
) -> Seq<PropV>
    decreases fresh_names(locals, busy), extent(w), 1nat, 0nat,
{
    own_names(w) + called_names(w, locals, busy) + names_in(
        plan(w),
        plan(w).len(),
        extent(w),
        locals,
        busy,
    )
}

/// The components in the body of the local function that a piece of work calls.
pub open spec fn called_names(
    w: WorkV,
    locals: Seq<(Seq<char>, JsonV)>,
    busy: Seq<Seq<char>>,
) -> Seq<PropV>
    decreases fresh_names(locals, busy), extent(w), 0nat, 0nat,
{
    match called_name(w) {
        Some(name) => match named(locals, name) {
            Some(f) => if busy.contains(name) {
                Seq::empty()
            } else {
                proof {
                    lemma_name_seen(locals, busy, name);
                }
                names_in(
                    plan_function(f),
                    plan_function(f).len(),
                    bound_of(f),
                    locals,
                    busy.push(name),
                )
            },
            None => Seq::empty(),
        },
        None => Seq::empty(),
    }
}

/// A bound on what the body of a function holds.
pub open spec fn bound_of(f: JsonV) -> nat {
    json_size(f) * 2
}

/// The components in the first `n` pieces of work, each of which is smaller than `bound`.
pub open spec fn names_in(
    ws: Seq<WorkV>,
    n: nat,
    bound: nat,
    locals: Seq<(Seq<char>, JsonV)>,
    busy: Seq<Seq<char>>,
) -> Seq<PropV>
    decreases fresh_names(locals, busy), bound, 0nat, n,
{
    if n == 0 || n > ws.len() || extent(ws[n - 1]) >= bound {
        Seq::empty()
    } else {
        names_in(ws, (n - 1) as nat, bound, locals, busy) + names(ws[n - 1], locals, busy)
    }
}

/// Whatever a piece of work leads to is smaller.
pub proof fn lemma_plan_below(w: WorkV)
    ensures
        all_below(plan(w), extent(w)),
{
    broadcast use group_below;

}

/// What the body of a function leads to is smaller than the function.
pub proof fn lemma_function_below(f: JsonV)
    ensures
        all_below(plan_function(f), bound_of(f)),
{
    broadcast use group_below;

}

/// The components among the children of a JSX element.
pub open spec fn child_components(el: JsonV, locals: Seq<(Seq<char>, JsonV)>) -> Seq<PropV> {
    names_in(
        each(el, "children"@, Role::Child),
        each(el, "children"@, Role::Child).len(),
        json_size(el) * 2,
        locals,
        Seq::empty(),
    )
}

fn next_of_function<'a>(node: &'a Json) -> (out: Vec<Work<'a>>)
    ensures
        works(out@) == plan_function(node@),
{
    let mut out: Vec<Work<'a>> = Vec::new();
    assert(works(out@) =~= none());
    if is_type(node, "ArrowFunctionExpression") && get_flag(node, "expression") {
        add_one(&mut out, node, "body", Role::Expression);
    } else if is_type(node, "ArrowFunctionExpression") || is_type(node, "FunctionExpression") {
        add_each_in(&mut out, node, "body", "body", Role::Statement);
    }
    out
}

fn next_of_expression<'a>(node: &'a Json) -> (out: Vec<Work<'a>>)
    ensures
        works(out@) == plan_expression(node@),
{
    let mut out: Vec<Work<'a>> = Vec::new();
    assert(works(out@) =~= none());
    if is_type(node, "JSXElement") {
    } else if is_type(node, "JSXFragment") {
        add_each(&mut out, node, "children", Role::Child);
    } else if is_type(node, "ParenthesizedExpression") {
        add_one(&mut out, node, "expression", Role::Expression);
    } else if is_type(node, "ConditionalExpression") {
        add_one(&mut out, node, "consequent", Role::Expression);
        add_one(&mut out, node, "alternate", Role::Expression);
    } else if is_type(node, "LogicalExpression") {
        add_one(&mut out, node, "right", Role::Expression);
    } else if is_type(node, "ArrowFunctionExpression") {
        return next_of_function(node);
    } else if is_type(node, "CallExpression") {
        add_each(&mut out, node, "arguments", Role::Expression);
    } else if is_type(node, "ChainExpression") && has_type(node, "expression", "CallExpression") {
        add_each_in(&mut out, node, "expression", "arguments", Role::Expression);
    } else if is_type(node, "ArrayExpression") {
        add_each(&mut out, node, "elements", Role::Expression);
    } else if is_type(node, "SpreadElement") {
        add_one(&mut out, node, "argument", Role::Expression);
    }
    out
}

fn next_of<'a>(w: &Work<'a>) -> (out: Vec<Work<'a>>)
    ensures
        works(out@) == plan(w@),
{
    let node = w.node;
    let mut out: Vec<Work<'a>> = Vec::new();
    assert(works(out@) =~= none());
    match w.role {
        Role::Statement => {
            if is_type(node, "ReturnStatement") {
                add_one(&mut out, node, "argument", Role::Expression);
            } else if is_type(node, "ExpressionStatement") {
                add_one(&mut out, node, "expression", Role::Expression);
            }
        },
        Role::Expression => return next_of_expression(node),
        Role::Container => return next_of_expression(node),
        Role::Child => {
            if is_type(node, "JSXElement") {
            } else if is_type(node, "JSXFragment") {
                add_each(&mut out, node, "children", Role::Child);
            } else if is_type(node, "JSXExpressionContainer") {
                add_one(&mut out, node, "expression", Role::Container);
            }
        },
        _ => {},
    }
    out
}

fn get_called_name<'a>(w: &Work<'a>) -> (r: Option<&'a str>)
    ensures
        match r {
            Some(n) => called_name(w@) == Some(n@),
            None => called_name(w@) is None,
        },
{
    if let Role::Container = w.role {
        if is_type(w.node, "CallExpression") {
            if let Some(callee) = w.node.get("callee") {
                return get_identifier(callee);
            }
        }
    }
    None
}

/// Whether a name is among some others.
pub fn holds_text(list: &Vec<String>, name: &str) -> (r: bool)
    ensures
        r == texts(list@).contains(name@),
{
    let ghost s = texts(list@);
    let mut i: usize = 0;
    while i < list.len()
        invariant
            i <= list@.len(),
            s == texts(list@),
            forall|k: int| 0 <= k < i ==> #[trigger] s[k] != name@,
        decreases list.len() - i,
    {
        assert(s[i as int] == list@[i as int]@);
        if same(list[i].as_str(), name) {
            return true;
        }
        i = i + 1;
    }
    false
}

/// A list of texts with one more.
pub fn with_text(list: &Vec<String>, name: &str) -> (r: Vec<String>)
    ensures
        texts(r@) == texts(list@).push(name@),
{
    let mut r: Vec<String> = Vec::new();
    let mut i: usize = 0;
    while i < list.len()
        invariant
            i <= list@.len(),
            r@.len() == i,
            forall|k: int| 0 <= k < i ==> (#[trigger] r@[k])@ == list@[k]@,
        decreases list.len() - i,
    {
        r.push(list[i].as_str().to_owned());
        i = i + 1;
    }
    r.push(name.to_owned());
    assert(texts(r@) =~= texts(list@).push(name@));
    r
}

fn add_own_names(w: &Work<'_>, out: &mut Vec<Prop>)
    ensures
        prop_models(final(out)@) == prop_models(old(out)@) + own_names(w@),
{
    match w.role {
        Role::Expression | Role::Container | Role::Child => {
            if is_type(w.node, "JSXElement") {
                out.push(get_named_element(w.node));
            }
        },
        _ => {},
    }
    assert(prop_models(out@) =~= prop_models(old(out)@) + own_names(w@));
}

fn collect_names(w: &Work<'_>, locals: &Vec<(String, &Json)>, busy: &Vec<String>, out: &mut Vec<Prop>)
    ensures
        prop_models(final(out)@) == prop_models(old(out)@) + names(
            w@,
            local_models(locals@),
            texts(busy@),
        ),
    decreases fresh_names(local_models(locals@), texts(busy@)), extent(w@), 1nat, 0nat,
{
    let ghost l = local_models(locals@);
    let ghost b = texts(busy@);
    let ghost before = prop_models(out@);
    add_own_names(w, out);
    let ghost own = prop_models(out@);
    if let Some(name) = get_called_name(w) {
        if let Some(f) = find_local(locals, name) {
            if !holds_text(busy, name) {
                let inner = with_text(busy, name);
                proof {
                    lemma_name_seen(l, b, name@);
                    lemma_function_below(f@);
                }
                let next = next_of_function(f);
                collect_all(&next, Ghost(bound_of(f@)), locals, &inner, out);
            }
        }
    }
    assert(prop_models(out@) =~= own + called_names(w@, l, b));
    proof {
        lemma_plan_below(w@);
    }
    let next = next_of(w);
    collect_all(&next, Ghost(extent(w@)), locals, busy, out);
    assert(prop_models(out@) =~= before + names(w@, l, b));
}

fn collect_all(
    ws: &Vec<Work<'_>>,
    Ghost(bound): Ghost<nat>,
    locals: &Vec<(String, &Json)>,
    busy: &Vec<String>,
    out: &mut Vec<Prop>,
)
    requires
        all_below(works(ws@), bound),
    ensures
        prop_models(final(out)@) == prop_models(old(out)@) + names_in(
            works(ws@),
            ws@.len(),
            bound,
            local_models(locals@),
            texts(busy@),
        ),
    decreases fresh_names(local_models(locals@), texts(busy@)), bound, 0nat, 0nat,
{
    let ghost all = works(ws@);
    let ghost l = local_models(locals@);
    let ghost b = texts(busy@);
    let ghost before = prop_models(out@);
    let mut i: usize = 0;
    assert(before + names_in(all, 0, bound, l, b) =~= before);
    while i < ws.len()
        invariant
            i <= ws@.len(),
            all == works(ws@),
            l == local_models(locals@),
            b == texts(busy@),
            all_below(all, bound),
            prop_models(out@) == before + names_in(all, i as nat, bound, l, b),
        decreases ws.len() - i,
    {
        assert(all[i as int] == ws@[i as int]@);
        collect_names(&ws[i], locals, busy, out);
        i = i + 1;
        assert(prop_models(out@) =~= before + names_in(all, i as nat, bound, l, b));
    }
}

/// Collect all component names found in the children of a JSX element, with their places, walking
/// into expression containers to find components inside `.map()`, conditionals, arrow functions,
/// and so on.
pub fn collect_child_components(el: &Json, locals: &Vec<(String, &Json)>) -> (out: Vec<Prop>)
    ensures
        prop_models(out@) == child_components(el@, local_models(locals@)),
{
    let mut out: Vec<Prop> = Vec::new();
    let mut ws: Vec<Work<'_>> = Vec::new();
    assert(works(ws@) =~= none());
    add_each(&mut ws, el, "children", Role::Child);
    assert(works(ws@) =~= each(el@, "children"@, Role::Child));
    proof {
        broadcast use group_below;

        assert(all_below(each(el@, "children"@, Role::Child), json_size(el@) * 2));
    }
    let busy: Vec<String> = Vec::new();
    assert(texts(busy@) =~= Seq::<Seq<char>>::empty());
    assert(prop_models(out@) =~= Seq::<PropV>::empty());
    collect_all(&ws, Ghost(json_size(el@) * 2), locals, &busy, &mut out);
    assert(prop_models(out@) =~= child_components(el@, local_models(locals@)));
    out
}

} // verus!
