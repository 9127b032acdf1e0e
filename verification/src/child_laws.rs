//! Which components count as children of a JSX element, by the nodes that they stand in.

use crate::estree::{
    all_below, child, children, each, each_in, extent, flag, group_below, identifier, itself, none,
    one, one_in, type_is, Role, WorkV,
};
use crate::json::{field, json_size, JsonV};
use crate::jsx_children::{
    bound_of, called_names, child_components, lemma_function_below, lemma_plan_below, named_element,
    names, names_in, own_names, plan, plan_function,
};
use crate::lookup::named;
use crate::object_props::PropV;
use crate::type_names::lemma_type_names;
use vstd::prelude::*;

verus! {

/// What is found in a node that is looked at in a role.
pub open spec fn found(v: JsonV, role: Role, locals: Seq<(Seq<char>, JsonV)>, busy: Seq<Seq<char>>) -> Seq<PropV> {
    names(WorkV { role, node: v }, locals, busy)
}

/// What is found in the node in a field, if there is one.
pub open spec fn found_at(v: JsonV, key: Seq<char>, role: Role, locals: Seq<(Seq<char>, JsonV)>, busy: Seq<Seq<char>>) -> Seq<PropV> {
    match field(v, key) {
        Some(x) => found(x, role, locals, busy),
        None => Seq::empty(),
    }
}

/// What is found in the first `n` of some nodes, in their order.
pub open spec fn found_in(nodes: Seq<JsonV>, n: nat, role: Role, locals: Seq<(Seq<char>, JsonV)>, busy: Seq<Seq<char>>) -> Seq<PropV>
    decreases n,
{
    if n == 0 || n > nodes.len() {
        Seq::empty()
    } else {
        found_in(nodes, (n - 1) as nat, role, locals, busy) + found(nodes[n - 1], role, locals, busy)
    }
}

/// What is found in all the nodes of a list field, in their order.
pub open spec fn found_in_list(v: JsonV, key: Seq<char>, role: Role, locals: Seq<(Seq<char>, JsonV)>, busy: Seq<Seq<char>>) -> Seq<PropV> {
    found_in(children(v, key), children(v, key).len(), role, locals, busy)
}

/// What is found in pieces of work, in their order.
spec fn flat(ws: Seq<WorkV>, locals: Seq<(Seq<char>, JsonV)>, busy: Seq<Seq<char>>) -> Seq<PropV>
    decreases ws.len(),
{
    if ws.len() == 0 {
        Seq::empty()
    } else {
        flat(ws.drop_last(), locals, busy) + names(ws.last(), locals, busy)
    }
}

proof fn lemma_flat_of(ws: Seq<WorkV>, n: nat, bound: nat, locals: Seq<(Seq<char>, JsonV)>, busy: Seq<Seq<char>>)
    requires
        n <= ws.len(),
        all_below(ws, bound),
    ensures
        names_in(ws, n, bound, locals, busy) == flat(ws.take(n as int), locals, busy),
    decreases n,
{
    if n > 0 {
        lemma_flat_of(ws, (n - 1) as nat, bound, locals, busy);
        let now = ws.take(n as int);
        assert(now.drop_last() =~= ws.take(n - 1));
        assert(now.last() == ws[n - 1]);
    }
}

/// What is found in a piece of work: what it yields itself, and what it leads to yields.
proof fn lemma_found(w: WorkV, locals: Seq<(Seq<char>, JsonV)>, busy: Seq<Seq<char>>)
    ensures
        names(w, locals, busy) == own_names(w) + called_names(w, locals, busy) + flat(
            plan(w),
            locals,
            busy,
        ),
{
    lemma_plan_below(w);
    lemma_flat_of(plan(w), plan(w).len(), extent(w), locals, busy);
    assert(plan(w).take(plan(w).len() as int) =~= plan(w));
}

broadcast proof fn lemma_flat_add(a: Seq<WorkV>, b: Seq<WorkV>, locals: Seq<(Seq<char>, JsonV)>, busy: Seq<Seq<char>>)
    ensures
        #[trigger] flat(a + b, locals, busy) == flat(a, locals, busy) + flat(b, locals, busy),
    decreases b.len(),
{
    if b.len() == 0 {
        assert(a + b =~= a);
    } else {
        lemma_flat_add(a, b.drop_last(), locals, busy);
        assert((a + b).drop_last() =~= a + b.drop_last());
        assert((a + b).last() == b.last());
        assert(flat(a + b, locals, busy) =~= flat(a, locals, busy) + flat(b, locals, busy));
    }
}

broadcast proof fn lemma_flat_none(locals: Seq<(Seq<char>, JsonV)>, busy: Seq<Seq<char>>)
    ensures
        #[trigger] flat(none(), locals, busy) == Seq::<PropV>::empty(),
{
}

broadcast proof fn lemma_flat_itself(v: JsonV, role: Role, locals: Seq<(Seq<char>, JsonV)>, busy: Seq<Seq<char>>)
    ensures
        #[trigger] flat(itself(v, role), locals, busy) == found(v, role, locals, busy),
{
    let ws = itself(v, role);
    assert(ws.drop_last() =~= none());
    assert(flat(ws, locals, busy) =~= flat(none(), locals, busy) + names(ws.last(), locals, busy));
    assert(flat(ws, locals, busy) =~= found(v, role, locals, busy));
}

broadcast proof fn lemma_flat_one(v: JsonV, key: Seq<char>, role: Role, locals: Seq<(Seq<char>, JsonV)>, busy: Seq<Seq<char>>)
    ensures
        #[trigger] flat(one(v, key, role), locals, busy) == found_at(v, key, role, locals, busy),
{
    match field(v, key) {
        Some(x) => {
            lemma_flat_itself(x, role, locals, busy);
            assert(one(v, key, role) =~= itself(x, role));
        },
        None => {
            assert(one(v, key, role) =~= none());
        },
    }
}

proof fn lemma_flat_nodes(nodes: Seq<JsonV>, n: nat, role: Role, locals: Seq<(Seq<char>, JsonV)>, busy: Seq<Seq<char>>)
    requires
        n <= nodes.len(),
    ensures
        flat(nodes.map_values(|x: JsonV| WorkV { role, node: x }).take(n as int), locals, busy)
            == found_in(nodes, n, role, locals, busy),
    decreases n,
{
    let ws = nodes.map_values(|x: JsonV| WorkV { role, node: x });
    if n > 0 {
        lemma_flat_nodes(nodes, (n - 1) as nat, role, locals, busy);
        assert(ws.take(n as int).drop_last() =~= ws.take(n - 1));
        assert(ws.take(n as int).last() == WorkV { role, node: nodes[n - 1] });
    } else {
        assert(ws.take(0) =~= none());
    }
}

broadcast proof fn lemma_flat_each(v: JsonV, key: Seq<char>, role: Role, locals: Seq<(Seq<char>, JsonV)>, busy: Seq<Seq<char>>)
    ensures
        #[trigger] flat(each(v, key, role), locals, busy) == found_in_list(v, key, role, locals, busy),
{
    let nodes = children(v, key);
    lemma_flat_nodes(nodes, nodes.len(), role, locals, busy);
    let ws = nodes.map_values(|x: JsonV| WorkV { role, node: x });
    assert(ws.take(nodes.len() as int) =~= ws);
    assert(each(v, key, role) =~= ws);
}

broadcast proof fn lemma_flat_one_in(
    v: JsonV,
    key: Seq<char>,
    inner: Seq<char>,
    role: Role,
    locals: Seq<(Seq<char>, JsonV)>, busy: Seq<Seq<char>>,
)
    ensures
        #[trigger] flat(one_in(v, key, inner, role), locals, busy) == found_at(
            child(v, key),
            inner,
            role,
            locals,
            busy,
        ),
{
    lemma_flat_one(child(v, key), inner, role, locals, busy);
    assert(one_in(v, key, inner, role) =~= one(child(v, key), inner, role));
}

broadcast proof fn lemma_flat_each_in(
    v: JsonV,
    key: Seq<char>,
    inner: Seq<char>,
    role: Role,
    locals: Seq<(Seq<char>, JsonV)>, busy: Seq<Seq<char>>,
)
    ensures
        #[trigger] flat(each_in(v, key, inner, role), locals, busy) == found_in_list(
            child(v, key),
            inner,
            role,
            locals,
            busy,
        ),
{
    lemma_flat_each(child(v, key), inner, role, locals, busy);
    assert(each_in(v, key, inner, role) =~= each(child(v, key), inner, role));
}

broadcast group group_flat {
    lemma_flat_add,
    lemma_flat_none,
    lemma_flat_itself,
    lemma_flat_one,
    lemma_flat_each,
    lemma_flat_one_in,
    lemma_flat_each_in,
}

/// An element is a child itself, and is not looked into.
pub proof fn law_element(v: JsonV, locals: Seq<(Seq<char>, JsonV)>, busy: Seq<Seq<char>>)
    requires
        type_is(v, "JSXElement"@),
    ensures
        found(v, Role::Child, locals, busy) == seq![named_element(v)],
{
    broadcast use group_flat;

    lemma_type_names();
    lemma_found(WorkV { role: Role::Child, node: v }, locals, busy);
}

/// An element that an expression gives is a child too.
pub proof fn law_element_expression(v: JsonV, locals: Seq<(Seq<char>, JsonV)>, busy: Seq<Seq<char>>)
    requires
        type_is(v, "JSXElement"@),
    ensures
        found(v, Role::Expression, locals, busy) == seq![named_element(v)],
{
    broadcast use group_flat;

    lemma_type_names();
    lemma_found(WorkV { role: Role::Expression, node: v }, locals, busy);
}

/// A fragment stands for its children.
pub proof fn law_fragment(v: JsonV, locals: Seq<(Seq<char>, JsonV)>, busy: Seq<Seq<char>>)
    requires
        type_is(v, "JSXFragment"@),
    ensures
        found(v, Role::Child, locals, busy) == found_in_list(v, "children"@, Role::Child, locals, busy),
{
    broadcast use group_flat;

    lemma_type_names();
    lemma_found(WorkV { role: Role::Child, node: v }, locals, busy);
}

/// So does a fragment that an expression gives.
pub proof fn law_fragment_expression(v: JsonV, locals: Seq<(Seq<char>, JsonV)>, busy: Seq<Seq<char>>)
    requires
        type_is(v, "JSXFragment"@),
    ensures
        found(v, Role::Expression, locals, busy) == found_in_list(v, "children"@, Role::Child, locals, busy),
{
    broadcast use group_flat;

    lemma_type_names();
    lemma_found(WorkV { role: Role::Expression, node: v }, locals, busy);
}

/// An expression in braces stands for what it gives.
pub proof fn law_container(v: JsonV, locals: Seq<(Seq<char>, JsonV)>, busy: Seq<Seq<char>>)
    requires
        type_is(v, "JSXExpressionContainer"@),
    ensures
        found(v, Role::Child, locals, busy) == found_at(v, "expression"@, Role::Container, locals, busy),
{
    broadcast use group_flat;

    lemma_type_names();
    lemma_found(WorkV { role: Role::Child, node: v }, locals, busy);
}

/// No other child counts.
pub proof fn law_other_child(v: JsonV, locals: Seq<(Seq<char>, JsonV)>, busy: Seq<Seq<char>>)
    requires
        !type_is(v, "JSXElement"@),
        !type_is(v, "JSXFragment"@),
        !type_is(v, "JSXExpressionContainer"@),
    ensures
        found(v, Role::Child, locals, busy) == Seq::<PropV>::empty(),
{
    broadcast use group_flat;

    lemma_type_names();
    lemma_found(WorkV { role: Role::Child, node: v }, locals, busy);
}

/// In braces an expression that is no call gives what it gives anywhere.
pub proof fn law_in_braces(v: JsonV, locals: Seq<(Seq<char>, JsonV)>, busy: Seq<Seq<char>>)
    requires
        !type_is(v, "CallExpression"@),
    ensures
        found(v, Role::Container, locals, busy) == found(v, Role::Expression, locals, busy),
{
    broadcast use group_flat;

    lemma_type_names();
    lemma_found(WorkV { role: Role::Expression, node: v }, locals, busy);
    lemma_found(WorkV { role: Role::Container, node: v }, locals, busy);
}

/// Parentheses change nothing.
pub proof fn law_parentheses(v: JsonV, locals: Seq<(Seq<char>, JsonV)>, busy: Seq<Seq<char>>)
    requires
        type_is(v, "ParenthesizedExpression"@),
    ensures
        found(v, Role::Expression, locals, busy) == found_at(v, "expression"@, Role::Expression, locals, busy),
{
    broadcast use group_flat;

    lemma_type_names();
    lemma_found(WorkV { role: Role::Expression, node: v }, locals, busy);
}

/// A conditional gives what both its branches do.
pub proof fn law_conditional(v: JsonV, locals: Seq<(Seq<char>, JsonV)>, busy: Seq<Seq<char>>)
    requires
        type_is(v, "ConditionalExpression"@),
    ensures
        found(v, Role::Expression, locals, busy) == found_at(v, "consequent"@, Role::Expression, locals, busy) + found_at(v, "alternate"@, Role::Expression, locals, busy),
{
    broadcast use group_flat;

    lemma_type_names();
    lemma_found(WorkV { role: Role::Expression, node: v }, locals, busy);
}

/// A logical expression gives what its right side does.
pub proof fn law_logical(v: JsonV, locals: Seq<(Seq<char>, JsonV)>, busy: Seq<Seq<char>>)
    requires
        type_is(v, "LogicalExpression"@),
    ensures
        found(v, Role::Expression, locals, busy) == found_at(v, "right"@, Role::Expression, locals, busy),
{
    broadcast use group_flat;

    lemma_type_names();
    lemma_found(WorkV { role: Role::Expression, node: v }, locals, busy);
}

/// A call gives what its arguments do.
pub proof fn law_call(v: JsonV, locals: Seq<(Seq<char>, JsonV)>, busy: Seq<Seq<char>>)
    requires
        type_is(v, "CallExpression"@),
    ensures
        found(v, Role::Expression, locals, busy) == found_in_list(v, "arguments"@, Role::Expression, locals, busy),
{
    broadcast use group_flat;

    lemma_type_names();
    lemma_found(WorkV { role: Role::Expression, node: v }, locals, busy);
}

/// So does an optional call.
pub proof fn law_optional_call(v: JsonV, locals: Seq<(Seq<char>, JsonV)>, busy: Seq<Seq<char>>)
    requires
        type_is(v, "ChainExpression"@),
        type_is(child(v, "expression"@), "CallExpression"@),
    ensures
        found(v, Role::Expression, locals, busy) == found_in_list(child(v, "expression"@), "arguments"@, Role::Expression, locals, busy),
{
    broadcast use group_flat;

    lemma_type_names();
    lemma_found(WorkV { role: Role::Expression, node: v }, locals, busy);
}

/// An array gives what its elements do.
pub proof fn law_array(v: JsonV, locals: Seq<(Seq<char>, JsonV)>, busy: Seq<Seq<char>>)
    requires
        type_is(v, "ArrayExpression"@),
    ensures
        found(v, Role::Expression, locals, busy) == found_in_list(v, "elements"@, Role::Expression, locals, busy),
{
    broadcast use group_flat;

    lemma_type_names();
    lemma_found(WorkV { role: Role::Expression, node: v }, locals, busy);
}

/// What is spread gives what it gives by itself.
pub proof fn law_spread(v: JsonV, locals: Seq<(Seq<char>, JsonV)>, busy: Seq<Seq<char>>)
    requires
        type_is(v, "SpreadElement"@),
    ensures
        found(v, Role::Expression, locals, busy) == found_at(v, "argument"@, Role::Expression, locals, busy),
{
    broadcast use group_flat;

    lemma_type_names();
    lemma_found(WorkV { role: Role::Expression, node: v }, locals, busy);
}

/// An arrow function with an expression gives what that does.
pub proof fn law_arrow(v: JsonV, locals: Seq<(Seq<char>, JsonV)>, busy: Seq<Seq<char>>)
    requires
        type_is(v, "ArrowFunctionExpression"@),
        flag(v, "expression"@),
    ensures
        found(v, Role::Expression, locals, busy) == found_at(v, "body"@, Role::Expression, locals, busy),
{
    broadcast use group_flat;

    lemma_type_names();
    lemma_found(WorkV { role: Role::Expression, node: v }, locals, busy);
}

/// An arrow function with statements gives what they do.
pub proof fn law_arrow_body(v: JsonV, locals: Seq<(Seq<char>, JsonV)>, busy: Seq<Seq<char>>)
    requires
        type_is(v, "ArrowFunctionExpression"@),
        !flag(v, "expression"@),
    ensures
        found(v, Role::Expression, locals, busy) == found_in_list(child(v, "body"@), "body"@, Role::Statement, locals, busy),
{
    broadcast use group_flat;

    lemma_type_names();
    lemma_found(WorkV { role: Role::Expression, node: v }, locals, busy);
}

/// A return gives what is returned.
pub proof fn law_return(v: JsonV, locals: Seq<(Seq<char>, JsonV)>, busy: Seq<Seq<char>>)
    requires
        type_is(v, "ReturnStatement"@),
    ensures
        found(v, Role::Statement, locals, busy) == found_at(v, "argument"@, Role::Expression, locals, busy),
{
    broadcast use group_flat;

    lemma_type_names();
    lemma_found(WorkV { role: Role::Statement, node: v }, locals, busy);
}

/// A statement that evaluates gives what is evaluated.
pub proof fn law_evaluated(v: JsonV, locals: Seq<(Seq<char>, JsonV)>, busy: Seq<Seq<char>>)
    requires
        type_is(v, "ExpressionStatement"@),
    ensures
        found(v, Role::Statement, locals, busy) == found_at(v, "expression"@, Role::Expression, locals, busy),
{
    broadcast use group_flat;

    lemma_type_names();
    lemma_found(WorkV { role: Role::Statement, node: v }, locals, busy);
}

/// No other statement gives anything.
pub proof fn law_other_statement(v: JsonV, locals: Seq<(Seq<char>, JsonV)>, busy: Seq<Seq<char>>)
    requires
        !type_is(v, "ReturnStatement"@),
        !type_is(v, "ExpressionStatement"@),
    ensures
        found(v, Role::Statement, locals, busy) == Seq::<PropV>::empty(),
{
    broadcast use group_flat;

    lemma_type_names();
    lemma_found(WorkV { role: Role::Statement, node: v }, locals, busy);
}

/// No other expression gives anything.
pub proof fn law_other_expression(v: JsonV, locals: Seq<(Seq<char>, JsonV)>, busy: Seq<Seq<char>>)
    requires
        !type_is(v, "JSXElement"@),
        !type_is(v, "JSXFragment"@),
        !type_is(v, "ParenthesizedExpression"@),
        !type_is(v, "ConditionalExpression"@),
        !type_is(v, "LogicalExpression"@),
        !type_is(v, "ArrowFunctionExpression"@),
        !type_is(v, "CallExpression"@),
        !type_is(v, "ArrayExpression"@),
        !type_is(v, "SpreadElement"@),
        !type_is(v, "ChainExpression"@) || !type_is(child(v, "expression"@), "CallExpression"@),
    ensures
        found(v, Role::Expression, locals, busy) == Seq::<PropV>::empty(),
{
    broadcast use group_flat;

    lemma_type_names();
    lemma_found(WorkV { role: Role::Expression, node: v }, locals, busy);
}

/// What the body of a function gives.
pub open spec fn found_in_function(
    f: JsonV,
    locals: Seq<(Seq<char>, JsonV)>,
    busy: Seq<Seq<char>>,
) -> Seq<PropV> {
    if type_is(f, "ArrowFunctionExpression"@) && flag(f, "expression"@) {
        found_at(f, "body"@, Role::Expression, locals, busy)
    } else if type_is(f, "ArrowFunctionExpression"@) || type_is(f, "FunctionExpression"@) {
        found_in_list(child(f, "body"@), "body"@, Role::Statement, locals, busy)
    } else {
        Seq::empty()
    }
}

/// A call of a local function in braces gives what its body does, and then what its arguments do.
/// A function whose call is being followed already is not followed again.
pub proof fn law_call_in_braces(
    v: JsonV,
    locals: Seq<(Seq<char>, JsonV)>,
    busy: Seq<Seq<char>>,
    name: Seq<char>,
    f: JsonV,
)
    requires
        type_is(v, "CallExpression"@),
        identifier(child(v, "callee"@)) == Some(name),
        named(locals, name) == Some(f),
    ensures
        found(v, Role::Container, locals, busy) == if busy.contains(name) {
            found_in_list(v, "arguments"@, Role::Expression, locals, busy)
        } else {
            found_in_function(f, locals, busy.push(name)) + found_in_list(
                v,
                "arguments"@,
                Role::Expression,
                locals,
                busy,
            )
        },
{
    broadcast use group_flat;

    lemma_type_names();
    lemma_found(WorkV { role: Role::Container, node: v }, locals, busy);
    let ws = plan_function(f);
    lemma_function_below(f);
    lemma_flat_of(ws, ws.len(), bound_of(f), locals, busy.push(name));
    assert(ws.take(ws.len() as int) =~= ws);
}

/// Any other call in braces gives what its arguments do.
pub proof fn law_other_call_in_braces(
    v: JsonV,
    locals: Seq<(Seq<char>, JsonV)>,
    busy: Seq<Seq<char>>,
)
    requires
        type_is(v, "CallExpression"@),
        identifier(child(v, "callee"@)) is None || named(
            locals,
            identifier(child(v, "callee"@))->0,
        ) is None,
    ensures
        found(v, Role::Container, locals, busy) == found_in_list(
            v,
            "arguments"@,
            Role::Expression,
            locals,
            busy,
        ),
{
    broadcast use group_flat;

    lemma_type_names();
    lemma_found(WorkV { role: Role::Container, node: v }, locals, busy);
}

/// The components among the children of an element are those of each child, in their order.
pub proof fn law_child_components(el: JsonV, locals: Seq<(Seq<char>, JsonV)>)
    ensures
        child_components(el, locals) == found_in_list(
            el,
            "children"@,
            Role::Child,
            locals,
            Seq::empty(),
        ),
{
    broadcast use group_flat;
    broadcast use group_below;

    let ws = each(el, "children"@, Role::Child);
    lemma_flat_of(ws, ws.len(), json_size(el) * 2, locals, Seq::empty());
    assert(ws.take(ws.len() as int) =~= ws);
}

} // verus!
