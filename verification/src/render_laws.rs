//! What a scan for JSX finds in each kind of node, by what it finds in the parts of the node.

use crate::estree::{
    all_below, child, children, each, each_in, extent, flag, group_below, identifier,
    is_function_declaration, itself, none, one, one_in, type_is, Role, WorkV,
};
use crate::incident::IncidentV;
use crate::json::{field, JsonV};
use crate::jsx::{
    effective_parent, export_bound, export_works, hits, hits_in, lemma_exports_below,
    lemma_expression_below, lemma_function_below, lemma_hits_concat, lemma_statement_below,
    own_hits, plan, plan_attribute, plan_child, plan_expression, plan_statement, statement_hits,
    statement_parent, within, followed_hits, no_trail, RenderV, TrailV,
};
use crate::exports::ExportV;
use crate::jsx_children::{bound_of, element_name, name_node, plan_function};
use crate::jsx_context::{declarator_parent, is_hook, typed_object_hits, JsxV};
use crate::jsx_element::element_hits;
use crate::lookup::named;
use crate::type_names::lemma_type_names;
use vstd::prelude::*;

verus! {

/// What is found in a node that is looked at in a role, where it is rendered in `parent`.
pub open spec fn found(
    v: JsonV,
    role: Role,
    parent: Option<Seq<char>>,
    jsx: JsxV,
    trail: TrailV,
) -> Seq<IncidentV> {
    hits(RenderV { work: WorkV { role, node: v }, parent }, jsx, trail)
}

/// What is found in the node in a field, if there is one.
pub open spec fn found_at(
    v: JsonV,
    key: Seq<char>,
    role: Role,
    parent: Option<Seq<char>>,
    jsx: JsxV,
    trail: TrailV,
) -> Seq<IncidentV> {
    match field(v, key) {
        Some(x) => found(x, role, parent, jsx, trail),
        None => Seq::empty(),
    }
}

/// What is found in the first `n` of some nodes, in their order.
pub open spec fn found_in(
    nodes: Seq<JsonV>,
    n: nat,
    role: Role,
    parent: Option<Seq<char>>,
    jsx: JsxV,
    trail: TrailV,
) -> Seq<IncidentV>
    decreases n,
{
    if n == 0 || n > nodes.len() {
        Seq::empty()
    } else {
        found_in(nodes, (n - 1) as nat, role, parent, jsx, trail) + found(
            nodes[n - 1],
            role,
            parent,
            jsx,
            trail,
        )
    }
}

/// What is found in all the nodes of a list field, in their order.
pub open spec fn found_in_list(
    v: JsonV,
    key: Seq<char>,
    role: Role,
    parent: Option<Seq<char>>,
    jsx: JsxV,
    trail: TrailV,
) -> Seq<IncidentV> {
    found_in(children(v, key), children(v, key).len(), role, parent, jsx, trail)
}

/// What is found in pieces of work that are rendered in the same component, in their order.
spec fn flat(ws: Seq<WorkV>, parent: Option<Seq<char>>, jsx: JsxV, trail: TrailV) -> Seq<IncidentV>
    decreases ws.len(),
{
    if ws.len() == 0 {
        Seq::empty()
    } else {
        flat(ws.drop_last(), parent, jsx, trail) + hits(
            RenderV { work: ws.last(), parent },
            jsx,
            trail,
        )
    }
}

proof fn lemma_flat_of(
    ws: Seq<WorkV>,
    n: nat,
    bound: nat,
    parent: Option<Seq<char>>,
    jsx: JsxV,
    trail: TrailV,
)
    requires
        n <= ws.len(),
        all_below(ws, bound),
    ensures
        hits_in(within(ws, parent), n, bound, jsx, trail) == flat(
            ws.take(n as int),
            parent,
            jsx,
            trail,
        ),
    decreases n,
{
    if n > 0 {
        lemma_flat_of(ws, (n - 1) as nat, bound, parent, jsx, trail);
        let now = ws.take(n as int);
        assert(now.drop_last() =~= ws.take(n - 1));
        assert(now.last() == ws[n - 1]);
        assert(within(ws, parent)[n - 1] == (RenderV { work: ws[n - 1], parent }));
    }
}

/// What is found in a piece of work whose parts are rendered in one component.
proof fn lemma_found(
    w: RenderV,
    ws: Seq<WorkV>,
    parent: Option<Seq<char>>,
    jsx: JsxV,
    trail: TrailV,
)
    requires
        plan(w, jsx) == within(ws, parent),
        all_below(ws, extent(w.work)),
    ensures
        hits(w, jsx, trail) == own_hits(w, jsx) + followed_hits(w, jsx, trail) + flat(
            ws,
            parent,
            jsx,
            trail,
        ),
{
    lemma_flat_of(ws, ws.len(), extent(w.work), parent, jsx, trail);
    assert(ws.take(ws.len() as int) =~= ws);
    assert(within(ws, parent).len() == ws.len());
}

broadcast proof fn lemma_flat_add(
    a: Seq<WorkV>,
    b: Seq<WorkV>,
    parent: Option<Seq<char>>,
    jsx: JsxV,
    trail: TrailV,
)
    ensures
        #[trigger] flat(a + b, parent, jsx, trail) == flat(a, parent, jsx, trail) + flat(
            b,
            parent,
            jsx,
            trail,
        ),
    decreases b.len(),
{
    if b.len() == 0 {
        assert(a + b =~= a);
    } else {
        lemma_flat_add(a, b.drop_last(), parent, jsx, trail);
        assert((a + b).drop_last() =~= a + b.drop_last());
        assert((a + b).last() == b.last());
        assert(flat(a + b, parent, jsx, trail) =~= flat(a, parent, jsx, trail) + flat(
            b,
            parent,
            jsx,
            trail,
        ));
    }
}

broadcast proof fn lemma_flat_none(parent: Option<Seq<char>>, jsx: JsxV, trail: TrailV)
    ensures
        #[trigger] flat(none(), parent, jsx, trail) == Seq::<IncidentV>::empty(),
{
}

broadcast proof fn lemma_flat_itself(
    v: JsonV,
    role: Role,
    parent: Option<Seq<char>>,
    jsx: JsxV,
    trail: TrailV,
)
    ensures
        #[trigger] flat(itself(v, role), parent, jsx, trail) == found(v, role, parent, jsx, trail),
{
    let ws = itself(v, role);
    assert(ws.drop_last() =~= none());
    assert(flat(none(), parent, jsx, trail) =~= Seq::<IncidentV>::empty());
    assert(flat(ws, parent, jsx, trail) =~= flat(none(), parent, jsx, trail) + hits(
        RenderV { work: ws.last(), parent },
        jsx,
        trail,
    ));
    assert(flat(ws, parent, jsx, trail) =~= found(v, role, parent, jsx, trail));
}

broadcast proof fn lemma_flat_one(
    v: JsonV,
    key: Seq<char>,
    role: Role,
    parent: Option<Seq<char>>,
    jsx: JsxV,
    trail: TrailV,
)
    ensures
        #[trigger] flat(one(v, key, role), parent, jsx, trail) == found_at(
            v,
            key,
            role,
            parent,
            jsx,
            trail,
        ),
{
    match field(v, key) {
        Some(x) => {
            lemma_flat_itself(x, role, parent, jsx, trail);
            assert(one(v, key, role) =~= itself(x, role));
        },
        None => {
            assert(one(v, key, role) =~= none());
        },
    }
}

proof fn lemma_flat_nodes(
    nodes: Seq<JsonV>,
    n: nat,
    role: Role,
    parent: Option<Seq<char>>,
    jsx: JsxV,
    trail: TrailV,
)
    requires
        n <= nodes.len(),
    ensures
        flat(
            nodes.map_values(|x: JsonV| WorkV { role, node: x }).take(n as int),
            parent,
            jsx,
            trail,
        ) == found_in(nodes, n, role, parent, jsx, trail),
    decreases n,
{
    let ws = nodes.map_values(|x: JsonV| WorkV { role, node: x });
    if n > 0 {
        lemma_flat_nodes(nodes, (n - 1) as nat, role, parent, jsx, trail);
        assert(ws.take(n as int).drop_last() =~= ws.take(n - 1));
        assert(ws.take(n as int).last() == WorkV { role, node: nodes[n - 1] });
    } else {
        assert(ws.take(0) =~= none());
    }
}

broadcast proof fn lemma_flat_each(
    v: JsonV,
    key: Seq<char>,
    role: Role,
    parent: Option<Seq<char>>,
    jsx: JsxV,
    trail: TrailV,
)
    ensures
        #[trigger] flat(each(v, key, role), parent, jsx, trail) == found_in_list(
            v,
            key,
            role,
            parent,
            jsx,
            trail,
        ),
{
    let nodes = children(v, key);
    lemma_flat_nodes(nodes, nodes.len(), role, parent, jsx, trail);
    let ws = nodes.map_values(|x: JsonV| WorkV { role, node: x });
    assert(ws.take(nodes.len() as int) =~= ws);
    assert(each(v, key, role) =~= ws);
}

broadcast proof fn lemma_flat_one_in(
    v: JsonV,
    key: Seq<char>,
    inner: Seq<char>,
    role: Role,
    parent: Option<Seq<char>>,
    jsx: JsxV,
    trail: TrailV,
)
    ensures
        #[trigger] flat(one_in(v, key, inner, role), parent, jsx, trail) == found_at(
            child(v, key),
            inner,
            role,
            parent,
            jsx,
            trail,
        ),
{
    lemma_flat_one(child(v, key), inner, role, parent, jsx, trail);
    assert(one_in(v, key, inner, role) =~= one(child(v, key), inner, role));
}

broadcast proof fn lemma_flat_each_in(
    v: JsonV,
    key: Seq<char>,
    inner: Seq<char>,
    role: Role,
    parent: Option<Seq<char>>,
    jsx: JsxV,
    trail: TrailV,
)
    ensures
        #[trigger] flat(each_in(v, key, inner, role), parent, jsx, trail) == found_in_list(
            child(v, key),
            inner,
            role,
            parent,
            jsx,
            trail,
        ),
{
    lemma_flat_each(child(v, key), inner, role, parent, jsx, trail);
    assert(each_in(v, key, inner, role) =~= each(child(v, key), inner, role));
}

broadcast group group_flat {
    lemma_flat_add,
    lemma_flat_none,
    lemma_flat_itself,
    lemma_flat_one,
    lemma_flat_each,
    lemma_flat_one_in,
    lemma_flat_each_in,
}

/// What is found in a statement.
proof fn lemma_statement(v: JsonV, parent: Option<Seq<char>>, jsx: JsxV, trail: TrailV)
    ensures
        found(v, Role::Statement, parent, jsx, trail) == flat(
            plan_statement(v),
            statement_parent(v, parent),
            jsx,
            trail,
        ),
{
    let w = RenderV { work: WorkV { role: Role::Statement, node: v }, parent };
    lemma_statement_below(v);
    lemma_found(w, plan_statement(v), statement_parent(v, parent), jsx, trail);
}

/// What is found in an expression that is no name.
proof fn lemma_expression(
    v: JsonV,
    role: Role,
    parent: Option<Seq<char>>,
    jsx: JsxV,
    trail: TrailV,
)
    requires
        role is Expression || (role is Container && !type_is(v, "CallExpression"@)),
        identifier(v) is None,
    ensures
        found(v, role, parent, jsx, trail) == flat(plan_expression(v), parent, jsx, trail),
{
    let w = RenderV { work: WorkV { role, node: v }, parent };
    lemma_expression_below(v);
    lemma_found(w, plan_expression(v), parent, jsx, trail);
}

/// What is found in a variable declaration is what is found in its declarators.
pub proof fn law_variables(v: JsonV, parent: Option<Seq<char>>, jsx: JsxV, trail: TrailV)
    requires
        type_is(v, "VariableDeclaration"@),
    ensures
        found(v, Role::Statement, parent, jsx, trail) == found_in_list(v, "declarations"@, Role::Declarator, parent, jsx, trail),
{
    broadcast use group_flat;

    lemma_type_names();
    lemma_statement(v, parent, jsx, trail);
}

/// What is returned is looked at.
pub proof fn law_return(v: JsonV, parent: Option<Seq<char>>, jsx: JsxV, trail: TrailV)
    requires
        type_is(v, "ReturnStatement"@),
    ensures
        found(v, Role::Statement, parent, jsx, trail) == found_at(v, "argument"@, Role::Expression, parent, jsx, trail),
{
    broadcast use group_flat;

    lemma_type_names();
    lemma_statement(v, parent, jsx, trail);
}

/// What is found in an expression statement is what is found in the expression.
pub proof fn law_expression_statement(v: JsonV, parent: Option<Seq<char>>, jsx: JsxV, trail: TrailV)
    requires
        type_is(v, "ExpressionStatement"@),
    ensures
        found(v, Role::Statement, parent, jsx, trail) == found_at(v, "expression"@, Role::Expression, parent, jsx, trail),
{
    broadcast use group_flat;

    lemma_type_names();
    lemma_statement(v, parent, jsx, trail);
}

/// What is found in a block is what is found in its statements, in their order.
pub proof fn law_block(v: JsonV, parent: Option<Seq<char>>, jsx: JsxV, trail: TrailV)
    requires
        type_is(v, "BlockStatement"@),
    ensures
        found(v, Role::Statement, parent, jsx, trail) == found_in_list(v, "body"@, Role::Statement, parent, jsx, trail),
{
    broadcast use group_flat;

    lemma_type_names();
    lemma_statement(v, parent, jsx, trail);
}

/// Both branches of an `if` are looked at.
pub proof fn law_if(v: JsonV, parent: Option<Seq<char>>, jsx: JsxV, trail: TrailV)
    requires
        type_is(v, "IfStatement"@),
    ensures
        found(v, Role::Statement, parent, jsx, trail) == found_at(v, "consequent"@, Role::Statement, parent, jsx, trail) + found_at(v, "alternate"@, Role::Statement, parent, jsx, trail),
{
    broadcast use group_flat;

    lemma_type_names();
    lemma_statement(v, parent, jsx, trail);
}

/// What is found in a JSX element is found in it as an expression.
pub proof fn law_element_expression(v: JsonV, parent: Option<Seq<char>>, jsx: JsxV, trail: TrailV)
    requires
        type_is(v, "JSXElement"@),
    ensures
        found(v, Role::Expression, parent, jsx, trail) == found(v, Role::Element, parent, jsx, trail),
        found(v, Role::Container, parent, jsx, trail) == found(v, Role::Expression, parent, jsx, trail),
{
    broadcast use group_flat;

    lemma_type_names();
    lemma_expression(v, Role::Expression, parent, jsx, trail);
    lemma_expression(v, Role::Container, parent, jsx, trail);
}

/// What is found in a fragment is what is found in its children.
pub proof fn law_fragment(v: JsonV, parent: Option<Seq<char>>, jsx: JsxV, trail: TrailV)
    requires
        type_is(v, "JSXFragment"@),
    ensures
        found(v, Role::Expression, parent, jsx, trail) == found_in_list(v, "children"@, Role::Child, parent, jsx, trail),
        found(v, Role::Container, parent, jsx, trail) == found(v, Role::Expression, parent, jsx, trail),
{
    broadcast use group_flat;

    lemma_type_names();
    lemma_expression(v, Role::Expression, parent, jsx, trail);
    lemma_expression(v, Role::Container, parent, jsx, trail);
}

/// Parentheses change nothing in what is found in an expression.
pub proof fn law_parenthesized(v: JsonV, parent: Option<Seq<char>>, jsx: JsxV, trail: TrailV)
    requires
        type_is(v, "ParenthesizedExpression"@),
    ensures
        found(v, Role::Expression, parent, jsx, trail) == found_at(v, "expression"@, Role::Expression, parent, jsx, trail),
        found(v, Role::Container, parent, jsx, trail) == found(v, Role::Expression, parent, jsx, trail),
{
    broadcast use group_flat;

    lemma_type_names();
    lemma_expression(v, Role::Expression, parent, jsx, trail);
    lemma_expression(v, Role::Container, parent, jsx, trail);
}

/// Whatever either branch of a conditional expression renders is found, under the same parent:
/// first what the one renders, then what the other does.
pub proof fn law_conditional(v: JsonV, parent: Option<Seq<char>>, jsx: JsxV, trail: TrailV)
    requires
        type_is(v, "ConditionalExpression"@),
    ensures
        found(v, Role::Expression, parent, jsx, trail) == found_at(v, "consequent"@, Role::Expression, parent, jsx, trail) + found_at(v, "alternate"@, Role::Expression, parent, jsx, trail),
        found(v, Role::Container, parent, jsx, trail) == found(v, Role::Expression, parent, jsx, trail),
{
    broadcast use group_flat;

    lemma_type_names();
    lemma_expression(v, Role::Expression, parent, jsx, trail);
    lemma_expression(v, Role::Container, parent, jsx, trail);
}

/// What a logical expression renders is what its right side renders.
pub proof fn law_logical(v: JsonV, parent: Option<Seq<char>>, jsx: JsxV, trail: TrailV)
    requires
        type_is(v, "LogicalExpression"@),
    ensures
        found(v, Role::Expression, parent, jsx, trail) == found_at(v, "right"@, Role::Expression, parent, jsx, trail),
        found(v, Role::Container, parent, jsx, trail) == found(v, Role::Expression, parent, jsx, trail),
{
    broadcast use group_flat;

    lemma_type_names();
    lemma_expression(v, Role::Expression, parent, jsx, trail);
    lemma_expression(v, Role::Container, parent, jsx, trail);
}

/// The expression that an arrow function gives is looked at.
pub proof fn law_arrow(v: JsonV, parent: Option<Seq<char>>, jsx: JsxV, trail: TrailV)
    requires
        type_is(v, "ArrowFunctionExpression"@),
        flag(v, "expression"@),
    ensures
        found(v, Role::Expression, parent, jsx, trail) == found_at(v, "body"@, Role::Expression, parent, jsx, trail),
        found(v, Role::Container, parent, jsx, trail) == found(v, Role::Expression, parent, jsx, trail),
{
    broadcast use group_flat;

    lemma_type_names();
    lemma_expression(v, Role::Expression, parent, jsx, trail);
    lemma_expression(v, Role::Container, parent, jsx, trail);
}

/// The statements of an arrow function are looked at.
pub proof fn law_arrow_block(v: JsonV, parent: Option<Seq<char>>, jsx: JsxV, trail: TrailV)
    requires
        type_is(v, "ArrowFunctionExpression"@),
        !flag(v, "expression"@),
    ensures
        found(v, Role::Expression, parent, jsx, trail) == found_in_list(child(v, "body"@), "body"@, Role::Statement, parent, jsx, trail),
        found(v, Role::Container, parent, jsx, trail) == found(v, Role::Expression, parent, jsx, trail),
{
    broadcast use group_flat;

    lemma_type_names();
    lemma_expression(v, Role::Expression, parent, jsx, trail);
    lemma_expression(v, Role::Container, parent, jsx, trail);
}

/// All the arguments of a call are looked at.
pub proof fn law_call(v: JsonV, parent: Option<Seq<char>>, jsx: JsxV, trail: TrailV)
    requires
        type_is(v, "CallExpression"@),
    ensures
        found(v, Role::Expression, parent, jsx, trail) == found_in_list(v, "arguments"@, Role::Expression, parent, jsx, trail),
{
    broadcast use group_flat;

    lemma_type_names();
    lemma_expression(v, Role::Expression, parent, jsx, trail);
}

/// All the arguments of an optional call are looked at.
pub proof fn law_optional_call(v: JsonV, parent: Option<Seq<char>>, jsx: JsxV, trail: TrailV)
    requires
        type_is(v, "ChainExpression"@),
        type_is(child(v, "expression"@), "CallExpression"@),
    ensures
        found(v, Role::Expression, parent, jsx, trail) == found_in_list(child(v, "expression"@), "arguments"@, Role::Expression, parent, jsx, trail),
        found(v, Role::Container, parent, jsx, trail) == found(v, Role::Expression, parent, jsx, trail),
{
    broadcast use group_flat;

    lemma_type_names();
    lemma_expression(v, Role::Expression, parent, jsx, trail);
    lemma_expression(v, Role::Container, parent, jsx, trail);
}

/// What is spread is looked at.
pub proof fn law_spread(v: JsonV, parent: Option<Seq<char>>, jsx: JsxV, trail: TrailV)
    requires
        type_is(v, "SpreadElement"@),
    ensures
        found(v, Role::Expression, parent, jsx, trail) == found_at(v, "argument"@, Role::Expression, parent, jsx, trail),
        found(v, Role::Container, parent, jsx, trail) == found(v, Role::Expression, parent, jsx, trail),
{
    broadcast use group_flat;

    lemma_type_names();
    lemma_expression(v, Role::Expression, parent, jsx, trail);
    lemma_expression(v, Role::Container, parent, jsx, trail);
}

/// A JSX element is looked at as a child.
pub proof fn law_child_element(v: JsonV, parent: Option<Seq<char>>, jsx: JsxV, trail: TrailV)
    requires
        type_is(v, "JSXElement"@),
    ensures
        found(v, Role::Child, parent, jsx, trail) == found(v, Role::Element, parent, jsx, trail),
{
    broadcast use group_flat;

    lemma_type_names();
    broadcast use group_below;

    let w = RenderV { work: WorkV { role: Role::Child, node: v }, parent };
    lemma_found(w, plan_child(v), parent, jsx, trail);
}

/// The children of a fragment are looked at as children.
pub proof fn law_child_fragment(v: JsonV, parent: Option<Seq<char>>, jsx: JsxV, trail: TrailV)
    requires
        type_is(v, "JSXFragment"@),
    ensures
        found(v, Role::Child, parent, jsx, trail) == found_in_list(v, "children"@, Role::Child, parent, jsx, trail),
{
    broadcast use group_flat;

    lemma_type_names();
    broadcast use group_below;

    let w = RenderV { work: WorkV { role: Role::Child, node: v }, parent };
    lemma_found(w, plan_child(v), parent, jsx, trail);
}

/// The expression between braces is looked at as a child.
pub proof fn law_child_container(v: JsonV, parent: Option<Seq<char>>, jsx: JsxV, trail: TrailV)
    requires
        type_is(v, "JSXExpressionContainer"@),
    ensures
        found(v, Role::Child, parent, jsx, trail) == found_at(v, "expression"@, Role::Container, parent, jsx, trail),
{
    broadcast use group_flat;

    lemma_type_names();
    broadcast use group_below;

    let w = RenderV { work: WorkV { role: Role::Child, node: v }, parent };
    lemma_found(w, plan_child(v), parent, jsx, trail);
}

/// The expression that an attribute is given is looked at.
pub proof fn law_attribute(v: JsonV, parent: Option<Seq<char>>, jsx: JsxV, trail: TrailV)
    requires
        type_is(v, "JSXAttribute"@),
        type_is(child(v, "value"@), "JSXExpressionContainer"@),
    ensures
        found(v, Role::Attribute, parent, jsx, trail) == found_at(child(v, "value"@), "expression"@, Role::Container, parent, jsx, trail),
{
    broadcast use group_flat;

    lemma_type_names();
    broadcast use group_below;

    let w = RenderV { work: WorkV { role: Role::Attribute, node: v }, parent };
    lemma_found(w, plan_attribute(v), parent, jsx, trail);
}

/// Nothing is rendered by an attribute that is given no expression.
pub proof fn law_attribute_text(v: JsonV, parent: Option<Seq<char>>, jsx: JsxV, trail: TrailV)
    requires
        type_is(v, "JSXAttribute"@),
        !type_is(child(v, "value"@), "JSXExpressionContainer"@),
    ensures
        found(v, Role::Attribute, parent, jsx, trail) == Seq::<IncidentV>::empty(),
{
    broadcast use group_flat;

    lemma_type_names();
    broadcast use group_below;

    let w = RenderV { work: WorkV { role: Role::Attribute, node: v }, parent };
    lemma_found(w, plan_attribute(v), parent, jsx, trail);
}

/// What is spread over an element is looked at.
pub proof fn law_spread_attribute(v: JsonV, parent: Option<Seq<char>>, jsx: JsxV, trail: TrailV)
    requires
        type_is(v, "JSXSpreadAttribute"@),
    ensures
        found(v, Role::Attribute, parent, jsx, trail) == found_at(v, "argument"@, Role::Expression, parent, jsx, trail),
{
    broadcast use group_flat;

    lemma_type_names();
    broadcast use group_below;

    let w = RenderV { work: WorkV { role: Role::Attribute, node: v }, parent };
    lemma_found(w, plan_attribute(v), parent, jsx, trail);
}

/// The component that what a function gives is rendered in: what a hook gives is composed
/// elsewhere, and what any other function gives is rendered where the function stands.
pub open spec fn parent_by_name(name: JsonV, parent: Option<Seq<char>>) -> Option<Seq<char>> {
    match identifier(name) {
        Some(n) => if is_hook(n) {
            Some("__HookReturn__"@)
        } else {
            parent
        },
        None => parent,
    }
}

/// What is found in a function declaration is what is found in its statements, in their order.
pub proof fn law_function(v: JsonV, parent: Option<Seq<char>>, jsx: JsxV, trail: TrailV)
    requires
        is_function_declaration(v),
    ensures
        found(v, Role::Statement, parent, jsx, trail) == found_in_list(
            child(v, "body"@),
            "body"@,
            Role::Statement,
            parent_by_name(child(v, "id"@), parent),
            jsx,
            trail,
        ),
{
    broadcast use group_flat;

    lemma_type_names();
    lemma_statement(v, parent, jsx, trail);
}

/// Exporting a function, by default or by its name, changes nothing in what is found in it.
pub proof fn law_export_function(v: JsonV, parent: Option<Seq<char>>, jsx: JsxV, trail: TrailV)
    requires
        type_is(v, "ExportDefaultDeclaration"@) || type_is(v, "ExportNamedDeclaration"@),
        is_function_declaration(child(v, "declaration"@)),
    ensures
        found(v, Role::Statement, parent, jsx, trail) == found_at(
            v,
            "declaration"@,
            Role::Statement,
            parent,
            jsx,
            trail,
        ),
{
    broadcast use group_flat;

    lemma_type_names();
    lemma_statement(v, parent, jsx, trail);
    law_function(child(v, "declaration"@), parent, jsx, trail);
}

/// Exporting variables changes nothing in what is found in them.
pub proof fn law_export_variables(v: JsonV, parent: Option<Seq<char>>, jsx: JsxV, trail: TrailV)
    requires
        type_is(v, "ExportNamedDeclaration"@),
        type_is(child(v, "declaration"@), "VariableDeclaration"@),
    ensures
        found(v, Role::Statement, parent, jsx, trail) == found_at(
            v,
            "declaration"@,
            Role::Statement,
            parent,
            jsx,
            trail,
        ),
{
    broadcast use group_flat;

    lemma_type_names();
    lemma_statement(v, parent, jsx, trail);
    law_variables(child(v, "declaration"@), parent, jsx, trail);
}

/// What is found in a declarator is what its type says of the object that it is given, and what
/// is found in its initializer.
pub proof fn law_declarator(v: JsonV, parent: Option<Seq<char>>, jsx: JsxV, trail: TrailV)
    ensures
        found(v, Role::Declarator, parent, jsx, trail) == typed_object_hits(v, jsx) + found_at(
            v,
            "init"@,
            Role::Expression,
            declarator_parent(v, jsx.source, parent),
            jsx,
            trail,
        ),
{
    broadcast use group_flat;
    broadcast use group_below;

    let w = RenderV { work: WorkV { role: Role::Declarator, node: v }, parent };
    lemma_found(
        w,
        none() + one(v, "init"@, Role::Expression),
        declarator_parent(v, jsx.source, parent),
        jsx,
        trail,
    );
}

/// What is found in an element: what it reports itself, what its attributes render, in it, and what
/// its children render: in it, or, where it passes its children on, in what it wraps them in or in
/// what it is rendered in itself.
pub proof fn law_element(v: JsonV, parent: Option<Seq<char>>, jsx: JsxV, trail: TrailV)
    ensures
        ({
            let name = element_name(name_node(v));
            found(v, Role::Element, parent, jsx, trail) == element_hits(v, parent, jsx)
                + found_in_list(
                child(v, "openingElement"@),
                "attributes"@,
                Role::Attribute,
                Some(name),
                jsx,
                trail,
            ) + found_in_list(
                v,
                "children"@,
                Role::Child,
                match named(jsx.transparent, name) {
                    None => Some(name),
                    Some(Some(wrapper)) => Some(wrapper),
                    Some(None) => parent,
                },
                jsx,
                trail,
            )
        }),
{
    broadcast use group_flat;
    broadcast use group_below;

    let name = element_name(name_node(v));
    let a = each_in(v, "openingElement"@, "attributes"@, Role::Attribute);
    let b = each(v, "children"@, Role::Child);
    let inner = effective_parent(name, parent, jsx);
    let w = RenderV { work: WorkV { role: Role::Element, node: v }, parent };
    let bound = extent(w.work);
    assert(all_below(a, bound));
    assert(all_below(b, bound));
    let first = within(a, Some(name));
    let second = within(b, inner);
    assert forall|i: int| 0 <= i < first.len() implies extent((#[trigger] first[i]).work)
        < bound by {
        assert(first[i].work == a[i]);
    }
    assert forall|i: int| 0 <= i < second.len() implies extent((#[trigger] second[i]).work)
        < bound by {
        assert(second[i].work == b[i]);
    }
    lemma_hits_concat(first, second, second.len(), bound, jsx, trail);
    lemma_flat_of(a, a.len(), bound, Some(name), jsx, trail);
    lemma_flat_of(b, b.len(), bound, inner, jsx, trail);
    assert(a.take(a.len() as int) =~= a);
    assert(b.take(b.len() as int) =~= b);
}

/// A call between braces renders what the function of the file that it calls renders, unless that
/// is being followed, and what its arguments render.
pub proof fn law_call_between_braces(
    v: JsonV,
    parent: Option<Seq<char>>,
    jsx: JsxV,
    trail: TrailV,
)
    requires
        type_is(v, "CallExpression"@),
    ensures
        found(v, Role::Container, parent, jsx, trail) == (match identifier(child(v, "callee"@)) {
            Some(name) => local_renders(name, parent, jsx, trail),
            None => Seq::empty(),
        }) + found_in_list(v, "arguments"@, Role::Expression, parent, jsx, trail),
{
    broadcast use group_flat;

    lemma_type_names();
    let w = RenderV { work: WorkV { role: Role::Container, node: v }, parent };
    lemma_expression_below(v);
    lemma_found(w, plan_expression(v), parent, jsx, trail);
    if let Some(name) = identifier(child(v, "callee"@)) {
        lemma_local_renders(name, w, jsx, trail);
    }
}

/// What the body of a function renders: the expression that an arrow function gives, or the
/// statements of any other.
pub open spec fn body_renders(
    f: JsonV,
    parent: Option<Seq<char>>,
    jsx: JsxV,
    trail: TrailV,
) -> Seq<IncidentV> {
    if type_is(f, "ArrowFunctionExpression"@) && flag(f, "expression"@) {
        found_at(f, "body"@, Role::Expression, parent, jsx, trail)
    } else if type_is(f, "ArrowFunctionExpression"@) || type_is(f, "FunctionExpression"@) {
        found_in_list(child(f, "body"@), "body"@, Role::Statement, parent, jsx, trail)
    } else {
        Seq::empty()
    }
}

/// What a function of the file renders where its name is used: what its body does, unless it is
/// being followed.
pub open spec fn local_renders(
    name: Seq<char>,
    parent: Option<Seq<char>>,
    jsx: JsxV,
    trail: TrailV,
) -> Seq<IncidentV> {
    match named(jsx.scope.locals, name) {
        Some(f) => if trail.local.contains(name) {
            Seq::empty()
        } else {
            body_renders(
                f,
                parent,
                jsx,
                TrailV { local: trail.local.push(name), foreign: Seq::empty() },
            )
        },
        None => Seq::empty(),
    }
}

proof fn lemma_body_renders(f: JsonV, parent: Option<Seq<char>>, jsx: JsxV, trail: TrailV)
    ensures
        hits_in(within(plan_function(f), parent), plan_function(f).len(), bound_of(f), jsx, trail)
            == body_renders(f, parent, jsx, trail),
{
    broadcast use group_flat;

    lemma_function_below(f);
    let ws = plan_function(f);
    lemma_flat_of(ws, ws.len(), bound_of(f), parent, jsx, trail);
    assert(ws.take(ws.len() as int) =~= ws);
}

proof fn lemma_local_renders(name: Seq<char>, w: RenderV, jsx: JsxV, trail: TrailV)
    ensures
        crate::jsx::local_hits(name, w, jsx, trail) == local_renders(name, w.parent, jsx, trail),
{
    if let Some(f) = named(jsx.scope.locals, name) {
        let inner = TrailV { local: trail.local.push(name), foreign: Seq::empty() };
        lemma_body_renders(f, w.parent, jsx, inner);
    }
}

/// The name of a function of the file renders, where it stands as an expression, what the function
/// renders there: what its body does, under the parent that the name stands in.
pub proof fn law_local_name(
    v: JsonV,
    name: Seq<char>,
    parent: Option<Seq<char>>,
    jsx: JsxV,
    trail: TrailV,
)
    requires
        identifier(v) == Some(name),
        named(jsx.scope.locals, name) is Some,
    ensures
        found(v, Role::Expression, parent, jsx, trail) == local_renders(name, parent, jsx, trail),
        found(v, Role::Container, parent, jsx, trail) == local_renders(name, parent, jsx, trail),
{
    broadcast use group_flat;

    lemma_type_names();
    lemma_expression_below(v);
    let e = RenderV { work: WorkV { role: Role::Expression, node: v }, parent };
    let c = RenderV { work: WorkV { role: Role::Container, node: v }, parent };
    lemma_found(e, plan_expression(v), parent, jsx, trail);
    lemma_found(c, plan_expression(v), parent, jsx, trail);
    lemma_local_renders(name, e, jsx, trail);
    lemma_local_renders(name, c, jsx, trail);
}

/// What the first `n` of the functions that other files export render.
pub open spec fn exports_render(
    exported: Seq<ExportV>,
    n: int,
    parent: Option<Seq<char>>,
    jsx: JsxV,
    trail: TrailV,
) -> Seq<IncidentV>
    decreases n,
{
    if n <= 0 || n > exported.len() {
        Seq::empty()
    } else {
        exports_render(exported, n - 1, parent, jsx, trail) + (match exported[n - 1] {
            ExportV::Expression(f) => body_renders(f, parent, jsx, trail),
            ExportV::Function(f) => found_in_list(
                child(f, "body"@),
                "body"@,
                Role::Statement,
                parent,
                jsx,
                trail,
            ),
        })
    }
}

proof fn lemma_exports_render(
    exported: Seq<ExportV>,
    n: int,
    parent: Option<Seq<char>>,
    jsx: JsxV,
    trail: TrailV,
)
    ensures
        flat(export_works(exported, n), parent, jsx, trail) == exports_render(
            exported,
            n,
            parent,
            jsx,
            trail,
        ),
    decreases n,
{
    broadcast use group_flat;

    if 0 < n <= exported.len() {
        lemma_exports_render(exported, n - 1, parent, jsx, trail);
    }
}

/// The name of a function that another file exports renders, where it stands as an expression,
/// what the function renders, unless it is being followed.
pub proof fn law_imported_name(
    v: JsonV,
    name: Seq<char>,
    parent: Option<Seq<char>>,
    jsx: JsxV,
    trail: TrailV,
)
    requires
        identifier(v) == Some(name),
        named(jsx.scope.locals, name) is None,
    ensures
        found(v, Role::Expression, parent, jsx, trail) == if named(jsx.scope.imports, name) is None
            || trail.foreign.contains(name) {
            Seq::<IncidentV>::empty()
        } else {
            exports_render(
                jsx.scope.exported_by_index(name),
                jsx.scope.exported_by_index(name).len() as int,
                parent,
                jsx,
                TrailV { local: trail.local, foreign: trail.foreign.push(name) },
            )
        },
        found(v, Role::Container, parent, jsx, trail) == found(
            v,
            Role::Expression,
            parent,
            jsx,
            trail,
        ),
{
    broadcast use group_flat;

    lemma_type_names();
    lemma_expression_below(v);
    let e = RenderV { work: WorkV { role: Role::Expression, node: v }, parent };
    let c = RenderV { work: WorkV { role: Role::Container, node: v }, parent };
    lemma_found(e, plan_expression(v), parent, jsx, trail);
    lemma_found(c, plan_expression(v), parent, jsx, trail);
    let exported = jsx.scope.exported_by_index(name);
    let n = exported.len() as int;
    let ws = export_works(exported, n);
    let inner = TrailV { local: trail.local, foreign: trail.foreign.push(name) };
    lemma_exports_below(exported, n);
    lemma_flat_of(ws, ws.len(), export_bound(exported, n), parent, jsx, inner);
    assert(ws.take(ws.len() as int) =~= ws);
    lemma_exports_render(exported, n, parent, jsx, inner);
}

/// Nothing is found in a statement of any other kind.
pub proof fn law_other_statements(v: JsonV, parent: Option<Seq<char>>, jsx: JsxV, trail: TrailV)
    requires
        !type_is(v, "ExportDefaultDeclaration"@),
        !type_is(v, "ExportNamedDeclaration"@),
        !is_function_declaration(v),
        !type_is(v, "VariableDeclaration"@),
        !type_is(v, "ReturnStatement"@),
        !type_is(v, "ExpressionStatement"@),
        !type_is(v, "BlockStatement"@),
        !type_is(v, "IfStatement"@),
    ensures
        found(v, Role::Statement, parent, jsx, trail) == Seq::<IncidentV>::empty(),
{
    broadcast use group_flat;

    lemma_statement(v, parent, jsx, trail);
}

/// Nothing is found in an expression of any other kind.
pub proof fn law_other_expressions(v: JsonV, parent: Option<Seq<char>>, jsx: JsxV, trail: TrailV)
    requires
        identifier(v) is None,
        !type_is(v, "JSXElement"@),
        !type_is(v, "JSXFragment"@),
        !type_is(v, "ParenthesizedExpression"@),
        !type_is(v, "ConditionalExpression"@),
        !type_is(v, "LogicalExpression"@),
        !type_is(v, "ArrowFunctionExpression"@),
        !type_is(v, "CallExpression"@),
        !type_is(v, "ChainExpression"@),
        !type_is(v, "SpreadElement"@),
    ensures
        found(v, Role::Expression, parent, jsx, trail) == Seq::<IncidentV>::empty(),
        found(v, Role::Container, parent, jsx, trail) == Seq::<IncidentV>::empty(),
{
    broadcast use group_flat;

    lemma_expression(v, Role::Expression, parent, jsx, trail);
    lemma_expression(v, Role::Container, parent, jsx, trail);
}

/// What is found in a file is what is found in its statements, each rendered in nothing, in their
/// order.
pub proof fn law_file(stmts: Seq<JsonV>, jsx: JsxV)
    ensures
        statement_hits(stmts, stmts.len() as int, jsx) == found_in(
            stmts,
            stmts.len(),
            Role::Statement,
            None,
            jsx,
            no_trail(),
        ),
{
    lemma_file(stmts, stmts.len(), jsx);
}

proof fn lemma_file(stmts: Seq<JsonV>, n: nat, jsx: JsxV)
    requires
        n <= stmts.len(),
    ensures
        statement_hits(stmts, n as int, jsx) == found_in(
            stmts,
            n,
            Role::Statement,
            None,
            jsx,
            no_trail(),
        ),
    decreases n,
{
    if n > 0 {
        lemma_file(stmts, (n - 1) as nat, jsx);
    }
}

} // verus!
