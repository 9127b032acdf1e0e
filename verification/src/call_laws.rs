//! What a scan for function calls finds in each kind of node, by what it finds in the parts of the node.

use crate::function_calls::{callee_name, hits, hits_of, lemma_plan_below, own_hits, plan};
use crate::estree::{
    all_below, child, children, each, each_in, extent, flag, is_function_declaration,
    is_static_member, itself, none, number_field, one, one_in, text_field, type_is, Role, WorkV,
};
use crate::incident::IncidentV;
use crate::json::{field, JsonV};
use crate::scan::Scan;
use crate::scanner::incident_at;
use crate::type_names::lemma_type_names;
use vstd::prelude::*;

verus! {

/// What is found in a node that is looked at in a role.
pub open spec fn found(v: JsonV, role: Role, scan: Scan) -> Seq<IncidentV> {
    hits(WorkV { role, node: v }, scan)
}

/// What is found in the node in a field, if there is one.
pub open spec fn found_at(v: JsonV, key: Seq<char>, role: Role, scan: Scan) -> Seq<IncidentV> {
    match field(v, key) {
        Some(x) => found(x, role, scan),
        None => Seq::empty(),
    }
}

/// What is found in the first `n` of some nodes, in their order.
pub open spec fn found_in(nodes: Seq<JsonV>, n: nat, role: Role, scan: Scan) -> Seq<IncidentV>
    decreases n,
{
    if n == 0 || n > nodes.len() {
        Seq::empty()
    } else {
        found_in(nodes, (n - 1) as nat, role, scan) + found(nodes[n - 1], role, scan)
    }
}

/// What is found in all the nodes of a list field, in their order.
pub open spec fn found_in_list(v: JsonV, key: Seq<char>, role: Role, scan: Scan) -> Seq<IncidentV> {
    found_in(children(v, key), children(v, key).len(), role, scan)
}

/// What is found in pieces of work, in their order.
spec fn flat(ws: Seq<WorkV>, scan: Scan) -> Seq<IncidentV>
    decreases ws.len(),
{
    if ws.len() == 0 {
        Seq::empty()
    } else {
        flat(ws.drop_last(), scan) + hits(ws.last(), scan)
    }
}

proof fn lemma_flat_of(ws: Seq<WorkV>, n: nat, bound: nat, scan: Scan)
    requires
        n <= ws.len(),
        all_below(ws, bound),
    ensures
        hits_of(ws, n, bound, scan) == flat(ws.take(n as int), scan),
    decreases n,
{
    if n > 0 {
        lemma_flat_of(ws, (n - 1) as nat, bound, scan);
        let now = ws.take(n as int);
        assert(now.drop_last() =~= ws.take(n - 1));
        assert(now.last() == ws[n - 1]);
    }
}

/// What is found in a piece of work: what it yields itself, and what it leads to yields.
proof fn lemma_found(w: WorkV, scan: Scan)
    ensures
        hits(w, scan) == own_hits(w, scan) + flat(plan(w), scan),
{
    lemma_plan_below(w);
    lemma_flat_of(plan(w), plan(w).len(), extent(w), scan);
    assert(plan(w).take(plan(w).len() as int) =~= plan(w));
}

broadcast proof fn lemma_flat_add(a: Seq<WorkV>, b: Seq<WorkV>, scan: Scan)
    ensures
        #[trigger] flat(a + b, scan) == flat(a, scan) + flat(b, scan),
    decreases b.len(),
{
    if b.len() == 0 {
        assert(a + b =~= a);
    } else {
        lemma_flat_add(a, b.drop_last(), scan);
        assert((a + b).drop_last() =~= a + b.drop_last());
        assert((a + b).last() == b.last());
        assert(flat(a + b, scan) =~= flat(a, scan) + flat(b, scan));
    }
}

broadcast proof fn lemma_flat_none(scan: Scan)
    ensures
        #[trigger] flat(none(), scan) == Seq::<IncidentV>::empty(),
{
}

broadcast proof fn lemma_flat_itself(v: JsonV, role: Role, scan: Scan)
    ensures
        #[trigger] flat(itself(v, role), scan) == found(v, role, scan),
{
    let ws = itself(v, role);
    assert(ws.drop_last() =~= none());
    assert(flat(ws, scan) =~= flat(none(), scan) + hits(ws.last(), scan));
    assert(flat(ws, scan) =~= found(v, role, scan));
}

broadcast proof fn lemma_flat_one(v: JsonV, key: Seq<char>, role: Role, scan: Scan)
    ensures
        #[trigger] flat(one(v, key, role), scan) == found_at(v, key, role, scan),
{
    match field(v, key) {
        Some(x) => {
            lemma_flat_itself(x, role, scan);
            assert(one(v, key, role) =~= itself(x, role));
        },
        None => {
            assert(one(v, key, role) =~= none());
        },
    }
}

proof fn lemma_flat_nodes(nodes: Seq<JsonV>, n: nat, role: Role, scan: Scan)
    requires
        n <= nodes.len(),
    ensures
        flat(nodes.map_values(|x: JsonV| WorkV { role, node: x }).take(n as int), scan)
            == found_in(nodes, n, role, scan),
    decreases n,
{
    let ws = nodes.map_values(|x: JsonV| WorkV { role, node: x });
    if n > 0 {
        lemma_flat_nodes(nodes, (n - 1) as nat, role, scan);
        assert(ws.take(n as int).drop_last() =~= ws.take(n - 1));
        assert(ws.take(n as int).last() == WorkV { role, node: nodes[n - 1] });
    } else {
        assert(ws.take(0) =~= none());
    }
}

broadcast proof fn lemma_flat_each(v: JsonV, key: Seq<char>, role: Role, scan: Scan)
    ensures
        #[trigger] flat(each(v, key, role), scan) == found_in_list(v, key, role, scan),
{
    let nodes = children(v, key);
    lemma_flat_nodes(nodes, nodes.len(), role, scan);
    let ws = nodes.map_values(|x: JsonV| WorkV { role, node: x });
    assert(ws.take(nodes.len() as int) =~= ws);
    assert(each(v, key, role) =~= ws);
}

broadcast proof fn lemma_flat_one_in(
    v: JsonV,
    key: Seq<char>,
    inner: Seq<char>,
    role: Role,
    scan: Scan,
)
    ensures
        #[trigger] flat(one_in(v, key, inner, role), scan) == found_at(
            child(v, key),
            inner,
            role,
            scan,
        ),
{
    lemma_flat_one(child(v, key), inner, role, scan);
    assert(one_in(v, key, inner, role) =~= one(child(v, key), inner, role));
}

broadcast proof fn lemma_flat_each_in(
    v: JsonV,
    key: Seq<char>,
    inner: Seq<char>,
    role: Role,
    scan: Scan,
)
    ensures
        #[trigger] flat(each_in(v, key, inner, role), scan) == found_in_list(
            child(v, key),
            inner,
            role,
            scan,
        ),
{
    lemma_flat_each(child(v, key), inner, role, scan);
    assert(each_in(v, key, inner, role) =~= each(child(v, key), inner, role));
}

broadcast group group_flat {
    lemma_flat_add,
    lemma_flat_none,
    lemma_flat_itself,
    lemma_flat_one,
    lemma_flat_each,
    lemma_flat_one_in,
    lemma_flat_each_in,
}

/// Exporting a declaration changes nothing in what is found in it.
pub proof fn law_export_named(v: JsonV, scan: Scan)
    requires
        type_is(v, "ExportNamedDeclaration"@),
        is_function_declaration(child(v, "declaration"@)) || type_is(child(v, "declaration"@), "VariableDeclaration"@),
    ensures
        found(v, Role::Statement, scan) == found_at(v, "declaration"@, Role::Statement, scan),
{
    broadcast use group_flat;

    lemma_type_names();
    lemma_found(WorkV { role: Role::Statement, node: v }, scan);
}

/// Exporting a function by default changes nothing in what is found in it.
pub proof fn law_export_default(v: JsonV, scan: Scan)
    requires
        type_is(v, "ExportDefaultDeclaration"@),
        is_function_declaration(child(v, "declaration"@)),
    ensures
        found(v, Role::Statement, scan) == found_at(v, "declaration"@, Role::Statement, scan),
{
    broadcast use group_flat;

    lemma_type_names();
    lemma_found(WorkV { role: Role::Statement, node: v }, scan);
}

/// What is found in a function declaration is what is found in its body.
pub proof fn law_function(v: JsonV, scan: Scan)
    requires
        is_function_declaration(v),
    ensures
        found(v, Role::Statement, scan) == found_at(v, "body"@, Role::Statement, scan),
{
    broadcast use group_flat;

    lemma_type_names();
    lemma_found(WorkV { role: Role::Statement, node: v }, scan);
}

/// What is found in a variable declaration is what is found in its declarators, exported or not.
pub proof fn law_variables(v: JsonV, scan: Scan)
    requires
        type_is(v, "VariableDeclaration"@),
    ensures
        found(v, Role::Statement, scan) == found_in_list(v, "declarations"@, Role::Declarator, scan),
{
    broadcast use group_flat;

    lemma_type_names();
    lemma_found(WorkV { role: Role::Statement, node: v }, scan);
}

/// What is found in a declarator is what is found in its initializer.
pub proof fn law_initializer(v: JsonV, scan: Scan)
    ensures
        found(v, Role::Declarator, scan) == found_at(v, "init"@, Role::Expression, scan),
{
    broadcast use group_flat;

    lemma_type_names();
    lemma_found(WorkV { role: Role::Declarator, node: v }, scan);
}

/// What is returned is looked at.
pub proof fn law_return(v: JsonV, scan: Scan)
    requires
        type_is(v, "ReturnStatement"@),
    ensures
        found(v, Role::Statement, scan) == found_at(v, "argument"@, Role::Expression, scan),
{
    broadcast use group_flat;

    lemma_type_names();
    lemma_found(WorkV { role: Role::Statement, node: v }, scan);
}

/// What is found in an expression statement is what is found in the expression.
pub proof fn law_expression_statement(v: JsonV, scan: Scan)
    requires
        type_is(v, "ExpressionStatement"@),
        text_field(v, "directive"@) is None,
    ensures
        found(v, Role::Statement, scan) == found_at(v, "expression"@, Role::Expression, scan),
{
    broadcast use group_flat;

    lemma_type_names();
    lemma_found(WorkV { role: Role::Statement, node: v }, scan);
}

/// Nothing is found in a directive.
pub proof fn law_directive(v: JsonV, scan: Scan)
    requires
        type_is(v, "ExpressionStatement"@),
        text_field(v, "directive"@) is Some,
    ensures
        found(v, Role::Statement, scan) == Seq::<IncidentV>::empty(),
{
    broadcast use group_flat;

    lemma_type_names();
    lemma_found(WorkV { role: Role::Statement, node: v }, scan);
}

/// What is found in a block is what is found in its statements, in their order.
pub proof fn law_block(v: JsonV, scan: Scan)
    requires
        type_is(v, "BlockStatement"@),
    ensures
        found(v, Role::Statement, scan) == found_in_list(v, "body"@, Role::Statement, scan),
{
    broadcast use group_flat;

    lemma_type_names();
    lemma_found(WorkV { role: Role::Statement, node: v }, scan);
}

/// Both branches of an `if` are looked at.
pub proof fn law_if(v: JsonV, scan: Scan)
    requires
        type_is(v, "IfStatement"@),
    ensures
        found(v, Role::Statement, scan) == found_at(v, "consequent"@, Role::Statement, scan) + found_at(v, "alternate"@, Role::Statement, scan),
{
    broadcast use group_flat;

    lemma_type_names();
    lemma_found(WorkV { role: Role::Statement, node: v }, scan);
}

/// Nothing is found in a statement of any other kind.
pub proof fn law_other_statements(v: JsonV, scan: Scan)
    requires
        !type_is(v, "ExportDefaultDeclaration"@),
        !type_is(v, "ExportNamedDeclaration"@),
        !type_is(v, "FunctionDeclaration"@),
        !type_is(v, "TSDeclareFunction"@),
        !type_is(v, "VariableDeclaration"@),
        !type_is(v, "ReturnStatement"@),
        !type_is(v, "ExpressionStatement"@),
        !type_is(v, "BlockStatement"@),
        !type_is(v, "IfStatement"@),
    ensures
        found(v, Role::Statement, scan) == Seq::<IncidentV>::empty(),
{
    broadcast use group_flat;

    lemma_found(WorkV { role: Role::Statement, node: v }, scan);
}

/// A call is looked at by itself, and so are all its arguments.
pub proof fn law_call(v: JsonV, scan: Scan)
    requires
        type_is(v, "CallExpression"@),
    ensures
        found(v, Role::Expression, scan) == found(v, Role::Call, scan) + found_in_list(v, "arguments"@, Role::Expression, scan),
{
    broadcast use group_flat;

    lemma_type_names();
    lemma_found(WorkV { role: Role::Expression, node: v }, scan);
}

/// Parentheses change nothing in what is found in an expression.
pub proof fn law_wrapped(v: JsonV, scan: Scan)
    requires
        type_is(v, "ParenthesizedExpression"@),
    ensures
        found(v, Role::Expression, scan) == found_at(v, "expression"@, Role::Expression, scan),
{
    broadcast use group_flat;

    lemma_type_names();
    lemma_found(WorkV { role: Role::Expression, node: v }, scan);
}

/// Both branches of a conditional expression are looked at.
pub proof fn law_conditional(v: JsonV, scan: Scan)
    requires
        type_is(v, "ConditionalExpression"@),
    ensures
        found(v, Role::Expression, scan) == found_at(v, "consequent"@, Role::Expression, scan) + found_at(v, "alternate"@, Role::Expression, scan),
{
    broadcast use group_flat;

    lemma_type_names();
    lemma_found(WorkV { role: Role::Expression, node: v }, scan);
}

/// The expression that an arrow function gives is looked at.
pub proof fn law_arrow(v: JsonV, scan: Scan)
    requires
        type_is(v, "ArrowFunctionExpression"@),
        flag(v, "expression"@),
    ensures
        found(v, Role::Expression, scan) == found_at(v, "body"@, Role::Expression, scan),
{
    broadcast use group_flat;

    lemma_type_names();
    lemma_found(WorkV { role: Role::Expression, node: v }, scan);
}

/// The body of an arrow function is looked at.
pub proof fn law_arrow_block(v: JsonV, scan: Scan)
    requires
        type_is(v, "ArrowFunctionExpression"@),
        !flag(v, "expression"@),
    ensures
        found(v, Role::Expression, scan) == found_at(v, "body"@, Role::Statement, scan),
{
    broadcast use group_flat;

    lemma_type_names();
    lemma_found(WorkV { role: Role::Expression, node: v }, scan);
}

/// Nothing is found in an expression of any other kind.
pub proof fn law_other_expressions(v: JsonV, scan: Scan)
    requires
        !type_is(v, "CallExpression"@),
        !type_is(v, "ArrowFunctionExpression"@),
        !type_is(v, "ParenthesizedExpression"@),
        !type_is(v, "ConditionalExpression"@),
    ensures
        found(v, Role::Expression, scan) == Seq::<IncidentV>::empty(),
{
    broadcast use group_flat;

    lemma_found(WorkV { role: Role::Expression, node: v }, scan);
}

/// A call of a function by its name is reported where the name matches, once, with the name and
/// where it stands; any other is not.
pub proof fn law_named_call(v: JsonV, name: Seq<char>, scan: Scan)
    requires
        type_is(child(v, "callee"@), "Identifier"@),
        field(child(v, "callee"@), "name"@) == Some(JsonV::Text(name)),
    ensures
        scan.accepts(name) ==> found(v, Role::Call, scan).len() == 1 && {
            let hit = found(v, Role::Call, scan)[0];
            &&& hit.variables.dom().contains("functionName"@)
            &&& hit.variables["functionName"@] == JsonV::Text(name)
            &&& hit == incident_at(
                scan.source,
                scan.file_uri,
                number_field(child(v, "callee"@), "start"@),
                number_field(child(v, "callee"@), "end"@),
            ).with_text("functionName"@, name)
        },
        !scan.accepts(name) ==> found(v, Role::Call, scan) == Seq::<IncidentV>::empty(),
{
    broadcast use group_flat;

    lemma_found(WorkV { role: Role::Call, node: v }, scan);
}

/// The name of a method that is called is the name of what it is read from, a dot, and its own.
pub proof fn law_dotted_name(v: JsonV, object: Seq<char>, property: Seq<char>)
    requires
        is_static_member(v),
        callee_name(child(v, "object"@)) == Some(object),
        field(child(v, "property"@), "name"@) == Some(JsonV::Text(property)),
    ensures
        callee_name(v) == Some(object + "."@ + property),
{
    lemma_type_names();
    if field(v, "object"@) is None {
        assert(callee_name(JsonV::Null) is None);
    }
}

/// A call is reported exactly where the dotted name of what it calls matches.
pub proof fn law_call_by_name(v: JsonV, scan: Scan)
    ensures
        found(v, Role::Call, scan).len() == (match callee_name(child(v, "callee"@)) {
            Some(name) => if scan.accepts(name) {
                1nat
            } else {
                0nat
            },
            None => 0nat,
        }),
{
    broadcast use group_flat;

    lemma_found(WorkV { role: Role::Call, node: v }, scan);
}

} // verus!
