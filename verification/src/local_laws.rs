//! Which local variables are known, by the statements that declare them.

use crate::estree::{
    all_below, child, children, each, each_in, extent, flag, identifier, itself, none, one, one_in,
    present, type_is, Role, WorkV,
};
use crate::json::{field, JsonV};
use crate::locals::{lemma_plan_below, local_exprs, locals_in, locals_of, own_local, plan};
use crate::type_names::lemma_type_names;
use vstd::prelude::*;

verus! {

/// What is found in a node that is looked at in a role.
pub open spec fn found(v: JsonV, role: Role) -> Seq<(Seq<char>, JsonV)> {
    locals_in(WorkV { role, node: v })
}

/// What is found in the node in a field, if there is one.
pub open spec fn found_at(v: JsonV, key: Seq<char>, role: Role) -> Seq<(Seq<char>, JsonV)> {
    match field(v, key) {
        Some(x) => found(x, role),
        None => Seq::empty(),
    }
}

/// What is found in the first `n` of some nodes, in their order.
pub open spec fn found_in(nodes: Seq<JsonV>, n: nat, role: Role) -> Seq<(Seq<char>, JsonV)>
    decreases n,
{
    if n == 0 || n > nodes.len() {
        Seq::empty()
    } else {
        found_in(nodes, (n - 1) as nat, role) + found(nodes[n - 1], role)
    }
}

/// What is found in all the nodes of a list field, in their order.
pub open spec fn found_in_list(v: JsonV, key: Seq<char>, role: Role) -> Seq<(Seq<char>, JsonV)> {
    found_in(children(v, key), children(v, key).len(), role)
}

/// What is found in pieces of work, in their order.
spec fn flat(ws: Seq<WorkV>) -> Seq<(Seq<char>, JsonV)>
    decreases ws.len(),
{
    if ws.len() == 0 {
        Seq::empty()
    } else {
        flat(ws.drop_last()) + locals_in(ws.last())
    }
}

proof fn lemma_flat_of(ws: Seq<WorkV>, n: nat, bound: nat)
    requires
        n <= ws.len(),
        all_below(ws, bound),
    ensures
        locals_of(ws, n, bound) == flat(ws.take(n as int)),
    decreases n,
{
    if n > 0 {
        lemma_flat_of(ws, (n - 1) as nat, bound);
        let now = ws.take(n as int);
        assert(now.drop_last() =~= ws.take(n - 1));
        assert(now.last() == ws[n - 1]);
    }
}

/// What is found in a piece of work: what it yields itself, and what it leads to yields.
proof fn lemma_found(w: WorkV)
    ensures
        locals_in(w) == own_local(w) + flat(plan(w)),
{
    lemma_plan_below(w);
    lemma_flat_of(plan(w), plan(w).len(), extent(w));
    assert(plan(w).take(plan(w).len() as int) =~= plan(w));
}

broadcast proof fn lemma_flat_add(a: Seq<WorkV>, b: Seq<WorkV>)
    ensures
        #[trigger] flat(a + b) == flat(a) + flat(b),
    decreases b.len(),
{
    if b.len() == 0 {
        assert(a + b =~= a);
    } else {
        lemma_flat_add(a, b.drop_last());
        assert((a + b).drop_last() =~= a + b.drop_last());
        assert((a + b).last() == b.last());
        assert(flat(a + b) =~= flat(a) + flat(b));
    }
}

proof fn lemma_flat_none()
    ensures
        flat(none()) == Seq::<(Seq<char>, JsonV)>::empty(),
{
}

broadcast proof fn lemma_flat_itself(v: JsonV, role: Role)
    ensures
        #[trigger] flat(itself(v, role)) == found(v, role),
{
    let ws = itself(v, role);
    assert(ws.drop_last() =~= none());
    assert(flat(ws) =~= flat(none()) + locals_in(ws.last()));
    assert(flat(ws) =~= found(v, role));
}

broadcast proof fn lemma_flat_one(v: JsonV, key: Seq<char>, role: Role)
    ensures
        #[trigger] flat(one(v, key, role)) == found_at(v, key, role),
{
    match field(v, key) {
        Some(x) => {
            lemma_flat_itself(x, role);
            assert(one(v, key, role) =~= itself(x, role));
        },
        None => {
            assert(one(v, key, role) =~= none());
        },
    }
}

proof fn lemma_flat_nodes(nodes: Seq<JsonV>, n: nat, role: Role)
    requires
        n <= nodes.len(),
    ensures
        flat(nodes.map_values(|x: JsonV| WorkV { role, node: x }).take(n as int))
            == found_in(nodes, n, role),
    decreases n,
{
    let ws = nodes.map_values(|x: JsonV| WorkV { role, node: x });
    if n > 0 {
        lemma_flat_nodes(nodes, (n - 1) as nat, role);
        assert(ws.take(n as int).drop_last() =~= ws.take(n - 1));
        assert(ws.take(n as int).last() == WorkV { role, node: nodes[n - 1] });
    } else {
        assert(ws.take(0) =~= none());
    }
}

broadcast proof fn lemma_flat_each(v: JsonV, key: Seq<char>, role: Role)
    ensures
        #[trigger] flat(each(v, key, role)) == found_in_list(v, key, role),
{
    let nodes = children(v, key);
    lemma_flat_nodes(nodes, nodes.len(), role);
    let ws = nodes.map_values(|x: JsonV| WorkV { role, node: x });
    assert(ws.take(nodes.len() as int) =~= ws);
    assert(each(v, key, role) =~= ws);
}

broadcast proof fn lemma_flat_one_in(
    v: JsonV,
    key: Seq<char>,
    inner: Seq<char>,
    role: Role,
)
    ensures
        #[trigger] flat(one_in(v, key, inner, role)) == found_at(
            child(v, key),
            inner,
            role,
        ),
{
    lemma_flat_one(child(v, key), inner, role);
    assert(one_in(v, key, inner, role) =~= one(child(v, key), inner, role));
}

broadcast proof fn lemma_flat_each_in(
    v: JsonV,
    key: Seq<char>,
    inner: Seq<char>,
    role: Role,
)
    ensures
        #[trigger] flat(each_in(v, key, inner, role)) == found_in_list(
            child(v, key),
            inner,
            role,
        ),
{
    lemma_flat_each(child(v, key), inner, role);
    assert(each_in(v, key, inner, role) =~= each(child(v, key), inner, role));
}

broadcast group group_flat {
    lemma_flat_add,
    lemma_flat_itself,
    lemma_flat_one,
    lemma_flat_each,
    lemma_flat_one_in,
    lemma_flat_each_in,
}

/// A declaration of variables declares what its declarators do.
pub proof fn law_variables(v: JsonV)
    requires
        type_is(v, "VariableDeclaration"@),
    ensures
        found(v, Role::Statement) == found_in_list(v, "declarations"@, Role::Declarator),
{
    broadcast use group_flat;

    lemma_type_names();
    lemma_flat_none();
    lemma_found(WorkV { role: Role::Statement, node: v });
}

/// Exporting a declaration of variables changes nothing.
pub proof fn law_exported_variables(v: JsonV)
    requires
        type_is(v, "ExportNamedDeclaration"@),
        type_is(child(v, "declaration"@), "VariableDeclaration"@),
    ensures
        found(v, Role::Statement) == found(child(v, "declaration"@), Role::Statement),
{
    broadcast use group_flat;

    lemma_type_names();
    lemma_flat_none();
    law_variables(child(v, "declaration"@));
    lemma_found(WorkV { role: Role::Statement, node: v });
}

/// A declarator with a plain name and an initialiser declares the name, and then what the initialiser
/// does.
pub proof fn law_declarator(v: JsonV)
    requires
        identifier(child(v, "id"@)) is Some,
        present(v, "init"@),
    ensures
        found(v, Role::Declarator) == seq![(identifier(child(v, "id"@))->0, child(v, "init"@))] + found(child(v, "init"@), Role::Expression),
{
    broadcast use group_flat;

    lemma_type_names();
    lemma_flat_none();
    lemma_found(WorkV { role: Role::Declarator, node: v });
}

/// Any other declarator declares what its initialiser does.
pub proof fn law_other_declarator(v: JsonV)
    requires
        identifier(child(v, "id"@)) is None || !present(v, "init"@),
    ensures
        found(v, Role::Declarator) == found_at(v, "init"@, Role::Expression),
{
    broadcast use group_flat;

    lemma_type_names();
    lemma_flat_none();
    lemma_found(WorkV { role: Role::Declarator, node: v });
}

/// A function declares what its statements do.
pub proof fn law_function(v: JsonV)
    requires
        (type_is(v, "ArrowFunctionExpression"@) && !flag(v, "expression"@)) || type_is(v, "FunctionExpression"@),
    ensures
        found(v, Role::Expression) == found_in_list(child(v, "body"@), "body"@, Role::Statement),
{
    broadcast use group_flat;

    lemma_type_names();
    lemma_flat_none();
    lemma_found(WorkV { role: Role::Expression, node: v });
}

/// No other expression declares anything.
pub proof fn law_other_expression(v: JsonV)
    requires
        !type_is(v, "FunctionExpression"@),
        !type_is(v, "ArrowFunctionExpression"@) || flag(v, "expression"@),
    ensures
        found(v, Role::Expression) == Seq::<(Seq<char>, JsonV)>::empty(),
{
    broadcast use group_flat;

    lemma_type_names();
    lemma_flat_none();
    lemma_found(WorkV { role: Role::Expression, node: v });
}

/// No other statement declares anything.
pub proof fn law_other_statement(v: JsonV)
    requires
        !type_is(v, "VariableDeclaration"@),
        !type_is(v, "ExportNamedDeclaration"@) || !type_is(child(v, "declaration"@), "VariableDeclaration"@),
    ensures
        found(v, Role::Statement) == Seq::<(Seq<char>, JsonV)>::empty(),
{
    broadcast use group_flat;

    lemma_type_names();
    lemma_flat_none();
    lemma_found(WorkV { role: Role::Statement, node: v });
}

/// The variables of some statements are those of each, in their order.
pub proof fn law_statements(body: Seq<JsonV>, n: nat)
    requires
        n <= body.len(),
    ensures
        local_exprs(body, n as int) == found_in(body, n, Role::Statement),
    decreases n,
{
    if n > 0 {
        law_statements(body, (n - 1) as nat);
    }
}

} // verus!
