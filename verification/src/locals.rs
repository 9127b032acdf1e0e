//! Local variables and the expressions that they are initialised with.

use crate::estree::{
    add_each, add_each_in, add_one, all_below, check_present, child, each, each_in, extent, flag,
    get_flag, get_identifier, group_below, has_type, identifier, is_type, none, node_models, one,
    present, type_is, works, Role, Work, WorkV,
};
use crate::json::{Json, JsonV};
use crate::lookup::{find_named, list_names, named, names_of};
use vstd::prelude::*;

verus! {

/// The models of named nodes.
pub open spec fn local_models(s: Seq<(String, &Json)>) -> Seq<(Seq<char>, JsonV)> {
    s.map_values(|e: (String, &Json)| (e.0@, e.1@))
}

/// What a statement leads to, in search of declarations.
pub open spec fn plan_statement(v: JsonV) -> Seq<WorkV> {
    if type_is(v, "VariableDeclaration"@) {
        none() + each(v, "declarations"@, Role::Declarator)
    } else if type_is(v, "ExportNamedDeclaration"@) && type_is(
        child(v, "declaration"@),
        "VariableDeclaration"@,
    ) {
        none() + each_in(v, "declaration"@, "declarations"@, Role::Declarator)
    } else {
        none()
    }
}

/// What the initialiser of a variable leads to: the statements of a function.
pub open spec fn plan_expression(v: JsonV) -> Seq<WorkV> {
    if (type_is(v, "ArrowFunctionExpression"@) && !flag(v, "expression"@)) || type_is(
        v,
        "FunctionExpression"@,
    ) {
        none() + each_in(v, "body"@, "body"@, Role::Statement)
    } else {
        none()
    }
}

/// What a piece of work leads to.
pub open spec fn plan(w: WorkV) -> Seq<WorkV> {
    match w.role {
        Role::Statement => plan_statement(w.node),
        Role::Declarator => none() + one(w.node, "init"@, Role::Expression),
        Role::Expression => plan_expression(w.node),
        _ => none(),
    }
}

/// The variable that a declarator declares, with its initialiser.
pub open spec fn own_local(w: WorkV) -> Seq<(Seq<char>, JsonV)> {
    match (w.role, identifier(child(w.node, "id"@))) {
        (Role::Declarator, Some(name)) => if present(w.node, "init"@) {
            seq![(name, child(w.node, "init"@))]
        } else {
            Seq::empty()
        },
        _ => Seq::empty(),
    }
}

/// The variables that a piece of work and all that it leads to declare, in order.
pub open spec fn locals_in(w: WorkV) -> Seq<(Seq<char>, JsonV)>
    decreases extent(w), 1nat, 0nat,
{
    own_local(w) + locals_of(plan(w), plan(w).len(), extent(w))
}

/// The variables of the first `n` pieces of work, each of which is smaller than `bound`.
pub open spec fn locals_of(ws: Seq<WorkV>, n: nat, bound: nat) -> Seq<(Seq<char>, JsonV)>
    decreases bound, 0nat, n,
{
    if n == 0 || n > ws.len() || extent(ws[n - 1]) >= bound {
        Seq::empty()
    } else {
        locals_of(ws, (n - 1) as nat, bound) + locals_in(ws[n - 1])
    }
}

pub proof fn lemma_plan_below(w: WorkV)
    ensures
        all_below(plan(w), extent(w)),
{
    broadcast use group_below;

}

/// The variables of the first `n` statements, and of the functions that they are initialised
/// with.
pub open spec fn local_exprs(body: Seq<JsonV>, n: int) -> Seq<(Seq<char>, JsonV)>
    decreases n,
{
    if n <= 0 || n > body.len() {
        Seq::empty()
    } else {
        local_exprs(body, n - 1) + locals_in(WorkV { role: Role::Statement, node: body[n - 1] })
    }
}

fn next_of<'a>(w: &Work<'a>) -> (out: Vec<Work<'a>>)
    ensures
        works(out@) == plan(w@),
{
    let node = w.node;
    let mut out: Vec<Work<'a>> = Vec::new();
    assert(works(out@) =~= none());
    match w.role {
        Role::Statement => {
            if is_type(node, "VariableDeclaration") {
                add_each(&mut out, node, "declarations", Role::Declarator);
            } else if is_type(node, "ExportNamedDeclaration") && has_type(
                node,
                "declaration",
                "VariableDeclaration",
            ) {
                add_each_in(&mut out, node, "declaration", "declarations", Role::Declarator);
            }
        },
        Role::Declarator => {
            add_one(&mut out, node, "init", Role::Expression);
        },
        Role::Expression => {
            if (is_type(node, "ArrowFunctionExpression") && !get_flag(node, "expression"))
                || is_type(node, "FunctionExpression") {
                add_each_in(&mut out, node, "body", "body", Role::Statement);
            }
        },
        _ => {},
    }
    out
}

fn add_own<'a>(map: &mut Vec<(String, &'a Json)>, w: &Work<'a>)
    ensures
        local_models(final(map)@) == local_models(old(map)@) + own_local(w@),
{
    if let Role::Declarator = w.role {
        if let Some(id) = w.node.get("id") {
            if let Some(name) = get_identifier(id) {
                if check_present(w.node, "init") {
                    if let Some(init) = w.node.get("init") {
                        map.push((name.to_owned(), init));
                    }
                }
            }
        }
    }
    assert(local_models(map@) =~= local_models(old(map)@) + own_local(w@));
}

fn collect<'a>(map: &mut Vec<(String, &'a Json)>, w: &Work<'a>)
    ensures
        local_models(final(map)@) == local_models(old(map)@) + locals_in(w@),
    decreases extent(w@),
{
    let ghost before = local_models(map@);
    add_own(map, w);
    let next = next_of(w);
    let ghost ws = plan(w@);
    let ghost own = before + own_local(w@);
    proof {
        lemma_plan_below(w@);
    }
    let mut i: usize = 0;
    assert(own + locals_of(ws, 0, extent(w@)) =~= own);
    while i < next.len()
        invariant
            i <= next@.len(),
            works(next@) == ws,
            all_below(ws, extent(w@)),
            local_models(map@) == own + locals_of(ws, i as nat, extent(w@)),
        decreases next.len() - i,
    {
        assert(ws[i as int] == next@[i as int]@);
        collect(map, &next[i]);
        i = i + 1;
        assert(local_models(map@) =~= own + locals_of(ws, i as nat, extent(w@)));
    }
    assert(local_models(map@) =~= before + locals_in(w@));
}

/// Build a map of all local variable declarations to their initializer expressions, including
/// those nested inside component bodies. Captures functions, objects, and any other expression
/// type.
pub fn build_local_expr_map<'a>(stmts: &Vec<&'a Json>) -> (map: Vec<(String, &'a Json)>)
    ensures
        local_models(map@) == local_exprs(node_models(stmts@), stmts@.len() as int),
{
    let mut map: Vec<(String, &'a Json)> = Vec::new();
    let ghost body = node_models(stmts@);
    assert(local_models(map@) =~= Seq::<(Seq<char>, JsonV)>::empty());
    let mut i: usize = 0;
    while i < stmts.len()
        invariant
            i <= stmts@.len(),
            body == node_models(stmts@),
            local_models(map@) == local_exprs(body, i as int),
        decreases stmts.len() - i,
    {
        assert(body[i as int] == stmts@[i as int]@);
        collect(&mut map, &Work { role: Role::Statement, node: stmts[i] });
        i = i + 1;
    }
    map
}

/// The expression that a variable is initialised with.
pub fn find_local<'a>(map: &Vec<(String, &'a Json)>, name: &str) -> (r: Option<&'a Json>)
    ensures
        match r {
            Some(x) => named(local_models(map@), name@) == Some(x@),
            None => named(local_models(map@), name@) is None,
        },
{
    assert(names_of(local_models(map@)) =~= list_names(map@));
    match find_named(map, name) {
        Some(i) => Some(map[i].1),
        None => None,
    }
}

} // verus!
