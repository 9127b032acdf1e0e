//! Function call scanning.
//!
//! Finds function and hook calls like `useToolbar()`, `React.createElement(...)`.

use crate::estree::{
    add_each, add_itself, add_one, all_below, check_directive, check_function_declaration,
    check_static_member, child, child_is_function, each, extent, flag, get_flag, get_number, get_text,
    group_below, has_type, is_directive, is_function_declaration, is_static_member, is_type, itself,
    none, number_field, one, text_field, type_is, works, Role, Work, WorkV,
};
use crate::incident::{append_incidents, incident_models, push_incident, Incident, IncidentV};
use crate::json::{field, json_size, lemma_field_smaller, Json, JsonV};
use crate::pattern::regex_source;
use crate::scan::{all_match, Scan};
use crate::scanner::{incident_at, make_incident};
use crate::text::concat3;
use vstd::prelude::*;

verus! {

/// The dotted name of what is called, such as `React.createElement`.
pub open spec fn callee_name(v: JsonV) -> Option<Seq<char>>
    decreases json_size(v),
{
    if type_is(v, "Identifier"@) {
        text_field(v, "name"@)
    } else if is_static_member(v) && field(v, "object"@) is Some {
        proof {
            lemma_field_smaller(v, "object"@);
        }
        match (callee_name(child(v, "object"@)), text_field(child(v, "property"@), "name"@)) {
            (Some(object), Some(property)) => Some(object + "."@ + property),
            _ => None,
        }
    } else {
        None
    }
}

/// The incident for a call, where the name of what is called matches.
pub open spec fn call_hits(v: JsonV, scan: Scan) -> Seq<IncidentV> {
    let callee = child(v, "callee"@);
    match callee_name(callee) {
        Some(name) => if scan.accepts(name) {
            seq![
                incident_at(
                    scan.source,
                    scan.file_uri,
                    number_field(callee, "start"@),
                    number_field(callee, "end"@),
                ).with_text("functionName"@, name),
            ]
        } else {
            Seq::empty()
        },
        None => Seq::empty(),
    }
}

/// What a statement leads to.
pub open spec fn plan_statement(v: JsonV) -> Seq<WorkV> {
    if is_directive(v) {
        none()
    } else if type_is(v, "ExpressionStatement"@) {
        none() + one(v, "expression"@, Role::Expression)
    } else if type_is(v, "VariableDeclaration"@) {
        none() + each(v, "declarations"@, Role::Declarator)
    } else if type_is(v, "ReturnStatement"@) {
        none() + one(v, "argument"@, Role::Expression)
    } else if type_is(v, "ExportDefaultDeclaration"@) {
        if is_function_declaration(child(v, "declaration"@)) {
            none() + one(v, "declaration"@, Role::Statement)
        } else {
            none()
        }
    } else if type_is(v, "ExportNamedDeclaration"@) {
        if is_function_declaration(child(v, "declaration"@)) || type_is(
            child(v, "declaration"@),
            "VariableDeclaration"@,
        ) {
            none() + one(v, "declaration"@, Role::Statement)
        } else {
            none()
        }
    } else if is_function_declaration(v) {
        none() + one(v, "body"@, Role::Statement)
    } else if type_is(v, "BlockStatement"@) {
        none() + each(v, "body"@, Role::Statement)
    } else if type_is(v, "IfStatement"@) {
        none() + one(v, "consequent"@, Role::Statement) + one(v, "alternate"@, Role::Statement)
    } else {
        none()
    }
}

/// What an expression leads to.
pub open spec fn plan_expression(v: JsonV) -> Seq<WorkV> {
    if type_is(v, "CallExpression"@) {
        none() + itself(v, Role::Call) + each(v, "arguments"@, Role::Expression)
    } else if type_is(v, "ArrowFunctionExpression"@) {
        if flag(v, "expression"@) {
            none() + one(v, "body"@, Role::Expression)
        } else {
            none() + one(v, "body"@, Role::Statement)
        }
    } else if type_is(v, "ParenthesizedExpression"@) {
        none() + one(v, "expression"@, Role::Expression)
    } else if type_is(v, "ConditionalExpression"@) {
        none() + one(v, "consequent"@, Role::Expression) + one(v, "alternate"@, Role::Expression)
    } else {
        none()
    }
}

/// What a piece of work leads to.
pub open spec fn plan(w: WorkV) -> Seq<WorkV> {
    match w.role {
        Role::Statement => plan_statement(w.node),
        Role::Expression => plan_expression(w.node),
        Role::Declarator => none() + one(w.node, "init"@, Role::Expression),
        _ => none(),
    }
}

/// The incidents that a piece of work yields by itself.
pub open spec fn own_hits(w: WorkV, scan: Scan) -> Seq<IncidentV> {
    match w.role {
        Role::Call => call_hits(w.node, scan),
        _ => Seq::empty(),
    }
}

/// The incidents of a piece of work and of all that it leads to, in order.
pub open spec fn hits(w: WorkV, scan: Scan) -> Seq<IncidentV>
    decreases extent(w), 1nat, 0nat,
{
    own_hits(w, scan) + hits_of(plan(w), plan(w).len(), extent(w), scan)
}

/// The incidents of the first `n` pieces of work, each of which is smaller than `bound`.
pub open spec fn hits_of(ws: Seq<WorkV>, n: nat, bound: nat, scan: Scan) -> Seq<IncidentV>
    decreases bound, 0nat, n,
{
    if n == 0 || n > ws.len() || extent(ws[n - 1]) >= bound {
        Seq::empty()
    } else {
        hits_of(ws, (n - 1) as nat, bound, scan) + hits(ws[n - 1], scan)
    }
}

/// Whatever a piece of work leads to is smaller.
pub proof fn lemma_plan_below(w: WorkV)
    ensures
        all_below(plan(w), extent(w)),
{
    broadcast use group_below;

}

/// What a statement leads to.
fn next_of_statement<'a>(node: &'a Json) -> (out: Vec<Work<'a>>)
    ensures
        works(out@) == plan_statement(node@),
{
    let mut out: Vec<Work<'a>> = Vec::new();
    assert(works(out@) =~= none());
    if check_directive(node) {
    } else if is_type(node, "ExpressionStatement") {
        add_one(&mut out, node, "expression", Role::Expression);
    } else if is_type(node, "VariableDeclaration") {
        add_each(&mut out, node, "declarations", Role::Declarator);
    } else if is_type(node, "ReturnStatement") {
        add_one(&mut out, node, "argument", Role::Expression);
    } else if is_type(node, "ExportDefaultDeclaration") {
        if child_is_function(node, "declaration") {
            add_one(&mut out, node, "declaration", Role::Statement);
        }
    } else if is_type(node, "ExportNamedDeclaration") {
        if child_is_function(node, "declaration") || has_type(node, "declaration", "VariableDeclaration") {
            add_one(&mut out, node, "declaration", Role::Statement);
        }
    } else if check_function_declaration(node) {
        add_one(&mut out, node, "body", Role::Statement);
    } else if is_type(node, "BlockStatement") {
        add_each(&mut out, node, "body", Role::Statement);
    } else if is_type(node, "IfStatement") {
        add_one(&mut out, node, "consequent", Role::Statement);
        add_one(&mut out, node, "alternate", Role::Statement);
    }
    out
}

/// What an expression leads to.
fn next_of_expression<'a>(node: &'a Json) -> (out: Vec<Work<'a>>)
    ensures
        works(out@) == plan_expression(node@),
{
    let mut out: Vec<Work<'a>> = Vec::new();
    assert(works(out@) =~= none());
    if is_type(node, "CallExpression") {
        add_itself(&mut out, node, Role::Call);
        add_each(&mut out, node, "arguments", Role::Expression);
    } else if is_type(node, "ArrowFunctionExpression") {
        if get_flag(node, "expression") {
            add_one(&mut out, node, "body", Role::Expression);
        } else {
            add_one(&mut out, node, "body", Role::Statement);
        }
    } else if is_type(node, "ParenthesizedExpression") {
        add_one(&mut out, node, "expression", Role::Expression);
    } else if is_type(node, "ConditionalExpression") {
        add_one(&mut out, node, "consequent", Role::Expression);
        add_one(&mut out, node, "alternate", Role::Expression);
    }
    out
}

/// The dotted name of what is called.
fn callee_to_string(callee: &Json) -> (r: Option<String>)
    ensures
        match r {
            Some(s) => callee_name(callee@) == Some(s@),
            None => callee_name(callee@) is None,
        },
    decreases json_size(callee@),
{
    if is_type(callee, "Identifier") {
        match get_text(callee, "name") {
            Some(s) => Some(s.to_owned()),
            None => None,
        }
    } else if check_static_member(callee) {
        match callee.get("object") {
            Some(object) => {
                proof {
                    lemma_field_smaller(callee@, "object"@);
                }
                match callee_to_string(object) {
                    Some(left) => match callee.get("property") {
                        Some(property) => match get_text(property, "name") {
                            Some(right) => Some(concat3(left.as_str(), ".", right)),
                            None => None,
                        },
                        None => None,
                    },
                    None => None,
                }
            },
            None => None,
        }
    } else {
        None
    }
}

/// What a piece of work leads to.
fn next_of<'a>(w: &Work<'a>) -> (out: Vec<Work<'a>>)
    ensures
        works(out@) == plan(w@),
{
    let node = w.node;
    let mut out: Vec<Work<'a>> = Vec::new();
    assert(works(out@) =~= none());
    match w.role {
        Role::Statement => return next_of_statement(node),
        Role::Expression => return next_of_expression(node),
        Role::Declarator => {
            add_one(&mut out, node, "init", Role::Expression);
        },
        _ => {},
    }
    out
}

/// The incidents that a piece of work yields by itself.
fn own_incidents(
    w: &Work<'_>,
    source: &str,
    pattern: &regex::Regex,
    file_uri: &str,
    Ghost(scan): Ghost<Scan>,
) -> (out: Vec<Incident>)
    requires
        scan == (Scan { source: source@, pattern: regex_source(*pattern), file_uri: file_uri@ }),
    ensures
        incident_models(out@) == own_hits(w@, scan),
{
    let mut out: Vec<Incident> = Vec::new();
    assert(incident_models(out@) =~= Seq::<IncidentV>::empty());
    match w.role {
        Role::Call => {
            if let Some(callee) = w.node.get("callee") {
                if let Some(name) = callee_to_string(callee) {
                    if pattern.is_match(name.as_str()) {
                        let mut incident = make_incident(
                            source,
                            file_uri,
                            get_number(callee, "start"),
                            get_number(callee, "end"),
                        );
                        incident.set_text("functionName", name.as_str());
                        push_incident(&mut out, incident);
                        assert(incident_models(out@) =~= call_hits(w.node@, scan));
                    }
                }
            }
        },
        _ => {},
    }
    out
}

/// The incidents of a piece of work and of all that it leads to.
fn walk(
    w: &Work<'_>,
    source: &str,
    pattern: &regex::Regex,
    file_uri: &str,
    Ghost(scan): Ghost<Scan>,
) -> (out: Vec<Incident>)
    requires
        scan == (Scan { source: source@, pattern: regex_source(*pattern), file_uri: file_uri@ }),
    ensures
        incident_models(out@) == hits(w@, scan),
    decreases extent(w@),
{
    let mut out = own_incidents(w, source, pattern, file_uri, Ghost(scan));
    let next = next_of(w);
    let ghost ws = plan(w@);
    let ghost own = own_hits(w@, scan);
    proof {
        lemma_plan_below(w@);
    }
    let mut i: usize = 0;
    assert(own + hits_of(ws, 0, extent(w@), scan) =~= own);
    while i < next.len()
        invariant
            scan == (Scan { source: source@, pattern: regex_source(*pattern), file_uri: file_uri@ }),
            i <= next@.len(),
            works(next@) == ws,
            all_below(ws, extent(w@)),
            incident_models(out@) == own + hits_of(ws, i as nat, extent(w@), scan),
        decreases next.len() - i,
    {
        assert(ws[i as int] == next@[i as int]@);
        let mut more = walk(&next[i], source, pattern, file_uri, Ghost(scan));
        append_incidents(&mut out, &mut more);
        i = i + 1;
        assert(incident_models(out@) =~= own + hits_of(ws, i as nat, extent(w@), scan));
    }
    out
}

/// Scan a statement for function call matches.
pub fn scan_function_calls(
    stmt: &Json,
    source: &str,
    pattern: &regex::Regex,
    file_uri: &str,
) -> (out: Vec<Incident>)
    ensures
        incident_models(out@) == hits(
            WorkV { role: Role::Statement, node: stmt@ },
            Scan { source: source@, pattern: regex_source(*pattern), file_uri: file_uri@ },
        ),
{
    walk(
        &Work { role: Role::Statement, node: stmt },
        source,
        pattern,
        file_uri,
        Ghost(Scan { source: source@, pattern: regex_source(*pattern), file_uri: file_uri@ }),
    )
}

proof fn lemma_hits_of_match(ws: Seq<WorkV>, n: nat, bound: nat, scan: Scan)
    ensures
        all_match(hits_of(ws, n, bound, scan), "functionName"@, scan),
    decreases bound, 0nat, n,
{
    if !(n == 0 || n > ws.len() || extent(ws[n - 1]) >= bound) {
        lemma_hits_of_match(ws, (n - 1) as nat, bound, scan);
        law_hits_match(ws[n - 1], scan);
        assert(hits_of(ws, n, bound, scan) == hits_of(ws, (n - 1) as nat, bound, scan) + hits(
            ws[n - 1],
            scan,
        ));
    }
}

/// Whatever is reported lies in the file and names a function whose name matches the pattern.
pub proof fn law_hits_match(w: WorkV, scan: Scan)
    ensures
        all_match(hits(w, scan), "functionName"@, scan),
    decreases extent(w), 1nat, 0nat,
{
    lemma_hits_of_match(plan(w), plan(w).len(), extent(w), scan);
}

} // verus!
