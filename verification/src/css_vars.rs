//! CSS variable reference scanning in JS/TS files.
//!
//! Finds string and template literals containing CSS custom property names
//! like `--pf-v5-global--Color--100`.

use crate::estree::{
    add_each, add_each_in, add_itself, add_one, add_one_in, all_below, check_computed_member,
    check_directive, check_function_declaration, check_static_member, child, child_is_function, each,
    each_in, extent, flag, get_flag, group_below, has_type, is_computed_member, is_directive,
    is_function_declaration, is_static_member, is_type, itself, none, one, one_in, type_is, works,
    Role, Work, WorkV,
};
use crate::incident::{append_incidents, incident_models, Incident, IncidentV};
use crate::json::{json_size, Json, JsonV};
use crate::pattern::regex_source;
use crate::scan::{all_match, lemma_own_match, own_hits, own_incidents, Scan};
use vstd::prelude::*;

verus! {

/// What a statement leads to.
pub open spec fn plan_statement(v: JsonV) -> Seq<WorkV> {
    if type_is(v, "ExportDefaultDeclaration"@) {
        if is_function_declaration(child(v, "declaration"@)) {
            none() + one(v, "declaration"@, Role::Statement)
        } else {
            none()
        }
    } else if type_is(v, "ExportNamedDeclaration"@) {
        if is_function_declaration(child(v, "declaration"@)) || type_is(
            child(v, "declaration"@),
            "VariableDeclaration"@,
        ) {
            none() + one(v, "declaration"@, Role::Statement)
        } else {
            none()
        }
    } else if is_function_declaration(v) {
        none() + one(v, "body"@, Role::Statement)
    } else if type_is(v, "VariableDeclaration"@) {
        none() + each(v, "declarations"@, Role::Declarator)
    } else if type_is(v, "ReturnStatement"@) || type_is(v, "ThrowStatement"@) {
        none() + one(v, "argument"@, Role::Expression)
    } else if is_directive(v) {
        none()
    } else if type_is(v, "ExpressionStatement"@) {
        none() + one(v, "expression"@, Role::Expression)
    } else if type_is(v, "BlockStatement"@) {
        none() + each(v, "body"@, Role::Statement)
    } else if type_is(v, "IfStatement"@) {
        none() + one(v, "test"@, Role::Expression) + one(v, "consequent"@, Role::Statement) + one(
            v,
            "alternate"@,
            Role::Statement,
        )
    } else if type_is(v, "ForStatement"@) {
        (if type_is(child(v, "init"@), "VariableDeclaration"@) {
            none() + one(v, "init"@, Role::Statement)
        } else {
            none() + one(v, "init"@, Role::Expression)
        }) + one(v, "test"@, Role::Expression) + one(v, "update"@, Role::Expression) + one(
            v,
            "body"@,
            Role::Statement,
        )
    } else if type_is(v, "ForInStatement"@) || type_is(v, "ForOfStatement"@) || type_is(
        v,
        "LabeledStatement"@,
    ) {
        none() + one(v, "body"@, Role::Statement)
    } else if type_is(v, "WhileStatement"@) || type_is(v, "DoWhileStatement"@) {
        none() + one(v, "test"@, Role::Expression) + one(v, "body"@, Role::Statement)
    } else if type_is(v, "SwitchStatement"@) {
        none() + one(v, "discriminant"@, Role::Expression) + each(v, "cases"@, Role::Case)
    } else if type_is(v, "TryStatement"@) {
        none() + one(v, "block"@, Role::Statement) + one_in(
            v,
            "handler"@,
            "body"@,
            Role::Statement,
        ) + one(v, "finalizer"@, Role::Statement)
    } else {
        none()
    }
}

/// What an expression leads to.
pub open spec fn plan_expression(v: JsonV) -> Seq<WorkV> {
    if type_is(v, "Literal"@) {
        none() + itself(v, Role::Literal)
    } else if type_is(v, "TemplateLiteral"@) {
        none() + each(v, "quasis"@, Role::QuasiMatches)
    } else if type_is(v, "JSXElement"@) {
        none() + itself(v, Role::Element)
    } else if type_is(v, "JSXFragment"@) {
        none() + each(v, "children"@, Role::Child)
    } else if type_is(v, "CallExpression"@) {
        none() + one(v, "callee"@, Role::Expression) + each(v, "arguments"@, Role::Expression)
    } else if type_is(v, "ArrowFunctionExpression"@) {
        if flag(v, "expression"@) {
            none() + one(v, "body"@, Role::Expression)
        } else {
            none() + one(v, "body"@, Role::Statement)
        }
    } else if type_is(v, "ConditionalExpression"@) {
        none() + one(v, "test"@, Role::Expression) + one(v, "consequent"@, Role::Expression) + one(
            v,
            "alternate"@,
            Role::Expression,
        )
    } else if type_is(v, "LogicalExpression"@) {
        none() + one(v, "left"@, Role::Expression) + one(v, "right"@, Role::Expression)
    } else if type_is(v, "ObjectExpression"@) {
        none() + each(v, "properties"@, Role::Property)
    } else if type_is(v, "ArrayExpression"@) {
        none() + each(v, "elements"@, Role::Expression)
    } else if type_is(v, "ParenthesizedExpression"@) || type_is(v, "TSAsExpression"@) || type_is(
        v,
        "TSSatisfiesExpression"@,
    ) || type_is(v, "TSNonNullExpression"@) || type_is(v, "TSTypeAssertion"@) {
        none() + one(v, "expression"@, Role::Expression)
    } else if type_is(v, "ChainExpression"@) {
        none() + one(v, "expression"@, Role::Chain)
    } else if type_is(v, "AwaitExpression"@) || type_is(v, "YieldExpression"@) {
        none() + one(v, "argument"@, Role::Expression)
    } else if type_is(v, "SequenceExpression"@) {
        none() + each(v, "expressions"@, Role::Expression)
    } else if type_is(v, "AssignmentExpression"@) {
        none() + one(v, "right"@, Role::Expression)
    } else if type_is(v, "NewExpression"@) {
        none() + each(v, "arguments"@, Role::Expression)
    } else if type_is(v, "TaggedTemplateExpression"@) {
        none() + each_in(v, "quasi"@, "quasis"@, Role::QuasiMatches)
    } else if is_static_member(v) {
        none() + one(v, "object"@, Role::Expression)
    } else if is_computed_member(v) {
        none() + one(v, "object"@, Role::Expression) + one(v, "property"@, Role::Expression)
    } else {
        none()
    }
}

/// What the inside of an optional chain leads to.
pub open spec fn plan_chain(v: JsonV) -> Seq<WorkV> {
    if type_is(v, "CallExpression"@) {
        none() + one(v, "callee"@, Role::Expression) + each(v, "arguments"@, Role::Expression)
    } else if is_computed_member(v) {
        none() + one(v, "object"@, Role::Expression) + one(v, "property"@, Role::Expression)
    } else if type_is(v, "MemberExpression"@) {
        none() + one(v, "object"@, Role::Expression)
    } else if type_is(v, "TSNonNullExpression"@) {
        none() + one(v, "expression"@, Role::Expression)
    } else {
        none()
    }
}

/// What a property of an object leads to: its key, where that is a text, and its value.
pub open spec fn plan_property(v: JsonV) -> Seq<WorkV> {
    if type_is(v, "Property"@) {
        (if type_is(child(v, "key"@), "Literal"@) {
            none() + one(v, "key"@, Role::Literal)
        } else if flag(v, "computed"@) && type_is(child(v, "key"@), "TSAsExpression"@) {
            none() + one_in(v, "key"@, "expression"@, Role::Literal)
        } else if flag(v, "computed"@) && type_is(child(v, "key"@), "TemplateLiteral"@) {
            none() + each_in(v, "key"@, "quasis"@, Role::Quasi)
        } else {
            none()
        }) + one(v, "value"@, Role::Expression)
    } else if type_is(v, "SpreadElement"@) {
        none() + one(v, "argument"@, Role::Expression)
    } else {
        none()
    }
}

/// What an attribute leads to.
pub open spec fn plan_attribute(v: JsonV) -> Seq<WorkV> {
    if type_is(v, "JSXAttribute"@) {
        if type_is(child(v, "value"@), "Literal"@) {
            none() + one(v, "value"@, Role::Literal)
        } else if type_is(child(v, "value"@), "JSXExpressionContainer"@) {
            none() + one_in(v, "value"@, "expression"@, Role::Expression)
        } else {
            none()
        }
    } else {
        none()
    }
}

/// What a JSX child leads to.
pub open spec fn plan_child(v: JsonV) -> Seq<WorkV> {
    if type_is(v, "JSXElement"@) {
        none() + itself(v, Role::Element)
    } else if type_is(v, "JSXFragment"@) {
        none() + each(v, "children"@, Role::Child)
    } else if type_is(v, "JSXExpressionContainer"@) {
        none() + one(v, "expression"@, Role::Expression)
    } else {
        none()
    }
}

/// What a piece of work leads to.
pub open spec fn plan(w: WorkV) -> Seq<WorkV> {
    match w.role {
        Role::Statement => plan_statement(w.node),
        Role::Expression => plan_expression(w.node),
        Role::Chain => plan_chain(w.node),
        Role::Case => none() + one(w.node, "test"@, Role::Expression) + each(
            w.node,
            "consequent"@,
            Role::Statement,
        ),
        Role::Declarator => none() + one(w.node, "init"@, Role::Expression),
        Role::Property => plan_property(w.node),
        Role::Element => none() + each_in(
            w.node,
            "openingElement"@,
            "attributes"@,
            Role::Attribute,
        ) + each(w.node, "children"@, Role::Child),
        Role::Attribute => plan_attribute(w.node),
        Role::Child => plan_child(w.node),
        _ => none(),
    }
}

/// The incidents of a piece of work and of all that it leads to, in order.
pub open spec fn hits(w: WorkV, scan: Scan) -> Seq<IncidentV>
    decreases extent(w), 1nat, 0nat,
{
    own_hits(w, scan) + hits_of(plan(w), plan(w).len(), extent(w), scan)
}

/// The incidents of the first `n` pieces of work, each of which is smaller than `bound`.
pub open spec fn hits_of(ws: Seq<WorkV>, n: nat, bound: nat, scan: Scan) -> Seq<IncidentV>
    decreases bound, 0nat, n,
{
    if n == 0 || n > ws.len() || extent(ws[n - 1]) >= bound {
        Seq::empty()
    } else {
        hits_of(ws, (n - 1) as nat, bound, scan) + hits(ws[n - 1], scan)
    }
}

proof fn lemma_statement_below(v: JsonV)
    ensures
        all_below(plan_statement(v), json_size(v) * 2 + 1),
{
    broadcast use group_below;

}

proof fn lemma_expression_below(v: JsonV)
    ensures
        all_below(plan_expression(v), json_size(v) * 2 + 1),
{
    broadcast use group_below;

}

/// Whatever a piece of work leads to is smaller.
pub proof fn lemma_plan_below(w: WorkV)
    ensures
        all_below(plan(w), extent(w)),
{
    broadcast use group_below;

    match w.role {
        Role::Statement => lemma_statement_below(w.node),
        Role::Expression => lemma_expression_below(w.node),
        _ => {},
    }
}

/// What a statement leads to.
fn next_of_statement<'a>(node: &'a Json) -> (out: Vec<Work<'a>>)
    ensures
        works(out@) == plan_statement(node@),
{
    let mut out: Vec<Work<'a>> = Vec::new();
    assert(works(out@) =~= none());
    if is_type(node, "ExportDefaultDeclaration") {
        if child_is_function(node, "declaration") {
            add_one(&mut out, node, "declaration", Role::Statement);
        }
    } else if is_type(node, "ExportNamedDeclaration") {
        if child_is_function(node, "declaration")
            || has_type(node, "declaration", "VariableDeclaration")
        {
            add_one(&mut out, node, "declaration", Role::Statement);
        }
    } else if check_function_declaration(node) {
        add_one(&mut out, node, "body", Role::Statement);
    } else if is_type(node, "VariableDeclaration") {
        add_each(&mut out, node, "declarations", Role::Declarator);
    } else if is_type(node, "ReturnStatement") || is_type(node, "ThrowStatement") {
        add_one(&mut out, node, "argument", Role::Expression);
    } else if check_directive(node) {
    } else if is_type(node, "ExpressionStatement") {
        add_one(&mut out, node, "expression", Role::Expression);
    } else if is_type(node, "BlockStatement") {
        add_each(&mut out, node, "body", Role::Statement);
    } else if is_type(node, "IfStatement") {
        add_one(&mut out, node, "test", Role::Expression);
        add_one(&mut out, node, "consequent", Role::Statement);
        add_one(&mut out, node, "alternate", Role::Statement);
    } else if is_type(node, "ForStatement") {
        if has_type(node, "init", "VariableDeclaration") {
            add_one(&mut out, node, "init", Role::Statement);
        } else {
            add_one(&mut out, node, "init", Role::Expression);
        }
        add_one(&mut out, node, "test", Role::Expression);
        add_one(&mut out, node, "update", Role::Expression);
        add_one(&mut out, node, "body", Role::Statement);
    } else if is_type(node, "ForInStatement")
        || is_type(node, "ForOfStatement")
        || is_type(node, "LabeledStatement")
    {
        add_one(&mut out, node, "body", Role::Statement);
    } else if is_type(node, "WhileStatement") || is_type(node, "DoWhileStatement") {
        add_one(&mut out, node, "test", Role::Expression);
        add_one(&mut out, node, "body", Role::Statement);
    } else if is_type(node, "SwitchStatement") {
        add_one(&mut out, node, "discriminant", Role::Expression);
        add_each(&mut out, node, "cases", Role::Case);
    } else if is_type(node, "TryStatement") {
        add_one(&mut out, node, "block", Role::Statement);
        add_one_in(&mut out, node, "handler", "body", Role::Statement);
        add_one(&mut out, node, "finalizer", Role::Statement);
    }
    out
}

/// What an expression leads to.
fn next_of_expression<'a>(node: &'a Json) -> (out: Vec<Work<'a>>)
    ensures
        works(out@) == plan_expression(node@),
{
    let mut out: Vec<Work<'a>> = Vec::new();
    assert(works(out@) =~= none());
    if is_type(node, "Literal") {
        add_itself(&mut out, node, Role::Literal);
    } else if is_type(node, "TemplateLiteral") {
        add_each(&mut out, node, "quasis", Role::QuasiMatches);
    } else if is_type(node, "JSXElement") {
        add_itself(&mut out, node, Role::Element);
    } else if is_type(node, "JSXFragment") {
        add_each(&mut out, node, "children", Role::Child);
    } else if is_type(node, "CallExpression") {
        add_one(&mut out, node, "callee", Role::Expression);
        add_each(&mut out, node, "arguments", Role::Expression);
    } else if is_type(node, "ArrowFunctionExpression") {
        if get_flag(node, "expression") {
            add_one(&mut out, node, "body", Role::Expression);
        } else {
            add_one(&mut out, node, "body", Role::Statement);
        }
    } else if is_type(node, "ConditionalExpression") {
        add_one(&mut out, node, "test", Role::Expression);
        add_one(&mut out, node, "consequent", Role::Expression);
        add_one(&mut out, node, "alternate", Role::Expression);
    } else if is_type(node, "LogicalExpression") {
        add_one(&mut out, node, "left", Role::Expression);
        add_one(&mut out, node, "right", Role::Expression);
    } else if is_type(node, "ObjectExpression") {
        add_each(&mut out, node, "properties", Role::Property);
    } else if is_type(node, "ArrayExpression") {
        add_each(&mut out, node, "elements", Role::Expression);
    } else if is_type(node, "ParenthesizedExpression")
        || is_type(node, "TSAsExpression")
        || is_type(node, "TSSatisfiesExpression")
        || is_type(node, "TSNonNullExpression")
        || is_type(node, "TSTypeAssertion")
    {
        add_one(&mut out, node, "expression", Role::Expression);
    } else if is_type(node, "ChainExpression") {
        add_one(&mut out, node, "expression", Role::Chain);
    } else if is_type(node, "AwaitExpression") || is_type(node, "YieldExpression") {
        add_one(&mut out, node, "argument", Role::Expression);
    } else if is_type(node, "SequenceExpression") {
        add_each(&mut out, node, "expressions", Role::Expression);
    } else if is_type(node, "AssignmentExpression") {
        add_one(&mut out, node, "right", Role::Expression);
    } else if is_type(node, "NewExpression") {
        add_each(&mut out, node, "arguments", Role::Expression);
    } else if is_type(node, "TaggedTemplateExpression") {
        add_each_in(&mut out, node, "quasi", "quasis", Role::QuasiMatches);
    } else if check_static_member(node) {
        add_one(&mut out, node, "object", Role::Expression);
    } else if check_computed_member(node) {
        add_one(&mut out, node, "object", Role::Expression);
        add_one(&mut out, node, "property", Role::Expression);
    }
    out
}

/// What the inside of an optional chain leads to.
fn next_of_chain<'a>(node: &'a Json) -> (out: Vec<Work<'a>>)
    ensures
        works(out@) == plan_chain(node@),
{
    let mut out: Vec<Work<'a>> = Vec::new();
    assert(works(out@) =~= none());
    if is_type(node, "CallExpression") {
        add_one(&mut out, node, "callee", Role::Expression);
        add_each(&mut out, node, "arguments", Role::Expression);
    } else if check_computed_member(node) {
        add_one(&mut out, node, "object", Role::Expression);
        add_one(&mut out, node, "property", Role::Expression);
    } else if is_type(node, "MemberExpression") {
        add_one(&mut out, node, "object", Role::Expression);
    } else if is_type(node, "TSNonNullExpression") {
        add_one(&mut out, node, "expression", Role::Expression);
    }
    out
}

/// What a property of an object leads to.
fn next_of_property<'a>(node: &'a Json) -> (out: Vec<Work<'a>>)
    ensures
        works(out@) == plan_property(node@),
{
    let mut out: Vec<Work<'a>> = Vec::new();
    assert(works(out@) =~= none());
    if is_type(node, "Property") {
        if has_type(node, "key", "Literal") {
            add_one(&mut out, node, "key", Role::Literal);
        } else if get_flag(node, "computed") && has_type(node, "key", "TSAsExpression") {
            add_one_in(&mut out, node, "key", "expression", Role::Literal);
        } else if get_flag(node, "computed") && has_type(node, "key", "TemplateLiteral") {
            add_each_in(&mut out, node, "key", "quasis", Role::Quasi);
        }
        add_one(&mut out, node, "value", Role::Expression);
    } else if is_type(node, "SpreadElement") {
        add_one(&mut out, node, "argument", Role::Expression);
    }
    out
}

/// What an attribute leads to.
fn next_of_attribute<'a>(node: &'a Json) -> (out: Vec<Work<'a>>)
    ensures
        works(out@) == plan_attribute(node@),
{
    let mut out: Vec<Work<'a>> = Vec::new();
    assert(works(out@) =~= none());
    if is_type(node, "JSXAttribute") {
        if has_type(node, "value", "Literal") {
            add_one(&mut out, node, "value", Role::Literal);
        } else if has_type(node, "value", "JSXExpressionContainer") {
            add_one_in(&mut out, node, "value", "expression", Role::Expression);
        }
    }
    out
}

/// What a JSX child leads to.
fn next_of_child<'a>(node: &'a Json) -> (out: Vec<Work<'a>>)
    ensures
        works(out@) == plan_child(node@),
{
    let mut out: Vec<Work<'a>> = Vec::new();
    assert(works(out@) =~= none());
    if is_type(node, "JSXElement") {
        add_itself(&mut out, node, Role::Element);
    } else if is_type(node, "JSXFragment") {
        add_each(&mut out, node, "children", Role::Child);
    } else if is_type(node, "JSXExpressionContainer") {
        add_one(&mut out, node, "expression", Role::Expression);
    }
    out
}

/// What a piece of work leads to.
fn next_of<'a>(w: &Work<'a>) -> (out: Vec<Work<'a>>)
    ensures
        works(out@) == plan(w@),
{
    let node = w.node;
    let mut out: Vec<Work<'a>> = Vec::new();
    assert(works(out@) =~= none());
    match w.role {
        Role::Statement => return next_of_statement(node),
        Role::Expression => return next_of_expression(node),
        Role::Chain => return next_of_chain(node),
        Role::Case => {
            add_one(&mut out, node, "test", Role::Expression);
            add_each(&mut out, node, "consequent", Role::Statement);
        },
        Role::Declarator => {
            add_one(&mut out, node, "init", Role::Expression);
        },
        Role::Property => return next_of_property(node),
        Role::Element => {
            add_each_in(&mut out, node, "openingElement", "attributes", Role::Attribute);
            add_each(&mut out, node, "children", Role::Child);
        },
        Role::Attribute => return next_of_attribute(node),
        Role::Child => return next_of_child(node),
        _ => {},
    }
    out
}

/// The incidents of a piece of work and of all that it leads to.
fn walk(
    w: &Work<'_>,
    source: &str,
    pattern: &regex::Regex,
    file_uri: &str,
    Ghost(scan): Ghost<Scan>,
) -> (out: Vec<Incident>)
    requires
        scan == (Scan { source: source@, pattern: regex_source(*pattern), file_uri: file_uri@ }),
    ensures
        incident_models(out@) == hits(w@, scan),
    decreases extent(w@),
{
    let mut out = own_incidents(w, source, pattern, file_uri, Ghost(scan));
    let next = next_of(w);
    let ghost ws = plan(w@);
    let ghost own = own_hits(w@, scan);
    proof {
        lemma_plan_below(w@);
    }
    let mut i: usize = 0;
    assert(own + hits_of(ws, 0, extent(w@), scan) =~= own);
    while i < next.len()
        invariant
            scan == (Scan { source: source@, pattern: regex_source(*pattern), file_uri: file_uri@ }),
            i <= next@.len(),
            works(next@) == ws,
            all_below(ws, extent(w@)),
            incident_models(out@) == own + hits_of(ws, i as nat, extent(w@), scan),
        decreases next.len() - i,
    {
        assert(ws[i as int] == next@[i as int]@);
        let mut more = walk(&next[i], source, pattern, file_uri, Ghost(scan));
        append_incidents(&mut out, &mut more);
        i = i + 1;
        assert(incident_models(out@) =~= own + hits_of(ws, i as nat, extent(w@), scan));
    }
    out
}

/// Scan a statement for CSS variable references.
pub fn scan_css_var_usage(
    stmt: &Json,
    source: &str,
    pattern: &regex::Regex,
    file_uri: &str,
) -> (out: Vec<Incident>)
    ensures
        incident_models(out@) == hits(
            WorkV { role: Role::Statement, node: stmt@ },
            Scan { source: source@, pattern: regex_source(*pattern), file_uri: file_uri@ },
        ),
{
    walk(
        &Work { role: Role::Statement, node: stmt },
        source,
        pattern,
        file_uri,
        Ghost(Scan { source: source@, pattern: regex_source(*pattern), file_uri: file_uri@ }),
    )
}

proof fn lemma_hits_of_match(ws: Seq<WorkV>, n: nat, bound: nat, scan: Scan)
    ensures
        all_match(hits_of(ws, n, bound, scan), "matchingText"@, scan),
    decreases bound, 0nat, n,
{
    if !(n == 0 || n > ws.len() || extent(ws[n - 1]) >= bound) {
        lemma_hits_of_match(ws, (n - 1) as nat, bound, scan);
        law_hits_match(ws[n - 1], scan);
        assert(hits_of(ws, n, bound, scan) == hits_of(ws, (n - 1) as nat, bound, scan) + hits(
            ws[n - 1],
            scan,
        ));
    }
}

/// Whatever is reported lies in the file and names a text that matches the pattern.
pub proof fn law_hits_match(w: WorkV, scan: Scan)
    ensures
        all_match(hits(w, scan), "matchingText"@, scan),
    decreases extent(w), 1nat, 0nat,
{
    lemma_own_match(w, scan);
    lemma_hits_of_match(plan(w), plan(w).len(), extent(w), scan);
}

} // verus!
