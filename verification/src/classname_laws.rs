//! What a scan for class names finds in each kind of node, by what it finds in the parts of the node.

use crate::classnames::{hits, hits_of, is_class_attribute, lemma_plan_below, plan};
use crate::estree::{
    all_below, child, children, each, each_in, extent, flag, is_computed_member,
    is_function_declaration, is_static_member, itself, none, number_field, one, one_in, quasi_end,
    quasi_start, text_field, type_is, Role, WorkV,
};
use crate::incident::IncidentV;
use crate::json::{field, JsonV};
use crate::scan::{own_hits, Scan};
use crate::type_names::lemma_type_names;
use vstd::prelude::*;

verus! {

/// What is found in a node that is looked at in a role.
pub open spec fn found(v: JsonV, role: Role, scan: Scan) -> Seq<IncidentV> {
    hits(WorkV { role, node: v }, scan)
}

/// What is found in the node in a field, if there is one.
pub open spec fn found_at(v: JsonV, key: Seq<char>, role: Role, scan: Scan) -> Seq<IncidentV> {
    match field(v, key) {
        Some(x) => found(x, role, scan),
        None => Seq::empty(),
    }
}

/// What is found in the first `n` of some nodes, in their order.
pub open spec fn found_in(nodes: Seq<JsonV>, n: nat, role: Role, scan: Scan) -> Seq<IncidentV>
    decreases n,
{
    if n == 0 || n > nodes.len() {
        Seq::empty()
    } else {
        found_in(nodes, (n - 1) as nat, role, scan) + found(nodes[n - 1], role, scan)
    }
}

/// What is found in all the nodes of a list field, in their order.
pub open spec fn found_in_list(v: JsonV, key: Seq<char>, role: Role, scan: Scan) -> Seq<IncidentV> {
    found_in(children(v, key), children(v, key).len(), role, scan)
}

/// What is found in pieces of work, in their order.
spec fn flat(ws: Seq<WorkV>, scan: Scan) -> Seq<IncidentV>
    decreases ws.len(),
{
    if ws.len() == 0 {
        Seq::empty()
    } else {
        flat(ws.drop_last(), scan) + hits(ws.last(), scan)
    }
}

proof fn lemma_flat_of(ws: Seq<WorkV>, n: nat, bound: nat, scan: Scan)
    requires
        n <= ws.len(),
        all_below(ws, bound),
    ensures
        hits_of(ws, n, bound, scan) == flat(ws.take(n as int), scan),
    decreases n,
{
    if n > 0 {
        lemma_flat_of(ws, (n - 1) as nat, bound, scan);
        let now = ws.take(n as int);
        assert(now.drop_last() =~= ws.take(n - 1));
        assert(now.last() == ws[n - 1]);
    }
}

/// What is found in a piece of work: what it yields itself, and what it leads to yields.
proof fn lemma_found(w: WorkV, scan: Scan)
    ensures
        hits(w, scan) == own_hits(w, scan) + flat(plan(w), scan),
{
    lemma_plan_below(w);
    lemma_flat_of(plan(w), plan(w).len(), extent(w), scan);
    assert(plan(w).take(plan(w).len() as int) =~= plan(w));
}

broadcast proof fn lemma_flat_add(a: Seq<WorkV>, b: Seq<WorkV>, scan: Scan)
    ensures
        #[trigger] flat(a + b, scan) == flat(a, scan) + flat(b, scan),
    decreases b.len(),
{
    if b.len() == 0 {
        assert(a + b =~= a);
    } else {
        lemma_flat_add(a, b.drop_last(), scan);
        assert((a + b).drop_last() =~= a + b.drop_last());
        assert((a + b).last() == b.last());
        assert(flat(a + b, scan) =~= flat(a, scan) + flat(b, scan));
    }
}

broadcast proof fn lemma_flat_none(scan: Scan)
    ensures
        #[trigger] flat(none(), scan) == Seq::<IncidentV>::empty(),
{
}

broadcast proof fn lemma_flat_itself(v: JsonV, role: Role, scan: Scan)
    ensures
        #[trigger] flat(itself(v, role), scan) == found(v, role, scan),
{
    let ws = itself(v, role);
    assert(ws.drop_last() =~= none());
    assert(flat(ws, scan) =~= flat(none(), scan) + hits(ws.last(), scan));
    assert(flat(ws, scan) =~= found(v, role, scan));
}

broadcast proof fn lemma_flat_one(v: JsonV, key: Seq<char>, role: Role, scan: Scan)
    ensures
        #[trigger] flat(one(v, key, role), scan) == found_at(v, key, role, scan),
{
    match field(v, key) {
        Some(x) => {
            lemma_flat_itself(x, role, scan);
            assert(one(v, key, role) =~= itself(x, role));
        },
        None => {
            assert(one(v, key, role) =~= none());
        },
    }
}

proof fn lemma_flat_nodes(nodes: Seq<JsonV>, n: nat, role: Role, scan: Scan)
    requires
        n <= nodes.len(),
    ensures
        flat(nodes.map_values(|x: JsonV| WorkV { role, node: x }).take(n as int), scan)
            == found_in(nodes, n, role, scan),
    decreases n,
{
    let ws = nodes.map_values(|x: JsonV| WorkV { role, node: x });
    if n > 0 {
        lemma_flat_nodes(nodes, (n - 1) as nat, role, scan);
        assert(ws.take(n as int).drop_last() =~= ws.take(n - 1));
        assert(ws.take(n as int).last() == WorkV { role, node: nodes[n - 1] });
    } else {
        assert(ws.take(0) =~= none());
    }
}

broadcast proof fn lemma_flat_each(v: JsonV, key: Seq<char>, role: Role, scan: Scan)
    ensures
        #[trigger] flat(each(v, key, role), scan) == found_in_list(v, key, role, scan),
{
    let nodes = children(v, key);
    lemma_flat_nodes(nodes, nodes.len(), role, scan);
    let ws = nodes.map_values(|x: JsonV| WorkV { role, node: x });
    assert(ws.take(nodes.len() as int) =~= ws);
    assert(each(v, key, role) =~= ws);
}

broadcast proof fn lemma_flat_one_in(
    v: JsonV,
    key: Seq<char>,
    inner: Seq<char>,
    role: Role,
    scan: Scan,
)
    ensures
        #[trigger] flat(one_in(v, key, inner, role), scan) == found_at(
            child(v, key),
            inner,
            role,
            scan,
        ),
{
    lemma_flat_one(child(v, key), inner, role, scan);
    assert(one_in(v, key, inner, role) =~= one(child(v, key), inner, role));
}

broadcast proof fn lemma_flat_each_in(
    v: JsonV,
    key: Seq<char>,
    inner: Seq<char>,
    role: Role,
    scan: Scan,
)
    ensures
        #[trigger] flat(each_in(v, key, inner, role), scan) == found_in_list(
            child(v, key),
            inner,
            role,
            scan,
        ),
{
    lemma_flat_each(child(v, key), inner, role, scan);
    assert(each_in(v, key, inner, role) =~= each(child(v, key), inner, role));
}

broadcast group group_flat {
    lemma_flat_add,
    lemma_flat_none,
    lemma_flat_itself,
    lemma_flat_one,
    lemma_flat_each,
    lemma_flat_one_in,
    lemma_flat_each_in,
}

/// Exporting a declaration changes nothing in what is found in it.
pub proof fn law_export_named(v: JsonV, scan: Scan)
    requires
        type_is(v, "ExportNamedDeclaration"@),
        is_function_declaration(child(v, "declaration"@)) || type_is(child(v, "declaration"@), "VariableDeclaration"@) || type_is(child(v, "declaration"@), "ClassDeclaration"@),
    ensures
        found(v, Role::Statement, scan) == found_at(v, "declaration"@, Role::Statement, scan),
{
    broadcast use group_flat;

    lemma_type_names();
    lemma_found(WorkV { role: Role::Statement, node: v }, scan);
}

/// Exporting a function or a class by default changes nothing in what is found in it.
pub proof fn law_export_default(v: JsonV, scan: Scan)
    requires
        type_is(v, "ExportDefaultDeclaration"@),
        is_function_declaration(child(v, "declaration"@)) || type_is(child(v, "declaration"@), "ClassDeclaration"@),
    ensures
        found(v, Role::Statement, scan) == found_at(v, "declaration"@, Role::Statement, scan),
{
    broadcast use group_flat;

    lemma_type_names();
    lemma_found(WorkV { role: Role::Statement, node: v }, scan);
}

/// What is exported by default is looked at as an expression.
pub proof fn law_export_default_expression(v: JsonV, scan: Scan)
    requires
        type_is(v, "ExportDefaultDeclaration"@),
        !is_function_declaration(child(v, "declaration"@)),
        !type_is(child(v, "declaration"@), "ClassDeclaration"@),
    ensures
        found(v, Role::Statement, scan) == found_at(v, "declaration"@, Role::Expression, scan),
{
    broadcast use group_flat;

    lemma_type_names();
    lemma_found(WorkV { role: Role::Statement, node: v }, scan);
}

/// What is found in a function declaration is what is found in its body.
pub proof fn law_function(v: JsonV, scan: Scan)
    requires
        is_function_declaration(v),
    ensures
        found(v, Role::Statement, scan) == found_at(v, "body"@, Role::Statement, scan),
{
    broadcast use group_flat;

    lemma_type_names();
    lemma_found(WorkV { role: Role::Statement, node: v }, scan);
}

/// What is found in a variable declaration is what is found in its declarators, exported or not.
pub proof fn law_variables(v: JsonV, scan: Scan)
    requires
        type_is(v, "VariableDeclaration"@),
    ensures
        found(v, Role::Statement, scan) == found_in_list(v, "declarations"@, Role::Declarator, scan),
{
    broadcast use group_flat;

    lemma_type_names();
    lemma_found(WorkV { role: Role::Statement, node: v }, scan);
}

/// What is found in a declarator is what is found in its initializer.
pub proof fn law_initializer(v: JsonV, scan: Scan)
    ensures
        found(v, Role::Declarator, scan) == found_at(v, "init"@, Role::Expression, scan),
{
    broadcast use group_flat;

    lemma_type_names();
    lemma_found(WorkV { role: Role::Declarator, node: v }, scan);
}

/// What is found in a class is what is found in its members.
pub proof fn law_class(v: JsonV, scan: Scan)
    requires
        type_is(v, "ClassDeclaration"@),
    ensures
        found(v, Role::Statement, scan) == found_in_list(child(v, "body"@), "body"@, Role::ClassMember, scan),
{
    broadcast use group_flat;

    lemma_type_names();
    lemma_found(WorkV { role: Role::Statement, node: v }, scan);
}

/// What is found in a class expression is what is found in its members.
pub proof fn law_class_expression(v: JsonV, scan: Scan)
    requires
        type_is(v, "ClassExpression"@),
    ensures
        found(v, Role::Expression, scan) == found_in_list(child(v, "body"@), "body"@, Role::ClassMember, scan),
{
    broadcast use group_flat;

    lemma_type_names();
    lemma_found(WorkV { role: Role::Expression, node: v }, scan);
}

/// The body of a method is looked at.
pub proof fn law_method(v: JsonV, scan: Scan)
    requires
        type_is(v, "MethodDefinition"@) || type_is(v, "TSAbstractMethodDefinition"@),
    ensures
        found(v, Role::ClassMember, scan) == found_at(child(v, "value"@), "body"@, Role::Statement, scan),
{
    broadcast use group_flat;

    lemma_type_names();
    lemma_found(WorkV { role: Role::ClassMember, node: v }, scan);
}

/// The value of a property of a class is looked at.
pub proof fn law_class_property(v: JsonV, scan: Scan)
    requires
        type_is(v, "PropertyDefinition"@) || type_is(v, "TSAbstractPropertyDefinition"@),
    ensures
        found(v, Role::ClassMember, scan) == found_at(v, "value"@, Role::Expression, scan),
{
    broadcast use group_flat;

    lemma_type_names();
    lemma_found(WorkV { role: Role::ClassMember, node: v }, scan);
}

/// What a statement returns or throws is looked at.
pub proof fn law_return(v: JsonV, scan: Scan)
    requires
        type_is(v, "ReturnStatement"@) || type_is(v, "ThrowStatement"@),
    ensures
        found(v, Role::Statement, scan) == found_at(v, "argument"@, Role::Expression, scan),
{
    broadcast use group_flat;

    lemma_type_names();
    lemma_found(WorkV { role: Role::Statement, node: v }, scan);
}

/// What is found in an expression statement is what is found in the expression.
pub proof fn law_expression_statement(v: JsonV, scan: Scan)
    requires
        type_is(v, "ExpressionStatement"@),
        text_field(v, "directive"@) is None,
    ensures
        found(v, Role::Statement, scan) == found_at(v, "expression"@, Role::Expression, scan),
{
    broadcast use group_flat;

    lemma_type_names();
    lemma_found(WorkV { role: Role::Statement, node: v }, scan);
}

/// Nothing is found in a directive.
pub proof fn law_directive(v: JsonV, scan: Scan)
    requires
        type_is(v, "ExpressionStatement"@),
        text_field(v, "directive"@) is Some,
    ensures
        found(v, Role::Statement, scan) == Seq::<IncidentV>::empty(),
{
    broadcast use group_flat;

    lemma_type_names();
    lemma_found(WorkV { role: Role::Statement, node: v }, scan);
}

/// What is found in a block is what is found in its statements, in their order.
pub proof fn law_block(v: JsonV, scan: Scan)
    requires
        type_is(v, "BlockStatement"@),
    ensures
        found(v, Role::Statement, scan) == found_in_list(v, "body"@, Role::Statement, scan),
{
    broadcast use group_flat;

    lemma_type_names();
    lemma_found(WorkV { role: Role::Statement, node: v }, scan);
}

/// The condition and both branches of an `if` are looked at.
pub proof fn law_if(v: JsonV, scan: Scan)
    requires
        type_is(v, "IfStatement"@),
    ensures
        found(v, Role::Statement, scan) == found_at(v, "test"@, Role::Expression, scan) + found_at(v, "consequent"@, Role::Statement, scan) + found_at(v, "alternate"@, Role::Statement, scan),
{
    broadcast use group_flat;

    lemma_type_names();
    lemma_found(WorkV { role: Role::Statement, node: v }, scan);
}

/// All the parts of a `for` loop are looked at.
pub proof fn law_for(v: JsonV, scan: Scan)
    requires
        type_is(v, "ForStatement"@),
        !type_is(child(v, "init"@), "VariableDeclaration"@),
    ensures
        found(v, Role::Statement, scan) == found_at(v, "init"@, Role::Expression, scan) + found_at(v, "test"@, Role::Expression, scan) + found_at(v, "update"@, Role::Expression, scan) + found_at(v, "body"@, Role::Statement, scan),
{
    broadcast use group_flat;

    lemma_type_names();
    lemma_found(WorkV { role: Role::Statement, node: v }, scan);
}

/// All the parts of a `for` loop that declares its variables are looked at.
pub proof fn law_for_declaring(v: JsonV, scan: Scan)
    requires
        type_is(v, "ForStatement"@),
        type_is(child(v, "init"@), "VariableDeclaration"@),
    ensures
        found(v, Role::Statement, scan) == found_at(v, "init"@, Role::Statement, scan) + found_at(v, "test"@, Role::Expression, scan) + found_at(v, "update"@, Role::Expression, scan) + found_at(v, "body"@, Role::Statement, scan),
{
    broadcast use group_flat;

    lemma_type_names();
    lemma_found(WorkV { role: Role::Statement, node: v }, scan);
}

/// The body of a `for` loop over keys or values, and what a label stands before, is looked at.
pub proof fn law_for_each(v: JsonV, scan: Scan)
    requires
        type_is(v, "ForInStatement"@) || type_is(v, "ForOfStatement"@) || type_is(v, "LabeledStatement"@),
    ensures
        found(v, Role::Statement, scan) == found_at(v, "body"@, Role::Statement, scan),
{
    broadcast use group_flat;

    lemma_type_names();
    lemma_found(WorkV { role: Role::Statement, node: v }, scan);
}

/// The condition and the body of a `while` loop are looked at.
pub proof fn law_while(v: JsonV, scan: Scan)
    requires
        type_is(v, "WhileStatement"@) || type_is(v, "DoWhileStatement"@),
    ensures
        found(v, Role::Statement, scan) == found_at(v, "test"@, Role::Expression, scan) + found_at(v, "body"@, Role::Statement, scan),
{
    broadcast use group_flat;

    lemma_type_names();
    lemma_found(WorkV { role: Role::Statement, node: v }, scan);
}

/// What a `switch` looks at and all its cases are looked at.
pub proof fn law_switch(v: JsonV, scan: Scan)
    requires
        type_is(v, "SwitchStatement"@),
    ensures
        found(v, Role::Statement, scan) == found_at(v, "discriminant"@, Role::Expression, scan) + found_in_list(v, "cases"@, Role::Case, scan),
{
    broadcast use group_flat;

    lemma_type_names();
    lemma_found(WorkV { role: Role::Statement, node: v }, scan);
}

/// The value and the statements of a case are looked at.
pub proof fn law_case(v: JsonV, scan: Scan)
    ensures
        found(v, Role::Case, scan) == found_at(v, "test"@, Role::Expression, scan) + found_in_list(v, "consequent"@, Role::Statement, scan),
{
    broadcast use group_flat;

    lemma_type_names();
    lemma_found(WorkV { role: Role::Case, node: v }, scan);
}

/// The block, the handler and the last block of a `try` are looked at.
pub proof fn law_try(v: JsonV, scan: Scan)
    requires
        type_is(v, "TryStatement"@),
    ensures
        found(v, Role::Statement, scan) == found_at(v, "block"@, Role::Statement, scan) + found_at(child(v, "handler"@), "body"@, Role::Statement, scan) + found_at(v, "finalizer"@, Role::Statement, scan),
{
    broadcast use group_flat;

    lemma_type_names();
    lemma_found(WorkV { role: Role::Statement, node: v }, scan);
}

/// Nothing is found in a statement of any other kind.
pub proof fn law_other_statements(v: JsonV, scan: Scan)
    requires
        !type_is(v, "ExportDefaultDeclaration"@),
        !type_is(v, "ExportNamedDeclaration"@),
        !type_is(v, "FunctionDeclaration"@),
        !type_is(v, "TSDeclareFunction"@),
        !type_is(v, "VariableDeclaration"@),
        !type_is(v, "ReturnStatement"@),
        !type_is(v, "ThrowStatement"@),
        !type_is(v, "ExpressionStatement"@),
        !type_is(v, "BlockStatement"@),
        !type_is(v, "IfStatement"@),
        !type_is(v, "ForStatement"@),
        !type_is(v, "ForInStatement"@),
        !type_is(v, "ForOfStatement"@),
        !type_is(v, "LabeledStatement"@),
        !type_is(v, "WhileStatement"@),
        !type_is(v, "DoWhileStatement"@),
        !type_is(v, "SwitchStatement"@),
        !type_is(v, "TryStatement"@),
        !type_is(v, "ClassDeclaration"@),
    ensures
        found(v, Role::Statement, scan) == Seq::<IncidentV>::empty(),
{
    broadcast use group_flat;

    lemma_found(WorkV { role: Role::Statement, node: v }, scan);
}

/// A string literal whose text matches is reported, once, with the text and where it stands; any
/// other is not.
pub proof fn law_literal(v: JsonV, text: Seq<char>, scan: Scan)
    requires
        type_is(v, "Literal"@),
        field(v, "value"@) == Some(JsonV::Text(text)),
    ensures
        scan.accepts(text) ==> found(v, Role::Expression, scan) == seq![
            scan.hit(number_field(v, "start"@), number_field(v, "end"@), text),
        ],
        !scan.accepts(text) ==> found(v, Role::Expression, scan) == Seq::<IncidentV>::empty(),
        found(v, Role::Literal, scan) == found(v, Role::Expression, scan),
{
    broadcast use group_flat;

    lemma_type_names();
    lemma_found(WorkV { role: Role::Expression, node: v }, scan);
    lemma_found(WorkV { role: Role::Literal, node: v }, scan);
}

/// What is reported for a text names the text, and stands in the file that is scanned.
pub proof fn law_hit_names_text(start: u32, end: u32, text: Seq<char>, scan: Scan)
    ensures
        scan.hit(start, end, text).file_uri == scan.file_uri,
        scan.hit(start, end, text).variables.dom().contains("matchingText"@),
        scan.hit(start, end, text).variables["matchingText"@] == JsonV::Text(text),
{
}

/// A piece of a template whose text matches is reported, once, with the text; any other is not.
pub proof fn law_quasi(v: JsonV, raw: Seq<char>, scan: Scan)
    requires
        field(child(v, "value"@), "raw"@) == Some(JsonV::Text(raw)),
    ensures
        scan.accepts(raw) ==> found(v, Role::Quasi, scan).len() == 1 && found(
            v,
            Role::Quasi,
            scan,
        )[0] == scan.hit(quasi_start(v), quasi_end(v), raw),
        !scan.accepts(raw) ==> found(v, Role::Quasi, scan) == Seq::<IncidentV>::empty(),
{
    broadcast use group_flat;

    lemma_found(WorkV { role: Role::Quasi, node: v }, scan);
}

/// What is found in a template is what is found in the pieces of its text.
pub proof fn law_template(v: JsonV, scan: Scan)
    requires
        type_is(v, "TemplateLiteral"@),
    ensures
        found(v, Role::Expression, scan) == found_in_list(v, "quasis"@, Role::Quasi, scan),
{
    broadcast use group_flat;

    lemma_type_names();
    lemma_found(WorkV { role: Role::Expression, node: v }, scan);
}

/// What is found in a tagged template is what is found in the pieces of its text.
pub proof fn law_tagged_template(v: JsonV, scan: Scan)
    requires
        type_is(v, "TaggedTemplateExpression"@),
    ensures
        found(v, Role::Expression, scan) == found_in_list(child(v, "quasi"@), "quasis"@, Role::Quasi, scan),
{
    broadcast use group_flat;

    lemma_type_names();
    lemma_found(WorkV { role: Role::Expression, node: v }, scan);
}

/// What is found in a JSX element is found in it as an expression.
pub proof fn law_element_expression(v: JsonV, scan: Scan)
    requires
        type_is(v, "JSXElement"@),
    ensures
        found(v, Role::Expression, scan) == found(v, Role::Element, scan),
{
    broadcast use group_flat;

    lemma_type_names();
    lemma_found(WorkV { role: Role::Expression, node: v }, scan);
}

/// What is found in a fragment is what is found in its children.
pub proof fn law_fragment(v: JsonV, scan: Scan)
    requires
        type_is(v, "JSXFragment"@),
    ensures
        found(v, Role::Expression, scan) == found_in_list(v, "children"@, Role::Child, scan),
{
    broadcast use group_flat;

    lemma_type_names();
    lemma_found(WorkV { role: Role::Expression, node: v }, scan);
}

/// What is called and all the arguments are looked at.
pub proof fn law_call(v: JsonV, scan: Scan)
    requires
        type_is(v, "CallExpression"@),
    ensures
        found(v, Role::Expression, scan) == found_at(v, "callee"@, Role::Expression, scan) + found_in_list(v, "arguments"@, Role::Expression, scan),
{
    broadcast use group_flat;

    lemma_type_names();
    lemma_found(WorkV { role: Role::Expression, node: v }, scan);
}

/// The expression that an arrow function gives is looked at.
pub proof fn law_arrow(v: JsonV, scan: Scan)
    requires
        type_is(v, "ArrowFunctionExpression"@),
        flag(v, "expression"@),
    ensures
        found(v, Role::Expression, scan) == found_at(v, "body"@, Role::Expression, scan),
{
    broadcast use group_flat;

    lemma_type_names();
    lemma_found(WorkV { role: Role::Expression, node: v }, scan);
}

/// The body of an arrow function is looked at.
pub proof fn law_arrow_block(v: JsonV, scan: Scan)
    requires
        type_is(v, "ArrowFunctionExpression"@),
        !flag(v, "expression"@),
    ensures
        found(v, Role::Expression, scan) == found_at(v, "body"@, Role::Statement, scan),
{
    broadcast use group_flat;

    lemma_type_names();
    lemma_found(WorkV { role: Role::Expression, node: v }, scan);
}

/// The condition and both branches of a conditional expression are looked at.
pub proof fn law_conditional(v: JsonV, scan: Scan)
    requires
        type_is(v, "ConditionalExpression"@),
    ensures
        found(v, Role::Expression, scan) == found_at(v, "test"@, Role::Expression, scan) + found_at(v, "consequent"@, Role::Expression, scan) + found_at(v, "alternate"@, Role::Expression, scan),
{
    broadcast use group_flat;

    lemma_type_names();
    lemma_found(WorkV { role: Role::Expression, node: v }, scan);
}

/// Both sides of a logical expression are looked at.
pub proof fn law_logical(v: JsonV, scan: Scan)
    requires
        type_is(v, "LogicalExpression"@),
    ensures
        found(v, Role::Expression, scan) == found_at(v, "left"@, Role::Expression, scan) + found_at(v, "right"@, Role::Expression, scan),
{
    broadcast use group_flat;

    lemma_type_names();
    lemma_found(WorkV { role: Role::Expression, node: v }, scan);
}

/// What is found in an object is what is found in its properties.
pub proof fn law_object(v: JsonV, scan: Scan)
    requires
        type_is(v, "ObjectExpression"@),
    ensures
        found(v, Role::Expression, scan) == found_in_list(v, "properties"@, Role::Property, scan),
{
    broadcast use group_flat;

    lemma_type_names();
    lemma_found(WorkV { role: Role::Expression, node: v }, scan);
}

/// What is found in an array is what is found in its elements.
pub proof fn law_array(v: JsonV, scan: Scan)
    requires
        type_is(v, "ArrayExpression"@),
    ensures
        found(v, Role::Expression, scan) == found_in_list(v, "elements"@, Role::Expression, scan),
{
    broadcast use group_flat;

    lemma_type_names();
    lemma_found(WorkV { role: Role::Expression, node: v }, scan);
}

/// What is found in a sequence is what is found in its expressions.
pub proof fn law_sequence(v: JsonV, scan: Scan)
    requires
        type_is(v, "SequenceExpression"@),
    ensures
        found(v, Role::Expression, scan) == found_in_list(v, "expressions"@, Role::Expression, scan),
{
    broadcast use group_flat;

    lemma_type_names();
    lemma_found(WorkV { role: Role::Expression, node: v }, scan);
}

/// Parentheses and type annotations change nothing in what is found in an expression.
pub proof fn law_wrapped(v: JsonV, scan: Scan)
    requires
        type_is(v, "ParenthesizedExpression"@) || type_is(v, "TSAsExpression"@) || type_is(v, "TSSatisfiesExpression"@) || type_is(v, "TSNonNullExpression"@) || type_is(v, "TSTypeAssertion"@),
    ensures
        found(v, Role::Expression, scan) == found_at(v, "expression"@, Role::Expression, scan),
{
    broadcast use group_flat;

    lemma_type_names();
    lemma_found(WorkV { role: Role::Expression, node: v }, scan);
}

/// What is awaited or yielded is looked at.
pub proof fn law_awaited(v: JsonV, scan: Scan)
    requires
        type_is(v, "AwaitExpression"@) || type_is(v, "YieldExpression"@),
    ensures
        found(v, Role::Expression, scan) == found_at(v, "argument"@, Role::Expression, scan),
{
    broadcast use group_flat;

    lemma_type_names();
    lemma_found(WorkV { role: Role::Expression, node: v }, scan);
}

/// What is assigned is looked at.
pub proof fn law_assigned(v: JsonV, scan: Scan)
    requires
        type_is(v, "AssignmentExpression"@),
    ensures
        found(v, Role::Expression, scan) == found_at(v, "right"@, Role::Expression, scan),
{
    broadcast use group_flat;

    lemma_type_names();
    lemma_found(WorkV { role: Role::Expression, node: v }, scan);
}

/// The arguments of a constructor are looked at.
pub proof fn law_new(v: JsonV, scan: Scan)
    requires
        type_is(v, "NewExpression"@),
    ensures
        found(v, Role::Expression, scan) == found_in_list(v, "arguments"@, Role::Expression, scan),
{
    broadcast use group_flat;

    lemma_type_names();
    lemma_found(WorkV { role: Role::Expression, node: v }, scan);
}

/// What a property is read from is looked at.
pub proof fn law_member(v: JsonV, scan: Scan)
    requires
        is_static_member(v),
    ensures
        found(v, Role::Expression, scan) == found_at(v, "object"@, Role::Expression, scan),
{
    broadcast use group_flat;

    lemma_type_names();
    lemma_found(WorkV { role: Role::Expression, node: v }, scan);
}

/// What a computed property is read from and the property are looked at.
pub proof fn law_computed_member(v: JsonV, scan: Scan)
    requires
        is_computed_member(v),
    ensures
        found(v, Role::Expression, scan) == found_at(v, "object"@, Role::Expression, scan) + found_at(v, "property"@, Role::Expression, scan),
{
    broadcast use group_flat;

    lemma_type_names();
    lemma_found(WorkV { role: Role::Expression, node: v }, scan);
}

/// What is spread in an object is looked at.
pub proof fn law_spread(v: JsonV, scan: Scan)
    requires
        type_is(v, "SpreadElement"@),
    ensures
        found(v, Role::Property, scan) == found_at(v, "argument"@, Role::Expression, scan),
{
    broadcast use group_flat;

    lemma_type_names();
    lemma_found(WorkV { role: Role::Property, node: v }, scan);
}

/// A JSX element is looked at as a child.
pub proof fn law_child_element(v: JsonV, scan: Scan)
    requires
        type_is(v, "JSXElement"@),
    ensures
        found(v, Role::Child, scan) == found(v, Role::Element, scan),
{
    broadcast use group_flat;

    lemma_type_names();
    lemma_found(WorkV { role: Role::Child, node: v }, scan);
}

/// The children of a fragment are looked at as children.
pub proof fn law_child_fragment(v: JsonV, scan: Scan)
    requires
        type_is(v, "JSXFragment"@),
    ensures
        found(v, Role::Child, scan) == found_in_list(v, "children"@, Role::Child, scan),
{
    broadcast use group_flat;

    lemma_type_names();
    lemma_found(WorkV { role: Role::Child, node: v }, scan);
}

/// The expression between braces is looked at as a child.
pub proof fn law_child_container(v: JsonV, scan: Scan)
    requires
        type_is(v, "JSXExpressionContainer"@),
    ensures
        found(v, Role::Child, scan) == found_at(v, "expression"@, Role::Expression, scan),
{
    broadcast use group_flat;

    lemma_type_names();
    lemma_found(WorkV { role: Role::Child, node: v }, scan);
}

/// The key of a property, where it is a text, and its value are looked at.
pub proof fn law_property(v: JsonV, scan: Scan)
    requires
        type_is(v, "Property"@),
    ensures
        found(v, Role::Property, scan) == found_at(v, "key"@, Role::Literal, scan) + found_at(v, "value"@, Role::Expression, scan),
{
    broadcast use group_flat;

    lemma_type_names();
    lemma_found(WorkV { role: Role::Property, node: v }, scan);
}

/// The arguments of an optional call are looked at.
pub proof fn law_optional_call(v: JsonV, scan: Scan)
    requires
        type_is(v, "ChainExpression"@),
        type_is(child(v, "expression"@), "CallExpression"@),
    ensures
        found(v, Role::Expression, scan) == found_in_list(child(v, "expression"@), "arguments"@, Role::Expression, scan),
{
    broadcast use group_flat;

    lemma_type_names();
    lemma_found(WorkV { role: Role::Expression, node: v }, scan);
}

/// Both sides of a binary expression are looked at.
pub proof fn law_binary(v: JsonV, scan: Scan)
    requires
        type_is(v, "BinaryExpression"@),
        !type_is(child(v, "left"@), "PrivateIdentifier"@),
    ensures
        found(v, Role::Expression, scan) == found_at(v, "left"@, Role::Expression, scan) + found_at(v, "right"@, Role::Expression, scan),
{
    broadcast use group_flat;

    lemma_type_names();
    lemma_found(WorkV { role: Role::Expression, node: v }, scan);
}

/// The operand of a unary expression is looked at.
pub proof fn law_unary(v: JsonV, scan: Scan)
    requires
        type_is(v, "UnaryExpression"@),
    ensures
        found(v, Role::Expression, scan) == found_at(v, "argument"@, Role::Expression, scan),
{
    broadcast use group_flat;

    lemma_type_names();
    lemma_found(WorkV { role: Role::Expression, node: v }, scan);
}

/// Nothing is found in an expression of any other kind.
pub proof fn law_other_expressions(v: JsonV, scan: Scan)
    requires
        !type_is(v, "Literal"@),
        !type_is(v, "TemplateLiteral"@),
        !type_is(v, "JSXElement"@),
        !type_is(v, "JSXFragment"@),
        !type_is(v, "CallExpression"@),
        !type_is(v, "ArrowFunctionExpression"@),
        !type_is(v, "ConditionalExpression"@),
        !type_is(v, "LogicalExpression"@),
        !type_is(v, "ObjectExpression"@),
        !type_is(v, "ArrayExpression"@),
        !type_is(v, "ParenthesizedExpression"@),
        !type_is(v, "TSAsExpression"@),
        !type_is(v, "TSSatisfiesExpression"@),
        !type_is(v, "TSNonNullExpression"@),
        !type_is(v, "TSTypeAssertion"@),
        !type_is(v, "ChainExpression"@),
        !type_is(v, "AwaitExpression"@),
        !type_is(v, "YieldExpression"@),
        !type_is(v, "SequenceExpression"@),
        !type_is(v, "AssignmentExpression"@),
        !type_is(v, "NewExpression"@),
        !type_is(v, "TaggedTemplateExpression"@),
        !type_is(v, "MemberExpression"@),
        !type_is(v, "BinaryExpression"@),
        !type_is(v, "UnaryExpression"@),
        !type_is(v, "ClassExpression"@),
    ensures
        found(v, Role::Expression, scan) == Seq::<IncidentV>::empty(),
{
    broadcast use group_flat;

    lemma_found(WorkV { role: Role::Expression, node: v }, scan);
}

/// Whether an attribute is given as a text.
pub open spec fn has_text_value(a: JsonV, text: Seq<char>) -> bool {
    type_is(a, "JSXAttribute"@) && type_is(child(a, "value"@), "Literal"@) && field(
        child(a, "value"@),
        "value"@,
    ) == Some(JsonV::Text(text))
}

/// What is found in one of some nodes is found in all of them together.
proof fn lemma_found_among(nodes: Seq<JsonV>, n: nat, k: int, role: Role, scan: Scan, hit: IncidentV)
    requires
        0 <= k < n <= nodes.len(),
        found(nodes[k], role, scan).contains(hit),
    ensures
        found_in(nodes, n, role, scan).contains(hit),
    decreases n,
{
    let before = found_in(nodes, (n - 1) as nat, role, scan);
    let last = found(nodes[n - 1], role, scan);
    if k < n - 1 {
        lemma_found_among(nodes, (n - 1) as nat, k, role, scan, hit);
        let i = choose|i: int| 0 <= i < before.len() && before[i] == hit;
        assert((before + last)[i] == hit);
    } else {
        let i = choose|i: int| 0 <= i < last.len() && last[i] == hit;
        assert((before + last)[before.len() + i] == hit);
    }
}

/// Every attribute that is given as a text that matches is reported, be it a class list or not.
pub proof fn law_attribute_reported(v: JsonV, k: int, text: Seq<char>, scan: Scan)
    requires
        0 <= k < children(child(v, "openingElement"@), "attributes"@).len(),
        has_text_value(children(child(v, "openingElement"@), "attributes"@)[k], text),
        scan.accepts(text),
    ensures
        ({
            let value = child(children(child(v, "openingElement"@), "attributes"@)[k], "value"@);
            found(v, Role::Element, scan).contains(
                scan.hit(number_field(value, "start"@), number_field(value, "end"@), text),
            )
        }),
{
    broadcast use group_flat;

    lemma_type_names();
    let list = children(child(v, "openingElement"@), "attributes"@);
    let a = list[k];
    let value = child(a, "value"@);
    let hit = scan.hit(number_field(value, "start"@), number_field(value, "end"@), text);
    lemma_found(WorkV { role: Role::Element, node: v }, scan);
    lemma_found(WorkV { role: Role::ClassAttribute, node: a }, scan);
    lemma_found(WorkV { role: Role::Attribute, node: a }, scan);
    lemma_found(WorkV { role: Role::Literal, node: value }, scan);
    assert(field(a, "value"@) == Some(value));
    assert(found(value, Role::Literal, scan) =~= seq![hit]);
    assert(seq![hit][0] == hit);
    let first = found_in(list, list.len(), Role::ClassAttribute, scan);
    let second = found_in(list, list.len(), Role::Attribute, scan);
    let rest = found_in_list(v, "children"@, Role::Child, scan);
    assert(found(v, Role::Element, scan) =~= first + second + rest);
    if is_class_attribute(a) {
        assert(found(a, Role::ClassAttribute, scan) =~= seq![hit]);
        lemma_found_among(list, list.len(), k, Role::ClassAttribute, scan, hit);
        let i = choose|i: int| 0 <= i < first.len() && first[i] == hit;
        assert((first + second + rest)[i] == hit);
    } else {
        assert(found(a, Role::Attribute, scan) =~= seq![hit]);
        lemma_found_among(list, list.len(), k, Role::Attribute, scan, hit);
        let i = choose|i: int| 0 <= i < second.len() && second[i] == hit;
        assert((first + second + rest)[first.len() + i] == hit);
    }
}

/// What is found in a JSX element is what its attributes hold, the class lists first, and what is
/// found in its children.
pub proof fn law_element(v: JsonV, scan: Scan)
    ensures
        found(v, Role::Element, scan) == found_in_list(
            child(v, "openingElement"@),
            "attributes"@,
            Role::ClassAttribute,
            scan,
        ) + found_in_list(child(v, "openingElement"@), "attributes"@, Role::Attribute, scan)
            + found_in_list(v, "children"@, Role::Child, scan),
{
    broadcast use group_flat;

    lemma_found(WorkV { role: Role::Element, node: v }, scan);
}

/// The expression that an attribute is given is looked at.
pub proof fn law_attribute_expression(v: JsonV, scan: Scan)
    requires
        type_is(v, "JSXAttribute"@),
        type_is(child(v, "value"@), "JSXExpressionContainer"@),
    ensures
        found(v, Role::Attribute, scan) == found_at(
            child(v, "value"@),
            "expression"@,
            Role::Expression,
            scan,
        ),
{
    broadcast use group_flat;

    lemma_type_names();
    lemma_found(WorkV { role: Role::Attribute, node: v }, scan);
}

} // verus!
