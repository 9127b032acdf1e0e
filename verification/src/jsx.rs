//! JSX scanning.
//!
//! Finds JSX component usage (`<Button ...>`) and JSX prop usage (`<X isActive={...}>`). Walks the
//! syntax tree to find JSX elements, and follows the names of render functions, in the file and
//! across files, so that what they render counts as rendered where they are used.

use crate::capabilities::ReferenceLocation;
use crate::estree::{
    add_each, add_each_in, add_itself, add_one, add_one_in, all_below, check_function_declaration,
    child, child_is_function, each, each_in, extent, flag, get_flag, get_identifier, group_below,
    has_type, identifier, is_function_declaration, is_type, itself, node_models, none, one, one_in,
    type_is, works, Role, Work, WorkV,
};
use crate::exports::{export_models, Export, ExportV};
use crate::imports::ImportMap;
use crate::incident::{incident_models, Incident, IncidentV};
use crate::json::{json_size, lemma_field_smaller, Json, JsonV};
use crate::jsx_children::{
    bound_of, called_name, element_name, get_named_element, holds_text, name_node, plan_function,
    with_text,
};
use crate::jsx_context::{
    check_typed_object_literal, declarator_parent, fn_decl_effective_parent, function_parent,
    parent_in_declarator, parent_view, typed_object_hits, wrapper_models, JsxScan, JsxV,
};
use crate::jsx_element::{check_jsx_element, element_hits};
use crate::locals::{build_local_expr_map, find_local, local_exprs, local_models};
use crate::lookup::{find_named, fresh_names, lemma_name_seen, list_names, named, names_of};
use crate::pattern::{opt_source, regex_source};
use crate::scope::{no_neighbours, Neighbours, Scope, ScopeV};
use crate::text::texts;
use vstd::prelude::*;

verus! {

/// A piece of work, with the component that what it renders is rendered in.
pub ghost struct RenderV {
    pub work: WorkV,
    pub parent: Option<Seq<char>>,
}

/// Pieces of work that are rendered in the same component.
pub open spec fn within(ws: Seq<WorkV>, parent: Option<Seq<char>>) -> Seq<RenderV> {
    ws.map_values(|work: WorkV| RenderV { work, parent })
}

/// What a statement leads to.
pub open spec fn plan_statement(v: JsonV) -> Seq<WorkV> {
    if type_is(v, "ExportDefaultDeclaration"@) {
        if is_function_declaration(child(v, "declaration"@)) {
            none() + each_in(child(v, "declaration"@), "body"@, "body"@, Role::Statement)
        } else {
            none()
        }
    } else if type_is(v, "ExportNamedDeclaration"@) {
        if is_function_declaration(child(v, "declaration"@)) {
            none() + each_in(child(v, "declaration"@), "body"@, "body"@, Role::Statement)
        } else if type_is(child(v, "declaration"@), "VariableDeclaration"@) {
            none() + each_in(v, "declaration"@, "declarations"@, Role::Declarator)
        } else {
            none()
        }
    } else if is_function_declaration(v) {
        none() + each_in(v, "body"@, "body"@, Role::Statement)
    } else if type_is(v, "VariableDeclaration"@) {
        none() + each(v, "declarations"@, Role::Declarator)
    } else if type_is(v, "ReturnStatement"@) {
        none() + one(v, "argument"@, Role::Expression)
    } else if type_is(v, "ExpressionStatement"@) {
        none() + one(v, "expression"@, Role::Expression)
    } else if type_is(v, "BlockStatement"@) {
        none() + each(v, "body"@, Role::Statement)
    } else if type_is(v, "IfStatement"@) {
        none() + one(v, "consequent"@, Role::Statement) + one(v, "alternate"@, Role::Statement)
    } else {
        none()
    }
}

/// The component that what a statement leads to is rendered in.
pub open spec fn statement_parent(v: JsonV, parent: Option<Seq<char>>) -> Option<Seq<char>> {
    if type_is(v, "ExportDefaultDeclaration"@) || type_is(v, "ExportNamedDeclaration"@) {
        if is_function_declaration(child(v, "declaration"@)) {
            function_parent(child(v, "declaration"@), parent)
        } else {
            parent
        }
    } else if is_function_declaration(v) {
        function_parent(v, parent)
    } else {
        parent
    }
}

/// What an expression leads to.
pub open spec fn plan_expression(v: JsonV) -> Seq<WorkV> {
    if type_is(v, "JSXElement"@) {
        none() + itself(v, Role::Element)
    } else if type_is(v, "JSXFragment"@) {
        none() + each(v, "children"@, Role::Child)
    } else if type_is(v, "ParenthesizedExpression"@) {
        none() + one(v, "expression"@, Role::Expression)
    } else if type_is(v, "ConditionalExpression"@) {
        none() + one(v, "consequent"@, Role::Expression) + one(v, "alternate"@, Role::Expression)
    } else if type_is(v, "LogicalExpression"@) {
        none() + one(v, "right"@, Role::Expression)
    } else if type_is(v, "ArrowFunctionExpression"@) {
        if flag(v, "expression"@) {
            none() + one(v, "body"@, Role::Expression)
        } else {
            none() + each_in(v, "body"@, "body"@, Role::Statement)
        }
    } else if type_is(v, "CallExpression"@) {
        none() + each(v, "arguments"@, Role::Expression)
    } else if type_is(v, "ChainExpression"@) && type_is(
        child(v, "expression"@),
        "CallExpression"@,
    ) {
        none() + each_in(v, "expression"@, "arguments"@, Role::Expression)
    } else if type_is(v, "SpreadElement"@) {
        none() + one(v, "argument"@, Role::Expression)
    } else {
        none()
    }
}

/// What a JSX child leads to.
pub open spec fn plan_child(v: JsonV) -> Seq<WorkV> {
    if type_is(v, "JSXElement"@) {
        none() + itself(v, Role::Element)
    } else if type_is(v, "JSXFragment"@) {
        none() + each(v, "children"@, Role::Child)
    } else if type_is(v, "JSXExpressionContainer"@) {
        none() + one(v, "expression"@, Role::Container)
    } else {
        none()
    }
}

/// What an attribute leads to.
pub open spec fn plan_attribute(v: JsonV) -> Seq<WorkV> {
    if type_is(v, "JSXAttribute"@) {
        if type_is(child(v, "value"@), "JSXExpressionContainer"@) {
            none() + one_in(v, "value"@, "expression"@, Role::Container)
        } else {
            none()
        }
    } else if type_is(v, "JSXSpreadAttribute"@) {
        none() + one(v, "argument"@, Role::Expression)
    } else {
        none()
    }
}

/// The component that the children of an element are rendered in: the element itself, unless it
/// passes its children through.
pub open spec fn effective_parent(
    name: Seq<char>,
    parent: Option<Seq<char>>,
    jsx: JsxV,
) -> Option<Seq<char>> {
    match named(jsx.transparent, name) {
        Some(None) => parent,
        Some(Some(wrapper)) => Some(wrapper),
        None => Some(name),
    }
}

/// What an element leads to: what its attributes hold, then its children.
pub open spec fn plan_element(v: JsonV, parent: Option<Seq<char>>, jsx: JsxV) -> Seq<RenderV> {
    let name = element_name(name_node(v));
    within(each_in(v, "openingElement"@, "attributes"@, Role::Attribute), Some(name)) + within(
        each(v, "children"@, Role::Child),
        effective_parent(name, parent, jsx),
    )
}

/// What a piece of work leads to.
pub open spec fn plan(w: RenderV, jsx: JsxV) -> Seq<RenderV> {
    let v = w.work.node;
    match w.work.role {
        Role::Statement => within(plan_statement(v), statement_parent(v, w.parent)),
        Role::Declarator => within(
            none() + one(v, "init"@, Role::Expression),
            declarator_parent(v, jsx.source, w.parent),
        ),
        Role::Expression | Role::Container => within(plan_expression(v), w.parent),
        Role::Child => within(plan_child(v), w.parent),
        Role::Element => plan_element(v, w.parent, jsx),
        Role::Attribute => within(plan_attribute(v), w.parent),
        _ => Seq::empty(),
    }
}

/// The incidents of a piece of work itself.
pub open spec fn own_hits(w: RenderV, jsx: JsxV) -> Seq<IncidentV> {
    match w.work.role {
        Role::Declarator => typed_object_hits(w.work.node, jsx),
        Role::Element => element_hits(w.work.node, w.parent, jsx),
        _ => Seq::empty(),
    }
}

/// The name of the function that a piece of work refers to.
pub open spec fn referred_name(w: WorkV) -> Option<Seq<char>> {
    if w.role is Expression || w.role is Container {
        identifier(w.node)
    } else {
        None
    }
}

/// The functions that are being followed: those of the file, and, since the last of these was
/// entered, those of other files.
pub ghost struct TrailV {
    pub local: Seq<Seq<char>>,
    pub foreign: Seq<Seq<char>>,
}

/// How many functions of the file are not being followed.
pub open spec fn local_left(jsx: JsxV, trail: TrailV) -> nat {
    fresh_names(jsx.scope.locals, trail.local)
}

/// How many imports are not being followed.
pub open spec fn foreign_left(jsx: JsxV, trail: TrailV) -> nat {
    fresh_names(jsx.scope.imports, trail.foreign)
}

/// The bodies of the first `n` of the functions that were found in other files.
pub open spec fn export_works(found: Seq<ExportV>, n: int) -> Seq<WorkV>
    decreases n,
{
    if n <= 0 || n > found.len() {
        Seq::empty()
    } else {
        export_works(found, n - 1) + (match found[n - 1] {
            ExportV::Expression(e) => plan_function(e),
            ExportV::Function(f) => each_in(f, "body"@, "body"@, Role::Statement),
        })
    }
}

/// A bound on what the first `n` of the functions that were found in other files hold.
pub open spec fn export_bound(found: Seq<ExportV>, n: int) -> nat
    decreases n,
{
    if n <= 0 || n > found.len() {
        0
    } else {
        export_bound(found, n - 1) + (match found[n - 1] {
            ExportV::Expression(e) => bound_of(e),
            ExportV::Function(f) => bound_of(f),
        })
    }
}

/// The incidents of a piece of work and of all that it leads to, in order.
pub open spec fn hits(w: RenderV, jsx: JsxV, trail: TrailV) -> Seq<IncidentV>
    decreases local_left(jsx, trail), foreign_left(jsx, trail), extent(w.work), 2nat, 0nat,
{
    own_hits(w, jsx) + followed_hits(w, jsx, trail) + hits_in(
        plan(w, jsx),
        plan(w, jsx).len(),
        extent(w.work),
        jsx,
        trail,
    )
}

/// The incidents of the function that a piece of work refers to or calls. One that is being
/// followed is not followed again.
pub open spec fn followed_hits(w: RenderV, jsx: JsxV, trail: TrailV) -> Seq<IncidentV>
    decreases local_left(jsx, trail), foreign_left(jsx, trail), extent(w.work), 1nat, 0nat,
{
    match referred_name(w.work) {
        Some(name) => if named(jsx.scope.locals, name) is Some {
            local_hits(name, w, jsx, trail)
        } else {
            foreign_hits(name, w, jsx, trail)
        },
        None => match called_name(w.work) {
            Some(name) => local_hits(name, w, jsx, trail),
            None => Seq::empty(),
        },
    }
}

/// The incidents of the body of a function of the file.
pub open spec fn local_hits(name: Seq<char>, w: RenderV, jsx: JsxV, trail: TrailV) -> Seq<IncidentV>
    decreases local_left(jsx, trail), foreign_left(jsx, trail), extent(w.work), 0nat, 0nat,
{
    match named(jsx.scope.locals, name) {
        Some(f) => if trail.local.contains(name) {
            Seq::empty()
        } else {
            proof {
                lemma_name_seen(jsx.scope.locals, trail.local, name);
            }
            hits_in(
                within(plan_function(f), w.parent),
                plan_function(f).len(),
                bound_of(f),
                jsx,
                TrailV { local: trail.local.push(name), foreign: Seq::empty() },
            )
        },
        None => Seq::empty(),
    }
}

/// The incidents of the bodies of the functions that another file exports under a name.
pub open spec fn foreign_hits(name: Seq<char>, w: RenderV, jsx: JsxV, trail: TrailV) -> Seq<
    IncidentV,
>
    decreases local_left(jsx, trail), foreign_left(jsx, trail), extent(w.work), 0nat, 0nat,
{
    if named(jsx.scope.imports, name) is None || trail.foreign.contains(name) {
        Seq::empty()
    } else {
        let found = jsx.scope.exported_by_index(name);
        let ws = export_works(found, found.len() as int);
        proof {
            lemma_name_seen(jsx.scope.imports, trail.foreign, name);
        }
        hits_in(
            within(ws, w.parent),
            ws.len(),
            export_bound(found, found.len() as int),
            jsx,
            TrailV { local: trail.local, foreign: trail.foreign.push(name) },
        )
    }
}

/// The incidents of the first `n` pieces of work, each of which is smaller than `bound`.
pub open spec fn hits_in(ws: Seq<RenderV>, n: nat, bound: nat, jsx: JsxV, trail: TrailV) -> Seq<
    IncidentV,
>
    decreases local_left(jsx, trail), foreign_left(jsx, trail), bound, 0nat, n,
{
    if n == 0 || n > ws.len() || extent(ws[n - 1].work) >= bound {
        Seq::empty()
    } else {
        hits_in(ws, (n - 1) as nat, bound, jsx, trail) + hits(ws[n - 1], jsx, trail)
    }
}

/// Nothing is being followed.
pub open spec fn no_trail() -> TrailV {
    TrailV { local: Seq::empty(), foreign: Seq::empty() }
}

/// The incidents of the first `n` statements.
pub open spec fn statement_hits(stmts: Seq<JsonV>, n: int, jsx: JsxV) -> Seq<IncidentV>
    decreases n,
{
    if n <= 0 || n > stmts.len() {
        Seq::empty()
    } else {
        statement_hits(stmts, n - 1, jsx) + hits(
            RenderV {
                work: WorkV { role: Role::Statement, node: stmts[n - 1] },
                parent: None,
            },
            jsx,
            no_trail(),
        )
    }
}

/// What is found in one list of pieces of work and then in another is found in both together.
pub proof fn lemma_hits_concat(
    a: Seq<RenderV>,
    b: Seq<RenderV>,
    n: nat,
    bound: nat,
    jsx: JsxV,
    trail: TrailV,
)
    requires
        n <= b.len(),
        forall|i: int| 0 <= i < a.len() ==> extent((#[trigger] a[i]).work) < bound,
        forall|i: int| 0 <= i < b.len() ==> extent((#[trigger] b[i]).work) < bound,
    ensures
        hits_in(a + b, a.len() + n, bound, jsx, trail) == hits_in(
            a,
            a.len(),
            bound,
            jsx,
            trail,
        ) + hits_in(b, n, bound, jsx, trail),
    decreases n,
{
    if n == 0 {
        lemma_hits_prefix(a, b, a.len(), bound, jsx, trail);
        assert(hits_in(b, 0, bound, jsx, trail) =~= Seq::<IncidentV>::empty());
        assert(hits_in(a + b, a.len() + n, bound, jsx, trail) =~= hits_in(
            a,
            a.len(),
            bound,
            jsx,
            trail,
        ) + Seq::<IncidentV>::empty());
    } else {
        lemma_hits_concat(a, b, (n - 1) as nat, bound, jsx, trail);
        assert((a + b)[a.len() + n - 1] == b[n - 1]);
        assert(hits_in(a + b, a.len() + n, bound, jsx, trail) =~= hits_in(
            a,
            a.len(),
            bound,
            jsx,
            trail,
        ) + hits_in(b, n, bound, jsx, trail));
    }
}

pub proof fn lemma_hits_prefix(
    a: Seq<RenderV>,
    b: Seq<RenderV>,
    n: nat,
    bound: nat,
    jsx: JsxV,
    trail: TrailV,
)
    requires
        n <= a.len(),
        forall|i: int| 0 <= i < a.len() ==> extent((#[trigger] a[i]).work) < bound,
    ensures
        hits_in(a + b, n, bound, jsx, trail) == hits_in(a, n, bound, jsx, trail),
    decreases n,
{
    if n > 0 {
        lemma_hits_prefix(a, b, (n - 1) as nat, bound, jsx, trail);
        assert((a + b)[n - 1] == a[n - 1]);
    }
}

pub proof fn lemma_statement_below(v: JsonV)
    ensures
        all_below(plan_statement(v), json_size(v) * 2 + 1),
{
    broadcast use group_below;

    if crate::json::field(v, "declaration"@) is Some {
        lemma_field_smaller(v, "declaration"@);
    }
}

pub proof fn lemma_expression_below(v: JsonV)
    ensures
        all_below(plan_expression(v), json_size(v) * 2 + 1),
{
    broadcast use group_below;

}

pub proof fn lemma_function_below(f: JsonV)
    ensures
        all_below(plan_function(f), bound_of(f)),
        all_below(each_in(f, "body"@, "body"@, Role::Statement), bound_of(f)),
{
    broadcast use group_below;

}

pub proof fn lemma_exports_below(found: Seq<ExportV>, n: int)
    ensures
        all_below(export_works(found, n), export_bound(found, n)),
    decreases n,
{
    if 0 < n <= found.len() {
        lemma_exports_below(found, n - 1);
        match found[n - 1] {
            ExportV::Expression(e) => lemma_function_below(e),
            ExportV::Function(f) => lemma_function_below(f),
        }
    }
}

fn next_of_statement<'a>(node: &'a Json) -> (out: Vec<Work<'a>>)
    ensures
        works(out@) == plan_statement(node@),
{
    let mut out: Vec<Work<'a>> = Vec::new();
    assert(works(out@) =~= none());
    if is_type(node, "ExportDefaultDeclaration") {
        if child_is_function(node, "declaration") {
            if let Some(f) = node.get("declaration") {
                add_each_in(&mut out, f, "body", "body", Role::Statement);
            }
        }
    } else if is_type(node, "ExportNamedDeclaration") {
        if child_is_function(node, "declaration") {
            if let Some(f) = node.get("declaration") {
                add_each_in(&mut out, f, "body", "body", Role::Statement);
            }
        } else if has_type(node, "declaration", "VariableDeclaration") {
            add_each_in(&mut out, node, "declaration", "declarations", Role::Declarator);
        }
    } else if check_function_declaration(node) {
        add_each_in(&mut out, node, "body", "body", Role::Statement);
    } else if is_type(node, "VariableDeclaration") {
        add_each(&mut out, node, "declarations", Role::Declarator);
    } else if is_type(node, "ReturnStatement") {
        add_one(&mut out, node, "argument", Role::Expression);
    } else if is_type(node, "ExpressionStatement") {
        add_one(&mut out, node, "expression", Role::Expression);
    } else if is_type(node, "BlockStatement") {
        add_each(&mut out, node, "body", Role::Statement);
    } else if is_type(node, "IfStatement") {
        add_one(&mut out, node, "consequent", Role::Statement);
        add_one(&mut out, node, "alternate", Role::Statement);
    }
    out
}

fn parent_in_statement<'b>(node: &Json, parent: Option<&'b str>) -> (r: Option<&'b str>)
    ensures
        parent_view(r) == statement_parent(node@, parent_view(parent)),
{
    if is_type(node, "ExportDefaultDeclaration") || is_type(node, "ExportNamedDeclaration") {
        match node.get("declaration") {
            Some(f) => if check_function_declaration(f) {
                fn_decl_effective_parent(f, parent)
            } else {
                parent
            },
            None => parent,
        }
    } else if check_function_declaration(node) {
        fn_decl_effective_parent(node, parent)
    } else {
        parent
    }
}

fn next_of_expression<'a>(node: &'a Json) -> (out: Vec<Work<'a>>)
    ensures
        works(out@) == plan_expression(node@),
{
    let mut out: Vec<Work<'a>> = Vec::new();
    assert(works(out@) =~= none());
    if is_type(node, "JSXElement") {
        add_itself(&mut out, node, Role::Element);
    } else if is_type(node, "JSXFragment") {
        add_each(&mut out, node, "children", Role::Child);
    } else if is_type(node, "ParenthesizedExpression") {
        add_one(&mut out, node, "expression", Role::Expression);
    } else if is_type(node, "ConditionalExpression") {
        add_one(&mut out, node, "consequent", Role::Expression);
        add_one(&mut out, node, "alternate", Role::Expression);
    } else if is_type(node, "LogicalExpression") {
        add_one(&mut out, node, "right", Role::Expression);
    } else if is_type(node, "ArrowFunctionExpression") {
        if get_flag(node, "expression") {
            add_one(&mut out, node, "body", Role::Expression);
        } else {
            add_each_in(&mut out, node, "body", "body", Role::Statement);
        }
    } else if is_type(node, "CallExpression") {
        add_each(&mut out, node, "arguments", Role::Expression);
    } else if is_type(node, "ChainExpression") && has_type(node, "expression", "CallExpression") {
        add_each_in(&mut out, node, "expression", "arguments", Role::Expression);
    } else if is_type(node, "SpreadElement") {
        add_one(&mut out, node, "argument", Role::Expression);
    }
    out
}

fn next_of_child<'a>(node: &'a Json) -> (out: Vec<Work<'a>>)
    ensures
        works(out@) == plan_child(node@),
{
    let mut out: Vec<Work<'a>> = Vec::new();
    assert(works(out@) =~= none());
    if is_type(node, "JSXElement") {
        add_itself(&mut out, node, Role::Element);
    } else if is_type(node, "JSXFragment") {
        add_each(&mut out, node, "children", Role::Child);
    } else if is_type(node, "JSXExpressionContainer") {
        add_one(&mut out, node, "expression", Role::Container);
    }
    out
}

fn next_of_attribute<'a>(node: &'a Json) -> (out: Vec<Work<'a>>)
    ensures
        works(out@) == plan_attribute(node@),
{
    let mut out: Vec<Work<'a>> = Vec::new();
    assert(works(out@) =~= none());
    if is_type(node, "JSXAttribute") {
        if has_type(node, "value", "JSXExpressionContainer") {
            add_one_in(&mut out, node, "value", "expression", Role::Container);
        }
    } else if is_type(node, "JSXSpreadAttribute") {
        add_one(&mut out, node, "argument", Role::Expression);
    }
    out
}

fn next_of_function<'a>(node: &'a Json) -> (out: Vec<Work<'a>>)
    ensures
        works(out@) == plan_function(node@),
{
    let mut out: Vec<Work<'a>> = Vec::new();
    assert(works(out@) =~= none());
    if is_type(node, "ArrowFunctionExpression") && get_flag(node, "expression") {
        add_one(&mut out, node, "body", Role::Expression);
    } else if is_type(node, "ArrowFunctionExpression") || is_type(node, "FunctionExpression") {
        add_each_in(&mut out, node, "body", "body", Role::Statement);
    }
    out
}

fn next_of_exports<'a>(found: &Vec<Export<'a>>) -> (out: Vec<Work<'a>>)
    ensures
        works(out@) == export_works(export_models(found@), found@.len() as int),
{
    let ghost all = export_models(found@);
    let mut out: Vec<Work<'a>> = Vec::new();
    assert(works(out@) =~= export_works(all, 0));
    let mut i: usize = 0;
    while i < found.len()
        invariant
            i <= found@.len(),
            all == export_models(found@),
            works(out@) == export_works(all, i as int),
        decreases found.len() - i,
    {
        assert(all[i as int] == found@[i as int]@);
        match &found[i] {
            Export::Expression(e) => {
                let ghost before = works(out@);
                let mut more = next_of_function(e);
                let ghost added = works(more@);
                out.append(&mut more);
                assert(works(out@) =~= before + added);
            },
            Export::Function(f) => add_each_in(&mut out, f, "body", "body", Role::Statement),
        }
        i = i + 1;
    }
    out
}

/// The component that the children of an element are rendered in. A transparent wrapper that
/// passes its children through leaves them to its own parent; one that wraps them in another
/// component puts that in its place.
fn parent_of_children<'b>(name: &'b str, parent: Option<&'b str>, scan: &JsxScan<'b>) -> (r: Option<
    &'b str,
>)
    ensures
        parent_view(r) == effective_parent(name@, parent_view(parent), scan@),
{
    let list = scan.transparent;
    assert(names_of(wrapper_models(list@)) =~= list_names(list@));
    match find_named(list, name) {
        Some(i) => match &list[i].1 {
            Some(wrapper) => Some(wrapper.as_str()),
            None => parent,
        },
        None => Some(name),
    }
}

fn get_referred_name<'a>(w: &Work<'a>) -> (r: Option<&'a str>)
    ensures
        match r {
            Some(n) => referred_name(w@) == Some(n@),
            None => referred_name(w@) is None,
        },
{
    match w.role {
        Role::Expression | Role::Container => get_identifier(w.node),
        _ => None,
    }
}

fn get_called_name<'a>(w: &Work<'a>) -> (r: Option<&'a str>)
    ensures
        match r {
            Some(n) => called_name(w@) == Some(n@),
            None => called_name(w@) is None,
        },
{
    if let Role::Container = w.role {
        if is_type(w.node, "CallExpression") {
            if let Some(callee) = w.node.get("callee") {
                return get_identifier(callee);
            }
        }
    }
    None
}

/// The functions that are being followed.
struct Trail {
    local: Vec<String>,
    foreign: Vec<String>,
}

impl View for Trail {
    type V = TrailV;

    closed spec fn view(&self) -> TrailV {
        TrailV { local: texts(self.local@), foreign: texts(self.foreign@) }
    }
}

impl Trail {
    fn new() -> (r: Trail)
        ensures
            r@ == no_trail(),
    {
        let r = Trail { local: Vec::new(), foreign: Vec::new() };
        assert(texts(r.local@) =~= Seq::<Seq<char>>::empty());
        assert(texts(r.foreign@) =~= Seq::<Seq<char>>::empty());
        r
    }

    fn enter_local(&self, name: &str) -> (r: Trail)
        ensures
            r@ == (TrailV { local: self@.local.push(name@), foreign: Seq::empty() }),
    {
        let r = Trail { local: with_text(&self.local, name), foreign: Vec::new() };
        assert(texts(r.foreign@) =~= Seq::<Seq<char>>::empty());
        r
    }

    fn enter_foreign(&self, name: &str) -> (r: Trail)
        ensures
            r@ == (TrailV { local: self@.local, foreign: self@.foreign.push(name@) }),
    {
        let mut local: Vec<String> = Vec::new();
        let mut i: usize = 0;
        while i < self.local.len()
            invariant
                i <= self.local@.len(),
                local@.len() == i,
                forall|k: int| 0 <= k < i ==> (#[trigger] local@[k])@ == self.local@[k]@,
            decreases self.local.len() - i,
        {
            local.push(self.local[i].as_str().to_owned());
            i = i + 1;
        }
        assert(texts(local@) =~= texts(self.local@));
        Trail { local, foreign: with_text(&self.foreign, name) }
    }
}

fn check_own(w: &Work<'_>, parent: Option<&str>, scan: &JsxScan<'_>, out: &mut Vec<Incident>)
    ensures
        incident_models(final(out)@) == incident_models(old(out)@) + own_hits(
            RenderV { work: w@, parent: parent_view(parent) },
            scan@,
        ),
{
    match w.role {
        Role::Declarator => check_typed_object_literal(w.node, scan, out),
        Role::Element => check_jsx_element(w.node, parent, scan, out),
        _ => {
            assert(incident_models(out@) =~= incident_models(old(out)@)
                + Seq::<IncidentV>::empty());
        },
    }
}

/// Walks the body of a function of the file with the current parent, so that what it renders is
/// taken to be rendered where it is used.
fn resolve_local_fn_reference(
    name: &str,
    f: &Json,
    parent: Option<&str>,
    scan: &JsxScan<'_>,
    trail: &Trail,
    Ghost(w): Ghost<RenderV>,
    out: &mut Vec<Incident>,
)
    requires
        named(scan@.scope.locals, name@) == Some(f@),
        w.parent == parent_view(parent),
    ensures
        incident_models(final(out)@) == incident_models(old(out)@) + local_hits(
            name@,
            w,
            scan@,
            trail@,
        ),
    decreases
            local_left(scan@, trail@),
            foreign_left(scan@, trail@),
            extent(w.work),
            0nat,
            0nat,
{
    let ghost before = incident_models(out@);
    if holds_text(&trail.local, name) {
        assert(incident_models(out@) =~= before + Seq::<IncidentV>::empty());
        return;
    }
    let inner = trail.enter_local(name);
    proof {
        lemma_name_seen(scan@.scope.locals, trail@.local, name@);
        lemma_function_below(f@);
    }
    let next = next_of_function(f);
    assert(plan_function(f@).len() == next@.len());
    walk_all(&next, parent, Ghost(bound_of(f@)), scan, &inner, out);
    assert(incident_models(out@) =~= before + local_hits(name@, w, scan@, trail@));
}

/// Walks the bodies of the functions that another file exports under a name, with the current
/// parent.
fn resolve_cross_file_fn(
    name: &str,
    parent: Option<&str>,
    scan: &JsxScan<'_>,
    trail: &Trail,
    Ghost(w): Ghost<RenderV>,
    out: &mut Vec<Incident>,
)
    requires
        w.parent == parent_view(parent),
    ensures
        incident_models(final(out)@) == incident_models(old(out)@) + foreign_hits(
            name@,
            w,
            scan@,
            trail@,
        ),
    decreases
            local_left(scan@, trail@),
            foreign_left(scan@, trail@),
            extent(w.work),
            0nat,
            0nat,
{
    let ghost before = incident_models(out@);
    if scan.scope.imports.get(name).is_none() || holds_text(&trail.foreign, name) {
        assert(incident_models(out@) =~= before + Seq::<IncidentV>::empty());
        return;
    }
    let found = scan.scope.find_indexed_exports(name);
    let ghost all = export_models(found@);
    assert(all.len() == found@.len());
    let inner = trail.enter_foreign(name);
    let next = next_of_exports(&found);
    proof {
        lemma_name_seen(scan@.scope.imports, trail@.foreign, name@);
        lemma_exports_below(all, all.len() as int);
    }
    assert(export_works(all, all.len() as int).len() == next@.len());
    walk_all(
        &next,
        parent,
        Ghost(export_bound(all, all.len() as int)),
        scan,
        &inner,
        out,
    );
    assert(incident_models(out@) =~= before + foreign_hits(name@, w, scan@, trail@));
}

fn follow(
    w: &Work<'_>,
    parent: Option<&str>,
    scan: &JsxScan<'_>,
    trail: &Trail,
    out: &mut Vec<Incident>,
)
    ensures
        incident_models(final(out)@) == incident_models(old(out)@) + followed_hits(
            RenderV { work: w@, parent: parent_view(parent) },
            scan@,
            trail@,
        ),
    decreases
            local_left(scan@, trail@),
            foreign_left(scan@, trail@),
            extent(w@),
            1nat,
            0nat,
{
    let ghost r = RenderV { work: w@, parent: parent_view(parent) };
    let ghost before = incident_models(out@);
    assert(before + Seq::<IncidentV>::empty() =~= before);
    match get_referred_name(w) {
        Some(name) => match find_local(scan.scope.locals, name) {
            Some(f) => resolve_local_fn_reference(name, f, parent, scan, trail, Ghost(r), out),
            None => resolve_cross_file_fn(name, parent, scan, trail, Ghost(r), out),
        },
        None => if let Some(name) = get_called_name(w) {
            if let Some(f) = find_local(scan.scope.locals, name) {
                resolve_local_fn_reference(name, f, parent, scan, trail, Ghost(r), out);
            }
        },
    }
}

/// Walks a piece of work and all that it leads to.
fn walk(
    w: &Work<'_>,
    parent: Option<&str>,
    scan: &JsxScan<'_>,
    trail: &Trail,
    out: &mut Vec<Incident>,
)
    ensures
        incident_models(final(out)@) == incident_models(old(out)@) + hits(
            RenderV { work: w@, parent: parent_view(parent) },
            scan@,
            trail@,
        ),
    decreases
            local_left(scan@, trail@),
            foreign_left(scan@, trail@),
            extent(w@),
            2nat,
            0nat,
{
    let ghost r = RenderV { work: w@, parent: parent_view(parent) };
    let ghost jsx = scan@;
    let ghost before = incident_models(out@);
    check_own(w, parent, scan, out);
    follow(w, parent, scan, trail, out);
    let ghost first = incident_models(out@);
    assert(first =~= before + (own_hits(r, jsx) + followed_hits(r, jsx, trail@)));
    let node = w.node;
    let ghost ws = plan(r, jsx);
    let ghost bound = extent(w@);
    proof {
        broadcast use group_below;

        assert(hits_in(ws, 0, bound, jsx, trail@) =~= Seq::<IncidentV>::empty());
    }
    match w.role {
        Role::Statement => {
            proof {
                lemma_statement_below(node@);
            }
            let next = next_of_statement(node);
            let inner = parent_in_statement(node, parent);
            walk_all(&next, inner, Ghost(bound), scan, trail, out);
        },
        Role::Declarator => {
            let mut next: Vec<Work<'_>> = Vec::new();
            assert(works(next@) =~= none());
            add_one(&mut next, node, "init", Role::Expression);
            proof {
                broadcast use group_below;

                assert(all_below(none() + one(node@, "init"@, Role::Expression), bound));
            }
            let inner = parent_in_declarator(node, scan.source, parent);
            walk_all(&next, inner, Ghost(bound), scan, trail, out);
        },
        Role::Expression | Role::Container => {
            proof {
                lemma_expression_below(node@);
            }
            let next = next_of_expression(node);
            walk_all(&next, parent, Ghost(bound), scan, trail, out);
        },
        Role::Child => {
            proof {
                broadcast use group_below;

                assert(all_below(plan_child(node@), bound));
            }
            let next = next_of_child(node);
            walk_all(&next, parent, Ghost(bound), scan, trail, out);
        },
        Role::Attribute => {
            proof {
                broadcast use group_below;

                assert(all_below(plan_attribute(node@), bound));
            }
            let next = next_of_attribute(node);
            walk_all(&next, parent, Ghost(bound), scan, trail, out);
        },
        Role::Element => {
            let own = get_named_element(node);
            let name = own.name.as_str();
            let mut attributes: Vec<Work<'_>> = Vec::new();
            assert(works(attributes@) =~= none());
            add_each_in(&mut attributes, node, "openingElement", "attributes", Role::Attribute);
            let mut children: Vec<Work<'_>> = Vec::new();
            assert(works(children@) =~= none());
            add_each(&mut children, node, "children", Role::Child);
            let ghost a = each_in(node@, "openingElement"@, "attributes"@, Role::Attribute);
            let ghost c = each(node@, "children"@, Role::Child);
            assert(works(attributes@) =~= a);
            assert(works(children@) =~= c);
            proof {
                broadcast use group_below;

                assert(all_below(a, bound));
                assert(all_below(c, bound));
            }
            walk_all(&attributes, Some(name), Ghost(bound), scan, trail, out);
            let inner = parent_of_children(name, parent, scan);
            walk_all(&children, inner, Ghost(bound), scan, trail, out);
            proof {
                let x = within(a, Some(name@));
                let y = within(c, parent_view(inner));
                lemma_hits_concat(x, y, y.len(), bound, jsx, trail@);
                assert(ws =~= x + y);
            }
        },
        _ => {},
    }
    assert(incident_models(out@) =~= before + hits(r, jsx, trail@));
}

/// Walks pieces of work that are rendered in the same component.
fn walk_all(
    list: &Vec<Work<'_>>,
    parent: Option<&str>,
    Ghost(bound): Ghost<nat>,
    scan: &JsxScan<'_>,
    trail: &Trail,
    out: &mut Vec<Incident>,
)
    requires
        all_below(works(list@), bound),
    ensures
        incident_models(final(out)@) == incident_models(old(out)@) + hits_in(
            within(works(list@), parent_view(parent)),
            list@.len(),
            bound,
            scan@,
            trail@,
        ),
    decreases
            local_left(scan@, trail@),
            foreign_left(scan@, trail@),
            bound,
            0nat,
            0nat,
{
    let ghost ws = within(works(list@), parent_view(parent));
    let ghost jsx = scan@;
    let ghost t = trail@;
    let ghost before = incident_models(out@);
    let mut i: usize = 0;
    assert(before + hits_in(ws, 0, bound, jsx, t) =~= before);
    while i < list.len()
        invariant
            i <= list@.len(),
            ws == within(works(list@), parent_view(parent)),
            jsx == scan@,
            t == trail@,
            all_below(works(list@), bound),
            incident_models(out@) == before + hits_in(ws, i as nat, bound, jsx, t),
        decreases list.len() - i,
    {
        assert(works(list@)[i as int] == list@[i as int]@);
        assert(ws[i as int] == (RenderV {
            work: list@[i as int]@,
            parent: parent_view(parent),
        }));
        walk(&list[i], parent, scan, trail, out);
        i = i + 1;
        assert(incident_models(out@) =~= before + hits_in(ws, i as nat, bound, jsx, t));
    }
}

/// The names that a file can refer to, and what is looked for in it.
pub open spec fn jsx_model(
    stmts: Seq<JsonV>,
    source: Seq<char>,
    pattern: Seq<char>,
    file_uri: Seq<char>,
    location: Option<ReferenceLocation>,
    imports: Seq<(Seq<char>, Seq<char>)>,
) -> JsxV {
    JsxV {
        source,
        pattern,
        file_uri,
        location,
        scope: ScopeV {
            locals: local_exprs(stmts, stmts.len() as int),
            imports,
            neighbours: no_neighbours(),
        },
        child: None,
        not_child: None,
        requires_child: None,
        transparent: Seq::empty(),
    }
}

/// Like `scan_jsx_file` but with the files that this file reaches through its imports.
///
/// Function references passed as prop values (e.g., `toggle={toggle}`) that resolve to imports
/// are followed cross-file: the exported function is found, and its JSX body walked with the
/// parent context from the call site.
pub fn scan_jsx_file_with_resolver(
    stmts: &Vec<&Json>,
    source: &str,
    pattern: &regex::Regex,
    file_uri: &str,
    location: Option<ReferenceLocation>,
    import_map: &ImportMap,
    child: &Option<regex::Regex>,
    not_child: &Option<regex::Regex>,
    requires_child: &Option<regex::Regex>,
    transparent_components: &Vec<(String, Option<String>)>,
    neighbours: &Neighbours,
) -> (out: Vec<Incident>)
    ensures
        incident_models(out@) == statement_hits(
            node_models(stmts@),
            stmts@.len() as int,
            (JsxV {
                scope: ScopeV {
                    neighbours: neighbours@,
                    ..jsx_model(
                        node_models(stmts@),
                        source@,
                        regex_source(*pattern),
                        file_uri@,
                        location,
                        import_map@,
                    ).scope
                },
                child: opt_source(*child),
                not_child: opt_source(*not_child),
                requires_child: opt_source(*requires_child),
                transparent: wrapper_models(transparent_components@),
                ..jsx_model(
                    node_models(stmts@),
                    source@,
                    regex_source(*pattern),
                    file_uri@,
                    location,
                    import_map@,
                )
            }),
        ),
{
    let locals = build_local_expr_map(stmts);
    let ghost body = node_models(stmts@);
    let scan = JsxScan {
        source,
        pattern,
        file_uri,
        location,
        scope: Scope { locals: &locals, imports: import_map, neighbours },
        child,
        not_child,
        requires_child,
        transparent: transparent_components,
    };
    let ghost jsx = scan@;
    let trail = Trail::new();
    let mut out: Vec<Incident> = Vec::new();
    assert(incident_models(out@) =~= Seq::<IncidentV>::empty());
    let mut i: usize = 0;
    while i < stmts.len()
        invariant
            i <= stmts@.len(),
            body == node_models(stmts@),
            jsx == scan@,
            trail@ == no_trail(),
            incident_models(out@) == statement_hits(body, i as int, jsx),
        decreases stmts.len() - i,
    {
        assert(body[i as int] == stmts@[i as int]@);
        walk(&Work { role: Role::Statement, node: stmts[i] }, None, &scan, &trail, &mut out);
        i = i + 1;
    }
    out
}

/// Scan all statements in a program body for JSX component and prop usage.
///
/// `transparent_components` are the locally-imported components that are children-passthrough
/// wrappers. When encountered as a JSX parent, they are collapsed out of the parent chain so their
/// children inherit the grandparent, or the component that they are wrapped in.
pub fn scan_jsx_file(
    stmts: &Vec<&Json>,
    source: &str,
    pattern: &regex::Regex,
    file_uri: &str,
    location: Option<ReferenceLocation>,
    import_map: &ImportMap,
    child: &Option<regex::Regex>,
    not_child: &Option<regex::Regex>,
    requires_child: &Option<regex::Regex>,
    transparent_components: &Vec<(String, Option<String>)>,
) -> (out: Vec<Incident>)
    ensures
        incident_models(out@) == statement_hits(
            node_models(stmts@),
            stmts@.len() as int,
            (JsxV {
                child: opt_source(*child),
                not_child: opt_source(*not_child),
                requires_child: opt_source(*requires_child),
                transparent: wrapper_models(transparent_components@),
                ..jsx_model(
                    node_models(stmts@),
                    source@,
                    regex_source(*pattern),
                    file_uri@,
                    location,
                    import_map@,
                )
            }),
        ),
{
    let neighbours = Neighbours::none();
    scan_jsx_file_with_resolver(
        stmts,
        source,
        pattern,
        file_uri,
        location,
        import_map,
        child,
        not_child,
        requires_child,
        transparent_components,
        &neighbours,
    )
}

/// Scan a statement for JSX component and prop usage. Local functions are not followed.
pub fn scan_jsx(
    stmt: &Json,
    source: &str,
    pattern: &regex::Regex,
    file_uri: &str,
    location: Option<ReferenceLocation>,
    import_map: &ImportMap,
) -> (out: Vec<Incident>)
    ensures
        incident_models(out@) == hits(
            RenderV { work: WorkV { role: Role::Statement, node: stmt@ }, parent: None },
            jsx_model(
                Seq::empty(),
                source@,
                regex_source(*pattern),
                file_uri@,
                location,
                import_map@,
            ),
            no_trail(),
        ),
{
    let locals: Vec<(String, &Json)> = Vec::new();
    assert(local_models(locals@) =~= Seq::<(Seq<char>, JsonV)>::empty());
    let transparent: Vec<(String, Option<String>)> = Vec::new();
    assert(wrapper_models(transparent@) =~= Seq::<(Seq<char>, Option<Seq<char>>)>::empty());
    let neighbours = Neighbours::none();
    let anything: Option<regex::Regex> = None;
    let scan = JsxScan {
        source,
        pattern,
        file_uri,
        location,
        scope: Scope { locals: &locals, imports: import_map, neighbours: &neighbours },
        child: &anything,
        not_child: &anything,
        requires_child: &anything,
        transparent: &transparent,
    };
    let trail = Trail::new();
    let mut out: Vec<Incident> = Vec::new();
    walk(&Work { role: Role::Statement, node: stmt }, None, &scan, &trail, &mut out);
    assert(incident_models(out@) =~= hits(
        RenderV { work: WorkV { role: Role::Statement, node: stmt@ }, parent: None },
        scan@,
        no_trail(),
    ));
    out
}

} // verus!
