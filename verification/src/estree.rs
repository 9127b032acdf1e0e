//! ESTree syntax trees, and walks over them.
//!
//! A walk is described by a plan: for each piece of work, the pieces that it leads to, in
//! order. A piece of work is a node together with the role in which it is looked at.

use crate::json::{field, items, json_size, lemma_field_smaller, lemma_item_smaller, text, Json, JsonV};
use crate::text::{chars_of, decimal_u64, parse_u64, same};
use vstd::prelude::*;

verus! {

/// Whether a node has the given ESTree type.
pub open spec fn type_is(v: JsonV, name: Seq<char>) -> bool {
    field(v, "type"@) == Some(JsonV::Text(name))
}

/// The text of a field.
pub open spec fn text_field(v: JsonV, key: Seq<char>) -> Option<Seq<char>> {
    match field(v, key) {
        Some(x) => text(x),
        None => None,
    }
}

/// Whether a field is `true`.
pub open spec fn flag(v: JsonV, key: Seq<char>) -> bool {
    field(v, key) == Some(JsonV::Bool(true))
}

/// The number in a field; zero where it holds none that fits into 32 bits.
pub open spec fn number_field(v: JsonV, key: Seq<char>) -> u32 {
    match field(v, key) {
        Some(JsonV::Number(s)) => match decimal_u64(s) {
            Some(n) => if n <= u32::MAX {
                n as u32
            } else {
                0
            },
            None => 0,
        },
        _ => 0,
    }
}

/// A field of a node; `Null` where there is none.
pub open spec fn child(v: JsonV, key: Seq<char>) -> JsonV {
    match field(v, key) {
        Some(x) => x,
        None => JsonV::Null,
    }
}

/// The nodes in a list field.
pub open spec fn children(v: JsonV, key: Seq<char>) -> Seq<JsonV> {
    items(child(v, key))
}

/// The text of a string literal.
pub open spec fn string_literal(v: JsonV) -> Option<Seq<char>> {
    if type_is(v, "Literal"@) {
        text_field(v, "value"@)
    } else {
        None
    }
}

/// The name of an identifier.
pub open spec fn identifier(v: JsonV) -> Option<Seq<char>> {
    if type_is(v, "Identifier"@) {
        text_field(v, "name"@)
    } else {
        None
    }
}

/// Whether a statement is a directive, such as `"use strict"`.
pub open spec fn is_directive(v: JsonV) -> bool {
    type_is(v, "ExpressionStatement"@) && text_field(v, "directive"@) is Some
}

/// Whether a node declares a function.
pub open spec fn is_function_declaration(v: JsonV) -> bool {
    type_is(v, "FunctionDeclaration"@) || type_is(v, "TSDeclareFunction"@)
}

/// Whether a node declares a class.
pub open spec fn is_class_declaration(v: JsonV) -> bool {
    type_is(v, "ClassDeclaration"@)
}

/// Whether a member expression reads a named property, as in `a.b`.
pub open spec fn is_static_member(v: JsonV) -> bool {
    type_is(v, "MemberExpression"@) && !flag(v, "computed"@) && !type_is(
        child(v, "property"@),
        "PrivateIdentifier"@,
    )
}

/// Whether a member expression reads a computed property, as in `a[b]`.
pub open spec fn is_computed_member(v: JsonV) -> bool {
    type_is(v, "MemberExpression"@) && flag(v, "computed"@)
}

/// The raw text of a template element.
pub open spec fn raw_quasi(v: JsonV) -> Option<Seq<char>> {
    text_field(child(v, "value"@), "raw"@)
}

/// Where the text of a template element begins. The tree counts the backquote or brace before
/// it.
pub open spec fn quasi_start(v: JsonV) -> u32 {
    let n = number_field(v, "start"@);
    if n < u32::MAX {
        (n + 1) as u32
    } else {
        n
    }
}

/// Where the text of a template element ends. The tree counts what closes it: one character
/// at the tail, two elsewhere.
pub open spec fn quasi_end(v: JsonV) -> u32 {
    let n = number_field(v, "end"@);
    let over: u32 = if flag(v, "tail"@) {
        1
    } else {
        2
    };
    if n >= over {
        (n - over) as u32
    } else {
        0
    }
}

/// Whether a node has the given ESTree type.
pub fn is_type(node: &Json, name: &str) -> (r: bool)
    ensures
        r == type_is(node@, name@),
{
    match node.get("type") {
        Some(t) => match t.as_str() {
            Some(s) => same(s, name),
            None => false,
        },
        None => false,
    }
}

/// The text of a field.
pub fn get_text<'a>(node: &'a Json, key: &str) -> (r: Option<&'a str>)
    ensures
        match r {
            Some(s) => text_field(node@, key@) == Some(s@),
            None => text_field(node@, key@) is None,
        },
{
    match node.get(key) {
        Some(x) => x.as_str(),
        None => None,
    }
}

/// Whether a field is `true`.
pub fn get_flag(node: &Json, key: &str) -> (r: bool)
    ensures
        r == flag(node@, key@),
{
    match node.get(key) {
        Some(x) => match x.as_bool() {
            Some(b) => b,
            None => false,
        },
        None => false,
    }
}

/// The number in a field; zero where it holds none that fits into 32 bits.
pub fn get_number(node: &Json, key: &str) -> (r: u32)
    ensures
        r == number_field(node@, key@),
{
    match node.get(key) {
        Some(Json::Number(s)) => {
            let digits = chars_of(s.as_str());
            match parse_u64(&digits) {
                Some(n) => if n <= u32::MAX as u64 {
                    n as u32
                } else {
                    0
                },
                None => 0,
            }
        },
        _ => 0,
    }
}

/// The text of a string literal.
pub fn get_string_literal(node: &Json) -> (r: Option<&str>)
    ensures
        match r {
            Some(s) => string_literal(node@) == Some(s@),
            None => string_literal(node@) is None,
        },
{
    if is_type(node, "Literal") {
        get_text(node, "value")
    } else {
        None
    }
}

/// The name of an identifier.
pub fn get_identifier(node: &Json) -> (r: Option<&str>)
    ensures
        match r {
            Some(s) => identifier(node@) == Some(s@),
            None => identifier(node@) is None,
        },
{
    if is_type(node, "Identifier") {
        get_text(node, "name")
    } else {
        None
    }
}

/// Whether a statement is a directive.
pub fn check_directive(node: &Json) -> (r: bool)
    ensures
        r == is_directive(node@),
{
    is_type(node, "ExpressionStatement") && get_text(node, "directive").is_some()
}

/// Whether a node declares a function.
pub fn check_function_declaration(node: &Json) -> (r: bool)
    ensures
        r == is_function_declaration(node@),
{
    is_type(node, "FunctionDeclaration") || is_type(node, "TSDeclareFunction")
}

/// Whether the node in a field declares a function.
pub fn child_is_function(node: &Json, key: &str) -> (r: bool)
    ensures
        r == is_function_declaration(child(node@, key@)),
{
    match node.get(key) {
        Some(x) => check_function_declaration(x),
        None => false,
    }
}

/// Whether a member expression reads a named property.
pub fn check_static_member(node: &Json) -> (r: bool)
    ensures
        r == is_static_member(node@),
{
    is_type(node, "MemberExpression") && !get_flag(node, "computed") && !has_type(
        node,
        "property",
        "PrivateIdentifier",
    )
}

/// Whether a member expression reads a computed property.
pub fn check_computed_member(node: &Json) -> (r: bool)
    ensures
        r == is_computed_member(node@),
{
    is_type(node, "MemberExpression") && get_flag(node, "computed")
}

/// Whether the node in a field has the given type.
pub fn has_type(node: &Json, key: &str, name: &str) -> (r: bool)
    ensures
        r == type_is(child(node@, key@), name@),
{
    match node.get(key) {
        Some(x) => is_type(x, name),
        None => false,
    }
}

/// The raw text of a template element.
pub fn get_raw_quasi(node: &Json) -> (r: Option<&str>)
    ensures
        match r {
            Some(s) => raw_quasi(node@) == Some(s@),
            None => raw_quasi(node@) is None,
        },
{
    match node.get("value") {
        Some(x) => get_text(x, "raw"),
        None => None,
    }
}

/// Where the text of a template element begins.
pub fn get_quasi_start(node: &Json) -> (r: u32)
    ensures
        r == quasi_start(node@),
{
    let n = get_number(node, "start");
    if n < u32::MAX {
        n + 1
    } else {
        n
    }
}

/// Where the text of a template element ends.
pub fn get_quasi_end(node: &Json) -> (r: u32)
    ensures
        r == quasi_end(node@),
{
    let n = get_number(node, "end");
    let over: u32 = if get_flag(node, "tail") {
        1
    } else {
        2
    };
    if n >= over {
        n - over
    } else {
        0
    }
}

/// Whether a field is there and is not null.
pub open spec fn present(v: JsonV, key: Seq<char>) -> bool {
    field(v, key) is Some && !(child(v, key) is Null)
}

/// Whether a field is there and is not null.
pub fn check_present(node: &Json, key: &str) -> (r: bool)
    ensures
        r == present(node@, key@),
{
    match node.get(key) {
        Some(Json::Null) => false,
        Some(_) => true,
        None => false,
    }
}

/// The models of some nodes.
pub open spec fn node_models(s: Seq<&Json>) -> Seq<JsonV> {
    s.map_values(|n: &Json| n@)
}

/// The nodes in a list field.
pub fn get_children<'a>(node: &'a Json, key: &str) -> (out: Vec<&'a Json>)
    ensures
        node_models(out@) == children(node@, key@),
{
    let mut out: Vec<&'a Json> = Vec::new();
    if let Some(x) = node.get(key) {
        if let Some(list) = x.as_list() {
            let mut i: usize = 0;
            while i < list.len()
                invariant
                    i <= list@.len(),
                    out@.len() == i,
                    forall|k: int| 0 <= k < i ==> #[trigger] out@[k] == list@[k],
                decreases list.len() - i,
            {
                out.push(&list[i]);
                i = i + 1;
            }
        }
    }
    assert(node_models(out@) =~= children(node@, key@));
    out
}

/// The nodes in a list two fields down.
pub fn get_children_in<'a>(node: &'a Json, key: &str, inner: &str) -> (out: Vec<&'a Json>)
    ensures
        node_models(out@) == children(child(node@, key@), inner@),
{
    match node.get(key) {
        Some(x) => get_children(x, inner),
        None => {
            let out: Vec<&'a Json> = Vec::new();
            assert(node_models(out@) =~= children(child(node@, key@), inner@));
            out
        },
    }
}

/// The role in which a walk looks at a node.
#[derive(Debug, Clone, Copy, PartialEq, Eq, Structural)]
pub enum Role {
    /// A statement.
    Statement,
    /// An expression.
    Expression,
    /// What stands inside an optional chain.
    Chain,
    /// A case of a `switch` statement.
    Case,
    /// A declarator of a variable declaration.
    Declarator,
    /// A property of an object expression.
    Property,
    /// A member of a class.
    ClassMember,
    /// A JSX element.
    Element,
    /// A child of a JSX element.
    Child,
    /// An attribute of a JSX element.
    Attribute,
    /// An attribute of a JSX element, looked at for a class list.
    ClassAttribute,
    /// A string literal.
    Literal,
    /// A template element, reported as a whole.
    Quasi,
    /// A template element, reported once for each match in it.
    QuasiMatches,
    /// A call.
    Call,
    /// The expression in a JSX expression container.
    Container,
}

/// A piece of work.
pub ghost struct WorkV {
    pub role: Role,
    pub node: JsonV,
}

/// A piece of work.
pub struct Work<'a> {
    pub role: Role,
    pub node: &'a Json,
}

impl<'a> View for Work<'a> {
    type V = WorkV;

    open spec fn view(&self) -> WorkV {
        WorkV { role: self.role, node: self.node@ }
    }
}

/// The models of pieces of work.
pub open spec fn works(s: Seq<Work>) -> Seq<WorkV> {
    s.map_values(|w: Work| w@)
}

/// How much is left below a piece of work. Statements, expressions and what JSX elements hold may
/// hand their own node on in another role.
pub open spec fn extent(w: WorkV) -> nat {
    json_size(w.node) * 2 + (match w.role {
        Role::Statement | Role::Expression | Role::Child | Role::Container => 1nat,
        _ => 0nat,
    })
}

/// Nothing to do.
pub open spec fn none() -> Seq<WorkV> {
    Seq::empty()
}

/// The node itself in another role.
pub open spec fn itself(v: JsonV, role: Role) -> Seq<WorkV> {
    seq![WorkV { role, node: v }]
}

/// The node in a field.
pub open spec fn one(v: JsonV, key: Seq<char>, role: Role) -> Seq<WorkV> {
    match field(v, key) {
        Some(x) => seq![WorkV { role, node: x }],
        None => Seq::empty(),
    }
}

/// The nodes in a list field.
pub open spec fn each(v: JsonV, key: Seq<char>, role: Role) -> Seq<WorkV> {
    match field(v, key) {
        Some(x) => items(x).map_values(|n: JsonV| WorkV { role, node: n }),
        None => Seq::empty(),
    }
}

/// The node two fields down.
pub open spec fn one_in(v: JsonV, key: Seq<char>, inner: Seq<char>, role: Role) -> Seq<WorkV> {
    match field(v, key) {
        Some(x) => one(x, inner, role),
        None => Seq::empty(),
    }
}

/// The nodes in a list two fields down.
pub open spec fn each_in(v: JsonV, key: Seq<char>, inner: Seq<char>, role: Role) -> Seq<WorkV> {
    match field(v, key) {
        Some(x) => each(x, inner, role),
        None => Seq::empty(),
    }
}

/// Whether every piece of work is smaller than a bound.
pub open spec fn all_below(s: Seq<WorkV>, bound: nat) -> bool {
    forall|i: int| 0 <= i < s.len() ==> extent(#[trigger] s[i]) < bound
}

pub broadcast proof fn lemma_below_add(a: Seq<WorkV>, b: Seq<WorkV>, bound: nat)
    requires
        all_below(a, bound),
        all_below(b, bound),
    ensures
        #[trigger] all_below(a + b, bound),
{
}

pub broadcast proof fn lemma_below_none(bound: nat)
    ensures
        #[trigger] all_below(none(), bound),
{
}

pub broadcast proof fn lemma_below_one(v: JsonV, key: Seq<char>, role: Role, bound: nat)
    requires
        json_size(v) * 2 <= bound,
    ensures
        #[trigger] all_below(one(v, key, role), bound),
{
    if field(v, key) is Some {
        lemma_field_smaller(v, key);
    }
}

pub broadcast proof fn lemma_below_each(v: JsonV, key: Seq<char>, role: Role, bound: nat)
    requires
        json_size(v) * 2 <= bound,
    ensures
        #[trigger] all_below(each(v, key, role), bound),
{
    if field(v, key) is Some {
        lemma_field_smaller(v, key);
        let x = field(v, key)->0;
        let s = each(v, key, role);
        assert forall|i: int| 0 <= i < s.len() implies extent(#[trigger] s[i]) < bound by {
            assert(s[i].node == items(x)[i]);
            lemma_item_smaller(x, i);
        }
    }
}

pub broadcast proof fn lemma_below_one_in(
    v: JsonV,
    key: Seq<char>,
    inner: Seq<char>,
    role: Role,
    bound: nat,
)
    requires
        json_size(v) * 2 <= bound,
    ensures
        #[trigger] all_below(one_in(v, key, inner, role), bound),
{
    if field(v, key) is Some {
        lemma_field_smaller(v, key);
        lemma_below_one(field(v, key)->0, inner, role, bound);
    }
}

pub broadcast proof fn lemma_below_each_in(
    v: JsonV,
    key: Seq<char>,
    inner: Seq<char>,
    role: Role,
    bound: nat,
)
    requires
        json_size(v) * 2 <= bound,
    ensures
        #[trigger] all_below(each_in(v, key, inner, role), bound),
{
    if field(v, key) is Some {
        lemma_field_smaller(v, key);
        lemma_below_each(field(v, key)->0, inner, role, bound);
    }
}

pub broadcast proof fn lemma_below_itself(v: JsonV, role: Role, bound: nat)
    requires
        json_size(v) * 2 < bound,
        !(role is Statement || role is Expression || role is Child || role is Container),
    ensures
        #[trigger] all_below(itself(v, role), bound),
{
}

pub broadcast group group_below {
    lemma_below_add,
    lemma_below_none,
    lemma_below_one,
    lemma_below_each,
    lemma_below_one_in,
    lemma_below_each_in,
    lemma_below_itself,
}

/// Adds the node itself in another role.
pub fn add_itself<'a>(out: &mut Vec<Work<'a>>, node: &'a Json, role: Role)
    ensures
        works(final(out)@) == works(old(out)@) + itself(node@, role),
{
    out.push(Work { role, node });
    assert(works(out@) =~= works(old(out)@) + itself(node@, role));
}

/// Adds the node in a field.
pub fn add_one<'a>(out: &mut Vec<Work<'a>>, node: &'a Json, key: &str, role: Role)
    ensures
        works(final(out)@) == works(old(out)@) + one(node@, key@, role),
{
    if let Some(x) = node.get(key) {
        out.push(Work { role, node: x });
    }
    assert(works(out@) =~= works(old(out)@) + one(node@, key@, role));
}

/// Adds the nodes in a list field.
pub fn add_each<'a>(out: &mut Vec<Work<'a>>, node: &'a Json, key: &str, role: Role)
    ensures
        works(final(out)@) == works(old(out)@) + each(node@, key@, role),
{
    if let Some(x) = node.get(key) {
        if let Some(list) = x.as_list() {
            let ghost all = each(node@, key@, role);
            let mut i: usize = 0;
            while i < list.len()
                invariant
                    i <= list@.len(),
                    field(node@, key@) == Some(x@),
                    all == each(node@, key@, role),
                    list@.len() == items(x@).len(),
                    forall|k: int|
                        0 <= k < list@.len() ==> (#[trigger] list@[k])@ == items(x@)[k],
                    works(out@) == works(old(out)@) + all.take(i as int),
                decreases list.len() - i,
            {
                let ghost before = works(out@);
                out.push(Work { role, node: &list[i] });
                assert(works(out@) =~= before.push(all[i as int]));
                i = i + 1;
                assert(works(out@) =~= works(old(out)@) + all.take(i as int));
            }
            assert(all.take(all.len() as int) =~= all);
            return;
        }
    }
    assert(works(out@) =~= works(old(out)@) + each(node@, key@, role));
}

/// Adds the node two fields down.
pub fn add_one_in<'a>(
    out: &mut Vec<Work<'a>>,
    node: &'a Json,
    key: &str,
    inner: &str,
    role: Role,
)
    ensures
        works(final(out)@) == works(old(out)@) + one_in(node@, key@, inner@, role),
{
    match node.get(key) {
        Some(x) => add_one(out, x, inner, role),
        None => {
            assert(works(out@) =~= works(old(out)@) + Seq::<WorkV>::empty());
        },
    }
}

/// Adds the nodes in a list two fields down.
pub fn add_each_in<'a>(
    out: &mut Vec<Work<'a>>,
    node: &'a Json,
    key: &str,
    inner: &str,
    role: Role,
)
    ensures
        works(final(out)@) == works(old(out)@) + each_in(node@, key@, inner@, role),
{
    match node.get(key) {
        Some(x) => add_each(out, x, inner, role),
        None => {
            assert(works(out@) =~= works(old(out)@) + Seq::<WorkV>::empty());
        },
    }
}

} // verus!
