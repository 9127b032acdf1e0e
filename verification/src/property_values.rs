//! The values that object literals give to their properties.
//!
//! The index lists the names of the properties of an object literal and its place. The values are
//! read from the source text of the file.

use crate::estree::{
    children, get_children, get_number, get_string_literal, is_type, node_models,
    number_field, string_literal, type_is,
};
use crate::json::{field, items, json_size, lemma_entries_size, lemma_item_smaller, Json, JsonV};
use crate::object_props::{get_key_name, key_name};
use crate::project_index::{IndexedFile, Span};
use crate::scanner::{kind_of, parse_program, program_of, source_type_for_file};
use crate::spans::{slice_within, text_within};
use crate::text::same;
use vstd::prelude::*;

verus! {

/// The value that the first `n` properties give to a name: the last of them that has the name
/// counts.
pub open spec fn given_value(properties: Seq<JsonV>, n: int, name: Seq<char>) -> Option<JsonV>
    decreases n,
{
    if n <= 0 || n > properties.len() {
        None
    } else if key_name(properties[n - 1]) == Some(name) {
        field(properties[n - 1], "value"@)
    } else {
        given_value(properties, n - 1, name)
    }
}

/// Whether a node lies within a span.
pub open spec fn lies_within(v: JsonV, span: Span) -> bool {
    (Span { start: number_field(v, "start"@), end: number_field(v, "end"@) }).within(span)
}

/// The value that a node itself gives to a name, where it is an object literal within a span.
pub open spec fn own_value(v: JsonV, span: Span, name: Seq<char>) -> Option<JsonV> {
    let properties = children(v, "properties"@);
    if type_is(v, "ObjectExpression"@) && lies_within(v, span) {
        given_value(properties, properties.len() as int, name)
    } else {
        None
    }
}

/// The value that the first of the object literals within a span, outer ones before inner ones,
/// gives to a name.
pub open spec fn value_in(v: JsonV, span: Span, name: Seq<char>) -> Option<JsonV>
    decreases v, 0nat,
{
    match own_value(v, span, name) {
        Some(x) => Some(x),
        None => match v {
            JsonV::List(s) => value_among(s, 0, span, name),
            JsonV::Object(s) => value_under(s, 0, span, name),
            _ => None,
        },
    }
}

/// The value that is found first in the values of a list from index `i` on.
pub open spec fn value_among(s: Seq<JsonV>, i: nat, span: Span, name: Seq<char>) -> Option<JsonV>
    decreases s, (s.len() - i) as nat,
{
    if i >= s.len() {
        None
    } else {
        match value_in(s[i as int], span, name) {
            Some(x) => Some(x),
            None => value_among(s, i + 1, span, name),
        }
    }
}

/// The value that is found first in the fields of a node from index `i` on.
pub open spec fn value_under(
    s: Seq<(Seq<char>, JsonV)>,
    i: nat,
    span: Span,
    name: Seq<char>,
) -> Option<JsonV>
    decreases s, (s.len() - i) as nat,
{
    if i >= s.len() {
        None
    } else {
        match value_in(s[i as int].1, span, name) {
            Some(x) => Some(x),
            None => value_under(s, i + 1, span, name),
        }
    }
}

/// The text of a value: the string, or else the source text of the expression.
pub open spec fn value_text(v: JsonV, source: Seq<char>) -> Seq<char> {
    match string_literal(v) {
        Some(s) => s,
        None => text_within(
            source,
            number_field(v, "start"@) as int,
            number_field(v, "end"@) as int,
        ),
    }
}

/// The syntax tree of a file; nothing where it cannot be parsed.
pub open spec fn file_tree(file: IndexedFile) -> Option<JsonV> {
    match program_of(file.source_text@, kind_of(file.path@, file.source_text@)) {
        Ok(v) => Some(v),
        Err(_) => None,
    }
}

/// The text of the value that an object literal within a span of a file gives to a name; empty
/// where there is none.
pub open spec fn property_value(file: IndexedFile, span: Span, name: Seq<char>) -> Seq<char> {
    match file_tree(file) {
        Some(program) => match value_in(program, span, name) {
            Some(v) => value_text(v, file.source_text@),
            None => ""@,
        },
        None => ""@,
    }
}

/// What an optional tree holds.
pub open spec fn tree_view(tree: Option<Json>) -> Option<JsonV> {
    match tree {
        Some(j) => Some(j@),
        None => None,
    }
}

/// What an optional node holds.
pub open spec fn node_view(node: Option<&Json>) -> Option<JsonV> {
    match node {
        Some(j) => Some(j@),
        None => None,
    }
}

/// Parses the source text of a file of the index.
pub fn parse_file(file: &IndexedFile) -> (r: Option<Json>)
    ensures
        tree_view(r) == file_tree(*file),
{
    let source = file.source_text.as_str();
    let kind = source_type_for_file(file.path.as_str(), source);
    match parse_program(source, kind) {
        Ok(j) => Some(j),
        Err(_) => None,
    }
}

fn find_given<'a>(node: &'a Json, name: &str) -> (r: Option<&'a Json>)
    ensures
        node_view(r) == given_value(
            children(node@, "properties"@),
            children(node@, "properties"@).len() as int,
            name@,
        ),
{
    let properties = get_children(node, "properties");
    let ghost list = children(node@, "properties"@);
    let mut i: usize = properties.len();
    while i > 0
        invariant
            i <= properties@.len(),
            list == children(node@, "properties"@),
            list == node_models(properties@),
            given_value(list, list.len() as int, name@) == given_value(list, i as int, name@),
        decreases i,
    {
        i = i - 1;
        assert(list[i as int] == properties@[i as int]@);
        if let Some(key) = get_key_name(properties[i]) {
            if same(key, name) {
                return properties[i].get("value");
            }
        }
    }
    None
}

fn find_own<'a>(node: &'a Json, span: Span, name: &str) -> (r: Option<&'a Json>)
    ensures
        node_view(r) == own_value(node@, span, name@),
{
    if is_type(node, "ObjectExpression") && span.start <= get_number(node, "start") && get_number(
        node,
        "end",
    ) <= span.end {
        find_given(node, name)
    } else {
        None
    }
}

/// The value that the first of the object literals within a span, outer ones before inner ones,
/// gives to a name.
pub fn find_value<'a>(node: &'a Json, span: Span, name: &str) -> (r: Option<&'a Json>)
    ensures
        node_view(r) == value_in(node@, span, name@),
    decreases json_size(node@),
{
    if let Some(x) = find_own(node, span, name) {
        return Some(x);
    }
    match node {
        Json::List(list) => {
            let ghost s = node@->List_0;
            let mut i: usize = 0;
            while i < list.len()
                invariant
                    i <= list@.len(),
                    *node == Json::List(*list),
                    node@ == JsonV::List(s),
                    s.len() == list@.len(),
                    value_in(node@, span, name@) == value_among(s, i as nat, span, name@),
                decreases list.len() - i,
            {
                assert(items(node@)[i as int] == list@[i as int]@);
                proof {
                    lemma_item_smaller(node@, i as int);
                }
                if let Some(x) = find_value(&list[i], span, name) {
                    return Some(x);
                }
                i = i + 1;
            }
            None
        },
        Json::Object(entries) => {
            let ghost s = node@->Object_0;
            let mut i: usize = 0;
            while i < entries.len()
                invariant
                    i <= entries@.len(),
                    *node == Json::Object(*entries),
                    node@ == JsonV::Object(s),
                    s.len() == entries@.len(),
                    value_in(node@, span, name@) == value_under(s, i as nat, span, name@),
                decreases entries.len() - i,
            {
                assert(s[i as int] == (entries@[i as int].0@, entries@[i as int].1@));
                proof {
                    lemma_entries_size(s, s.len(), i as int);
                }
                if let Some(x) = find_value(&entries[i].1, span, name) {
                    return Some(x);
                }
                i = i + 1;
            }
            None
        },
        _ => None,
    }
}

/// The text of the value that an object literal within a span of a file gives to a name, read
/// from the syntax tree of the file.
pub fn read_value(file: &IndexedFile, tree: &Option<Json>, span: Span, name: &str) -> (r: String)
    requires
        tree_view(*tree) == file_tree(*file),
    ensures
        r@ == property_value(*file, span, name@),
{
    let program = match tree {
        Some(p) => p,
        None => return "".to_owned(),
    };
    let node = match find_value(program, span, name) {
        Some(n) => n,
        None => return "".to_owned(),
    };
    match get_string_literal(node) {
        Some(s) => s.to_owned(),
        None => slice_within(
            file.source_text.as_str(),
            get_number(node, "start"),
            get_number(node, "end"),
        ),
    }
}

} // verus!
