//! Where the values of properties and attributes are found, and which paths and names lead on.

use crate::estree::{child, is_static_member, number_field, string_literal, text_field, type_is};
use crate::exports::reexport_paths;
use crate::fix::{entry_strategy, strategies_of, EntryV};
use crate::incident::{opt_view, IncidentV};
use crate::index_lookup::{appended, based, settled, stem, with_extension, with_index};
use crate::json::JsonV;
use crate::jsx_context::{text_list, JsxV};
use crate::jsx_element::{attribute_value, with_value};
use crate::object_props::attribute_strings;
use crate::paths::{components, segment_parts, Part};
use crate::plan_laws::lemma_pushed;
use crate::printed_tree::mended_from;
use crate::project_index::{ImportDecl, ImportedSymbol, IndexedFile, Span};
use crate::property_values::{
    file_tree, own_value, property_value, value_among, value_in, value_text, value_under,
};
use crate::query_names::is_called;
use crate::query_parents::{call_parent, called_in, imported_as, use_in, value_parent};
use crate::spans::text_within;
use crate::text::{has_at, last_index, split, trimmed};
use vstd::prelude::*;

verus! {

// ---- Values of properties ----

/// A node that is an object within the span and has the property gives the value itself.
pub proof fn law_own_value_first(v: JsonV, span: Span, name: Seq<char>)
    requires
        own_value(v, span, name) is Some,
    ensures
        value_in(v, span, name) == own_value(v, span, name),
{
}

/// In a list the first item in which a value is found gives it.
pub proof fn law_value_among(s: Seq<JsonV>, from: nat, span: Span, name: Seq<char>, k: nat)
    requires
        from <= k < s.len(),
        value_in(s[k as int], span, name) is Some,
        forall|j: int| from <= j < k ==> value_in(#[trigger] s[j], span, name) is None,
    ensures
        value_among(s, from, span, name) == value_in(s[k as int], span, name),
    decreases k - from,
{
    if from < k {
        assert(value_in(s[from as int], span, name) is None);
        law_value_among(s, from + 1, span, name, k);
    }
}

/// In a node the first field in which a value is found gives it.
pub proof fn law_value_under(
    s: Seq<(Seq<char>, JsonV)>,
    from: nat,
    span: Span,
    name: Seq<char>,
    k: nat,
)
    requires
        from <= k < s.len(),
        value_in(s[k as int].1, span, name) is Some,
        forall|j: int| from <= j < k ==> value_in((#[trigger] s[j]).1, span, name) is None,
    ensures
        value_under(s, from, span, name) == value_in(s[k as int].1, span, name),
    decreases k - from,
{
    if from < k {
        assert(value_in(s[from as int].1, span, name) is None);
        law_value_under(s, from + 1, span, name, k);
    }
}

/// A node that does not give the value itself is searched: a list by its items, an object by its
/// fields.
pub proof fn law_value_inside(v: JsonV, span: Span, name: Seq<char>)
    requires
        own_value(v, span, name) is None,
    ensures
        v is List ==> value_in(v, span, name) == value_among(v->List_0, 0, span, name),
        v is Object ==> value_in(v, span, name) == value_under(v->Object_0, 0, span, name),
        !(v is List) && !(v is Object) ==> value_in(v, span, name) is None,
{
}

/// The value of a property of a file is the text of what its tree gives, and empty where it gives
/// nothing or cannot be parsed.
pub proof fn law_property_value(file: IndexedFile, span: Span, name: Seq<char>)
    ensures
        file_tree(file) is None ==> property_value(file, span, name).len() == 0,
        file_tree(file) is Some && value_in(file_tree(file)->0, span, name) is None
            ==> property_value(file, span, name).len() == 0,
        file_tree(file) is Some && value_in(file_tree(file)->0, span, name) is Some
            ==> property_value(file, span, name) == value_text(
            value_in(file_tree(file)->0, span, name)->0,
            file.source_text@,
        ),
{
    reveal_strlit("");
}

// ---- Values of attributes ----

/// The value of an attribute: a string as it is; of a member, the name of the property; of any
/// other expression, the text between the braces.
pub proof fn law_attribute_value(value: JsonV, source: Seq<char>, s: Seq<char>)
    ensures
        string_literal(value) == Some(s) ==> attribute_value(value, source) == Some(s),
        type_is(value, "JSXExpressionContainer"@) && string_literal(value) is None
            && is_static_member(child(value, "expression"@)) && text_field(
            child(child(value, "expression"@), "property"@),
            "name"@,
        ) == Some(s) ==> attribute_value(value, source) == Some(s),
        type_is(value, "JSXExpressionContainer"@) && string_literal(value) is None
            && !is_static_member(child(value, "expression"@)) && number_field(value, "start"@)
            < u32::MAX && number_field(value, "end"@) > 0 ==> attribute_value(value, source) == Some(
            trimmed(
                text_within(
                    source,
                    number_field(value, "start"@) + 1,
                    number_field(value, "end"@) - 1,
                ),
            ),
        ),
        !type_is(value, "JSXExpressionContainer"@) && string_literal(value) is None
            ==> attribute_value(value, source) is None,
{
}

/// The strings in the value of an attribute are told where there are any.
pub proof fn law_strings_told(i: IncidentV, value: JsonV, jsx: JsxV)
    requires
        type_is(value, "JSXExpressionContainer"@),
        attribute_strings(child(value, "expression"@)).len() > 0,
    ensures
        with_value(i, value, jsx).variables.dom().contains("propObjectValues"@),
        with_value(i, value, jsx).variables["propObjectValues"@] == text_list(
            attribute_strings(child(value, "expression"@)),
        ),
{
}

/// A list of texts holds each of them, in their order.
pub proof fn law_text_list(list: Seq<Seq<char>>, k: int)
    requires
        0 <= k < list.len(),
    ensures
        text_list(list) is List,
        text_list(list)->List_0.len() == list.len(),
        text_list(list)->List_0[k] == JsonV::Text(list[k]),
{
}

// ---- Re-exports ----

/// The paths that a file re-exports from are those of its named re-exports and its `export *`.
pub proof fn law_reexport_paths(body: Seq<JsonV>, n: int, path: Seq<char>)
    requires
        0 <= n <= body.len(),
    ensures
        reexport_paths(body, n).contains(path) <==> exists|k: int|
            {
                &&& 0 <= k < n
                &&& type_is(#[trigger] body[k], "ExportNamedDeclaration"@) || type_is(
                    body[k],
                    "ExportAllDeclaration"@,
                )
                &&& string_literal(child(body[k], "source"@)) == Some(path)
            },
    decreases n,
{
    if n > 0 {
        law_reexport_paths(body, n - 1, path);
        let before = reexport_paths(body, n - 1);
        if let Some(p) = string_literal(child(body[n - 1], "source"@)) {
            lemma_pushed(before, p, path);
        }
    }
}

// ---- Uses in other files ----

/// The local name of a function is that of the first symbol of the first import that is known under
/// its name, on either side.
pub proof fn law_called_in(symbols: Seq<ImportedSymbol>, name: Seq<char>, from: int, k: int)
    requires
        0 <= from <= k < symbols.len(),
        symbols[k].name@ == name || opt_view(symbols[k].alias) == Some(name),
        forall|j: int|
            from <= j < k ==> (#[trigger] symbols[j]).name@ != name && opt_view(symbols[j].alias)
                != Some(name),
    ensures
        called_in(symbols, name, from) == Some(
            if symbols[k].alias is Some {
                symbols[k].alias->0@
            } else {
                symbols[k].name@
            },
        ),
    decreases k - from,
{
    if from < k {
        assert(symbols[from].name@ != name);
        assert(!is_called(symbols[from], name));
        law_called_in(symbols, name, from + 1, k);
    } else {
        assert(is_called(symbols[k], name));
    }
}

/// The first import that knows of a function counts.
pub proof fn law_imported_as(imports: Seq<ImportDecl>, name: Seq<char>, from: int, k: int)
    requires
        0 <= from <= k < imports.len(),
        called_in(imports[k].symbols@, name, 0) is Some,
        forall|j: int|
            from <= j < k ==> called_in((#[trigger] imports[j]).symbols@, name, 0) is None,
    ensures
        imported_as(imports, name, from) == called_in(imports[k].symbols@, name, 0),
    decreases k - from,
{
    if from < k {
        assert(called_in(imports[from].symbols@, name, 0) is None);
        law_imported_as(imports, name, from + 1, k);
    }
}

/// A file that imports a function uses it where it calls it inside of an element, or else where it
/// hands it to one; a file that does not import it does not use it.
pub proof fn law_use_in(file: IndexedFile, name: Seq<char>, local: Seq<char>)
    ensures
        imported_as(file.imports@, name, 0) is None ==> use_in(file, name) is None,
        imported_as(file.imports@, name, 0) == Some(local) && call_parent(
            file.symbol_refs@,
            local,
            0,
        ) is Some ==> use_in(file, name) == call_parent(file.symbol_refs@, local, 0),
        imported_as(file.imports@, name, 0) == Some(local) && call_parent(
            file.symbol_refs@,
            local,
            0,
        ) is None ==> use_in(file, name) == value_parent(file.symbol_refs@, local, 0),
{
}

// ---- Import paths ----

/// An import path is taken from the directory of the file that it stands in.
pub proof fn law_based(path: Seq<char>, relative: Seq<char>)
    requires
        components(path).len() > 1,
    ensures
        appended(path, relative) == components(path).drop_last() + segment_parts(
            split(relative, '/'),
            split(relative, '/').len() as int,
        ),
        based(path, relative) == settled(
            appended(path, relative),
            appended(path, relative).len() as int,
        ),
{
}

/// An extension takes the place of the one that a name has; a name without one gets it.
pub proof fn law_extension_replaced(
    dir: Seq<(Part, Seq<char>)>,
    name: Seq<char>,
    ext: Seq<char>,
)
    ensures
        with_extension(dir.push((Part::Name, name)), ext) == dir.push(
            (Part::Name, stem(name) + seq!['.'] + ext),
        ),
        !name.contains('.') ==> stem(name) == name,
        with_index(dir, ext) == dir.push((Part::Name, "index."@ + ext)),
{
    reveal_strlit(".");
    assert("."@ =~= seq!['.']);
    assert(dir.push((Part::Name, name)).drop_last() =~= dir);
    if !name.contains('.') {
        lemma_no_dot(name, name.len() as int);
    }
}

proof fn lemma_no_dot(name: Seq<char>, n: int)
    requires
        !name.contains('.'),
        0 <= n <= name.len(),
    ensures
        last_index(name, '.', n) is None,
    decreases n,
{
    if n > 0 {
        assert(name[n - 1] != '.') by {
            if name[n - 1] == '.' {
                assert(name.contains('.'));
            }
        }
        lemma_no_dot(name, n - 1);
    }
}

// ---- Strategies ----

/// Every entry of a strategy file gives its rule a strategy, in their order.
pub proof fn law_strategies(entries: Seq<(Seq<char>, EntryV)>, k: int)
    requires
        0 <= k < entries.len(),
    ensures
        strategies_of(entries).len() == entries.len(),
        strategies_of(entries)[k].0 == entries[k].0,
        strategies_of(entries)[k].1 == entry_strategy(entries[k].1),
{
}

// ---- Printed trees ----

/// Inside of a string an escaped surrogate becomes the replacement character, with the four digits
/// of the surrogate behind it.
pub proof fn law_surrogate_replaced(s: Seq<char>, i: int)
    requires
        0 <= i,
        i + 6 <= s.len(),
        s[i] == '\\' && s[i + 1] == 'u',
        s[i + 2] == 'd' || s[i + 2] == 'D',
        '8' <= s[i + 3] <= '9' || 'a' <= s[i + 3] <= 'f' || 'A' <= s[i + 3] <= 'F',
    ensures
        mended_from(s, i, true) == "\\ufffd"@ + s.subrange(i + 2, i + 6) + mended_from(
            s,
            i + 6,
            true,
        ),
{
}

/// Outside of strings an infinite number becomes a large one.
pub proof fn law_infinity_replaced(s: Seq<char>, i: int)
    requires
        has_at(s, "1e+400"@, i),
    ensures
        mended_from(s, i, false) == "1e308"@ + mended_from(s, i + 6, false),
        mended_from(s, i, true) == seq![s[i]] + mended_from(s, i + 1, true),
{
    reveal_strlit("1e+400");
    assert("1e+400"@.len() == 6);
    assert(s.subrange(i, i + 6)[0] == s[i]);
    assert("1e+400"@[0] == '1');
}

} // verus!
