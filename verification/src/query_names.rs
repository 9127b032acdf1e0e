//! What a query asks of the names in an indexed file: where they are imported from, and which
//! component a props type belongs to.

use crate::index_lookup::symbol_named;
use crate::pattern::{regex_accepts, regex_source};
use crate::project_index::{
    local_name, specifier, ImportDecl, ImportedSymbol, IndexedFile, TypeAnnotation,
};
use crate::text::{
    chars_of, ends_with, lemma_split_len, same, split, split_on, text_of, trim, trimmed,
};
use vstd::prelude::*;

verus! {

/// Whether a symbol is known under a name, in the file or where it comes from.
pub open spec fn is_called(s: ImportedSymbol, name: Seq<char>) -> bool {
    local_name(s) == name || s.name@ == name
}

/// Whether one of some symbols is known under a name.
pub open spec fn binds(symbols: Seq<ImportedSymbol>, name: Seq<char>) -> bool {
    exists|i: int| 0 <= i < symbols.len() && #[trigger] is_called(symbols[i], name)
}

/// The module path of the first import, from index `i` on, that binds a name.
pub open spec fn module_from(imports: Seq<ImportDecl>, i: int, name: Seq<char>) -> Option<Seq<char>>
    decreases imports.len() - i,
{
    if i < 0 || i >= imports.len() {
        None
    } else if binds(imports[i].symbols@, name) {
        Some(specifier(imports[i]))
    } else {
        module_from(imports, i + 1, name)
    }
}

/// Whether an import binds a name and comes from a module that matches.
pub open spec fn comes_from(i: ImportDecl, name: Seq<char>, pattern: Seq<char>) -> bool {
    binds(i.symbols@, name) && (regex_accepts(pattern, specifier(i)) || regex_accepts(
        pattern,
        i.source@,
    ))
}

/// Whether a name is imported from a module that matches.
pub open spec fn imported_from(imports: Seq<ImportDecl>, name: Seq<char>, pattern: Seq<char>) -> bool {
    exists|i: int| 0 <= i < imports.len() && #[trigger] comes_from(imports[i], name, pattern)
}

/// The package of the first import, from index `i` on, that binds a local name.
pub open spec fn package_from(imports: Seq<ImportDecl>, i: int, name: Seq<char>) -> Option<Seq<char>>
    decreases imports.len() - i,
{
    if i < 0 || i >= imports.len() {
        None
    } else if symbol_named(imports[i].symbols@, name, 0) is Some {
        Some(imports[i].source@)
    } else {
        package_from(imports, i + 1, name)
    }
}

/// Whether one of some symbols is known under a name.
pub fn check_binds(symbols: &Vec<ImportedSymbol>, name: &str) -> (r: bool)
    ensures
        r == binds(symbols@, name@),
{
    let mut i: usize = 0;
    while i < symbols.len()
        invariant
            i <= symbols@.len(),
            forall|k: int| 0 <= k < i ==> !#[trigger] is_called(symbols@[k], name@),
        decreases symbols.len() - i,
    {
        if same(symbols[i].get_local_name(), name) || same(symbols[i].name.as_str(), name) {
            assert(is_called(symbols@[i as int], name@));
            return true;
        }
        i = i + 1;
    }
    false
}

/// Whether an import of a name in a file comes from a module that matches.
pub fn import_matches_from(file: &IndexedFile, name: &str, from: &regex::Regex) -> (r: bool)
    ensures
        r == imported_from(file.imports@, name@, regex_source(*from)),
{
    let ghost p = regex_source(*from);
    let mut i: usize = 0;
    while i < file.imports.len()
        invariant
            i <= file.imports@.len(),
            p == regex_source(*from),
            forall|k: int| 0 <= k < i ==> !#[trigger] comes_from(file.imports@[k], name@, p),
        decreases file.imports.len() - i,
    {
        let import = &file.imports[i];
        if check_binds(&import.symbols, name) && (from.is_match(import.get_specifier())
            || from.is_match(import.source.as_str())) {
            assert(comes_from(file.imports@[i as int], name@, p));
            return true;
        }
        i = i + 1;
    }
    false
}

/// Find the module specifier that a symbol was imported from.
pub fn find_import_module<'a>(file: &'a IndexedFile, name: &str) -> (r: Option<&'a str>)
    ensures
        match r {
            Some(m) => module_from(file.imports@, 0, name@) == Some(m@),
            None => module_from(file.imports@, 0, name@) is None,
        },
{
    let mut i: usize = 0;
    while i < file.imports.len()
        invariant
            i <= file.imports@.len(),
            module_from(file.imports@, 0, name@) == module_from(
                file.imports@,
                i as int,
                name@,
            ),
        decreases file.imports.len() - i,
    {
        if check_binds(&file.imports[i].symbols, name) {
            return Some(file.imports[i].get_specifier());
        }
        i = i + 1;
    }
    None
}

/// Whether one of some symbols has a local name.
pub fn has_local(symbols: &Vec<ImportedSymbol>, name: &str) -> (r: bool)
    ensures
        r == (symbol_named(symbols@, name@, 0) is Some),
{
    let mut i: usize = 0;
    while i < symbols.len()
        invariant
            i <= symbols@.len(),
            symbol_named(symbols@, name@, 0) == symbol_named(symbols@, name@, i as int),
        decreases symbols.len() - i,
    {
        if same(symbols[i].get_local_name(), name) {
            return true;
        }
        i = i + 1;
    }
    false
}

/// The package that a local name is imported from.
pub fn find_import_package<'a>(file: &'a IndexedFile, name: &str) -> (r: Option<&'a str>)
    ensures
        match r {
            Some(m) => package_from(file.imports@, 0, name@) == Some(m@),
            None => package_from(file.imports@, 0, name@) is None,
        },
{
    let mut i: usize = 0;
    while i < file.imports.len()
        invariant
            i <= file.imports@.len(),
            package_from(file.imports@, 0, name@) == package_from(
                file.imports@,
                i as int,
                name@,
            ),
        decreases file.imports.len() - i,
    {
        if has_local(&file.imports[i].symbols, name) {
            return Some(file.imports[i].source.as_str());
        }
        i = i + 1;
    }
    None
}

/// The first part of a dotted name.
pub open spec fn first_part(name: Seq<char>) -> Seq<char> {
    split(name, '.')[0]
}

/// The last part of a dotted name.
pub open spec fn last_part(name: Seq<char>) -> Seq<char> {
    split(name, '.').last()
}

/// The first part of a dotted name.
pub fn get_first_part(name: &str) -> (r: String)
    ensures
        r@ == first_part(name@),
{
    let parts = split_on(name, '.');
    proof {
        lemma_split_len(name@, '.');
    }
    assert(split(name@, '.')[0] == parts@[0]@);
    parts[0].as_str().to_owned()
}

/// The last part of a dotted name.
pub fn get_last_part(name: &str) -> (r: String)
    ensures
        r@ == last_part(name@),
{
    let parts = split_on(name, '.');
    proof {
        lemma_split_len(name@, '.');
    }
    let n: usize = parts.len();
    assert(split(name@, '.')[n - 1] == parts@[n - 1]@);
    parts[n - 1].as_str().to_owned()
}

/// Whether a name matches as a whole or by its last part.
pub open spec fn matches_component(name: Seq<char>, pattern: Seq<char>) -> bool {
    regex_accepts(pattern, name) || regex_accepts(pattern, last_part(name))
}

/// Whether a component name matches. For member expressions like `Toolbar.Item` both the full
/// name and the last segment count.
pub fn component_matches(name: &str, pattern: &regex::Regex) -> (r: bool)
    ensures
        r == matches_component(name@, regex_source(*pattern)),
{
    if pattern.is_match(name) {
        return true;
    }
    let short = get_last_part(name);
    pattern.is_match(short.as_str())
}

/// Whether a type name is that of a props type.
pub open spec fn is_props_name(name: Seq<char>) -> bool {
    "Props"@.is_suffix_of(name)
}

/// Whether a type is a wrapper around the type that counts.
pub open spec fn is_wrapper(name: Seq<char>) -> bool {
    name == "Partial"@ || name == "Required"@ || name == "Readonly"@ || name == "Omit"@ || name
        == "Pick"@
}

fn check_wrapper(name: &str) -> (r: bool)
    ensures
        r == is_wrapper(name@),
{
    same(name, "Partial") || same(name, "Required") || same(name, "Readonly") || same(name, "Omit")
        || same(name, "Pick")
}

/// The props type that an annotation names: directly, inside a wrapper, or among the members of a
/// union or an intersection.
pub open spec fn props_annotation(ta: TypeAnnotation) -> Option<Seq<char>>
    decreases ta, 1nat, 0nat,
{
    if ta.name is Some && is_props_name(ta.name->0@) {
        Some(ta.name->0@)
    } else if ta.name is Some && is_wrapper(ta.name->0@) && ta.type_arguments@.len() > 0 {
        props_annotation(ta.type_arguments@[0])
    } else {
        props_component(ta, 0)
    }
}

/// The props type that the first of the members, from index `i` on, names.
pub open spec fn props_component(ta: TypeAnnotation, i: int) -> Option<Seq<char>>
    decreases ta, 0nat, ta.components@.len() - i,
{
    if i < 0 || i >= ta.components@.len() {
        None
    } else {
        match props_annotation(ta.components@[i]) {
            Some(name) => Some(name),
            None => props_component(ta, i + 1),
        }
    }
}

/// Extract the inner props type name from a type annotation, handling wrapper types like
/// `Partial<T>`, `Omit<T, K>`, `Required<T>`.
pub fn extract_props_type_name(ta: &TypeAnnotation) -> (r: Option<String>)
    ensures
        (match r {
            Some(n) => Some(n@),
            None => None,
        }) == props_annotation(*ta),
    decreases *ta,
{
    if let Some(name) = &ta.name {
        if ends_with(name.as_str(), "Props") {
            return Some(name.as_str().to_owned());
        }
        if check_wrapper(name.as_str()) && ta.type_arguments.len() > 0 {
            return extract_props_type_name(&ta.type_arguments[0]);
        }
    }
    let mut i: usize = 0;
    while i < ta.components.len()
        invariant
            i <= ta.components@.len(),
            props_annotation(*ta) == props_component(*ta, i as int),
        decreases ta.components.len() - i,
    {
        if let Some(name) = extract_props_type_name(&ta.components[i]) {
            return Some(name);
        }
        i = i + 1;
    }
    None
}

/// The index of the first `c` from index `i` on; the end where there is none.
pub open spec fn index_or_end(s: Seq<char>, c: char, i: int) -> int
    decreases s.len() - i,
{
    if i < 0 || i >= s.len() || s[i] == c {
        i
    } else {
        index_or_end(s, c, i + 1)
    }
}

/// The index of the first comma or closing bracket from index `i` on; the end where there is
/// none.
pub open spec fn argument_end(s: Seq<char>, i: int) -> int
    decreases s.len() - i,
{
    if i < 0 || i >= s.len() || s[i] == ',' || s[i] == '>' {
        i
    } else {
        argument_end(s, i + 1)
    }
}

/// The first type argument in a type that is written down; `p` is the index of its opening
/// bracket.
pub open spec fn first_argument(raw: Seq<char>, p: int) -> Seq<char> {
    trimmed(raw.subrange(p + 1, argument_end(raw, p + 1)))
}

/// The props type in a type that is written down.
pub open spec fn props_text(raw: Seq<char>) -> Option<Seq<char>> {
    let p = index_or_end(raw, '<', 0);
    if p < raw.len() && is_wrapper(raw.take(p)) && is_props_name(first_argument(raw, p)) {
        Some(first_argument(raw, p))
    } else if is_props_name(raw) {
        Some(raw)
    } else {
        None
    }
}

/// Extract the inner props type name from a raw type annotation string.
///
/// `"ToolbarItemProps"`, `"Partial<ToolbarItemProps>"` and `"Omit<ToolbarItemProps, 'key'>"` all
/// give `"ToolbarItemProps"`; `"string"` gives nothing.
pub fn extract_props_type_name_from_raw(raw: &str) -> (r: Option<String>)
    ensures
        (match r {
            Some(n) => Some(n@),
            None => None,
        }) == props_text(raw@),
{
    let c = chars_of(raw);
    let n: usize = c.len();
    let mut p: usize = 0;
    while p < n && c[p] != '<'
        invariant
            p <= n,
            n == c@.len(),
            c@ == raw@,
            index_or_end(raw@, '<', 0) == index_or_end(raw@, '<', p as int),
        decreases n - p,
    {
        p = p + 1;
    }
    if p < n {
        let wrapper = text_of(&c, 0, p);
        assert(wrapper@ =~= raw@.take(p as int));
        if check_wrapper(wrapper.as_str()) {
            let mut e: usize = p + 1;
            while e < n && c[e] != ',' && c[e] != '>'
                invariant
                    p < n,
                    p + 1 <= e <= n,
                    n == c@.len(),
                    c@ == raw@,
                    argument_end(raw@, p + 1) == argument_end(raw@, e as int),
                decreases n - e,
            {
                e = e + 1;
            }
            let inner = text_of(&c, p + 1, e);
            let first = trim(inner.as_str());
            if ends_with(first.as_str(), "Props") {
                return Some(first);
            }
        }
    }
    if ends_with(raw, "Props") {
        Some(raw.to_owned())
    } else {
        None
    }
}

/// The component that a props type belongs to.
pub open spec fn component_of(name: Seq<char>) -> Seq<char> {
    name.take(name.len() - 5)
}

/// The component that a props type belongs to.
pub fn strip_props(name: &str) -> (r: String)
    requires
        is_props_name(name@),
    ensures
        r@ == component_of(name@),
{
    proof {
        reveal_strlit("Props");
    }
    let c = chars_of(name);
    let r = text_of(&c, 0, c.len() - 5);
    assert(r@ =~= component_of(name@));
    r
}

} // verus!
