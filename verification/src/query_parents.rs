//! The component that a JSX element is rendered in, according to an index: transparent wrappers
//! are looked through, and render functions are followed to where they are called.

use crate::index_lookup::symbol_named;
use crate::incident::opt_view;
use crate::jsx_children::{holds_text, with_text};
use crate::lookup::fresh;
use crate::paths::{components, same_path};
use crate::project_index::{
    file_models, local_name, ImportDecl, ImportedSymbol, IndexedFile, JsxProp, ProjectIndex, Span,
    SymbolDef, SymbolRef,
};
use crate::query_names::{
    find_import_package, has_local, is_called, package_from,
};
use crate::text::{same, texts, trim, trimmed};
use vstd::prelude::*;

verus! {

/// Whether the first of the definitions, from index `i` on, that exports a name and knows of it,
/// is transparent.
pub open spec fn def_transparency(defs: Seq<SymbolDef>, i: int, name: Seq<char>) -> Option<bool>
    decreases defs.len() - i,
{
    if i < 0 || i >= defs.len() {
        None
    } else if defs[i].exported && defs[i].name@ == name && defs[i].transparency is Some {
        Some(defs[i].transparency->0.is_transparent)
    } else {
        def_transparency(defs, i + 1, name)
    }
}

/// What the first of the files, from index `i` on, that knows of it says of the transparency of
/// what it defines under a name.
pub open spec fn files_transparency(files: Seq<IndexedFile>, i: int, name: Seq<char>) -> Option<
    bool,
>
    decreases files.len() - i,
{
    if i < 0 || i >= files.len() {
        None
    } else {
        match def_transparency(files[i].symbol_defs@, 0, name) {
            Some(b) => Some(b),
            None => files_transparency(files, i + 1, name),
        }
    }
}

/// Whether a statement may re-export a name.
pub open spec fn may_reexport(i: ImportDecl, name: Seq<char>) -> bool {
    i.is_reexport && (symbol_named(i.symbols@, name, 0) is Some || i.symbols@.len() == 0)
}

/// What the packages that the statements from index `i` on re-export a name from say of its
/// transparency.
pub open spec fn reexport_transparency(
    index: ProjectIndex,
    imports: Seq<ImportDecl>,
    i: int,
    name: Seq<char>,
) -> Option<bool>
    decreases imports.len() - i,
{
    if i < 0 || i >= imports.len() {
        None
    } else {
        match index.package(imports[i].source@) {
            Some(files) if may_reexport(imports[i], name) && files_transparency(
                files,
                0,
                name,
            ) is Some => files_transparency(files, 0, name),
            _ => reexport_transparency(index, imports, i + 1, name),
        }
    }
}

/// What the files of a package, from index `i` on, say of the transparency of a name: of each
/// first what it defines, then what it re-exports.
pub open spec fn package_transparency(
    index: ProjectIndex,
    files: Seq<IndexedFile>,
    i: int,
    name: Seq<char>,
) -> Option<bool>
    decreases files.len() - i,
{
    if i < 0 || i >= files.len() {
        None
    } else if def_transparency(files[i].symbol_defs@, 0, name) is Some {
        def_transparency(files[i].symbol_defs@, 0, name)
    } else if reexport_transparency(index, files[i].imports@, 0, name) is Some {
        reexport_transparency(index, files[i].imports@, 0, name)
    } else {
        package_transparency(index, files, i + 1, name)
    }
}

/// Whether a component that a file imports is transparent.
pub open spec fn is_transparent(index: ProjectIndex, file: IndexedFile, name: Seq<char>) -> bool {
    match package_from(file.imports@, 0, name) {
        Some(source) => match index.package(source) {
            Some(files) => package_transparency(index, files, 0, name) == Some(true),
            None => false,
        },
        None => false,
    }
}

fn find_def_transparency(defs: &Vec<SymbolDef>, name: &str) -> (r: Option<bool>)
    ensures
        r == def_transparency(defs@, 0, name@),
{
    let mut i: usize = 0;
    while i < defs.len()
        invariant
            i <= defs@.len(),
            def_transparency(defs@, 0, name@) == def_transparency(defs@, i as int, name@),
        decreases defs.len() - i,
    {
        if defs[i].exported && same(defs[i].name.as_str(), name) {
            if let Some(t) = &defs[i].transparency {
                return Some(t.is_transparent);
            }
        }
        i = i + 1;
    }
    None
}

fn find_files_transparency(files: &Vec<IndexedFile>, name: &str) -> (r: Option<bool>)
    ensures
        r == files_transparency(files@, 0, name@),
{
    let mut i: usize = 0;
    while i < files.len()
        invariant
            i <= files@.len(),
            files_transparency(files@, 0, name@) == files_transparency(files@, i as int, name@),
        decreases files.len() - i,
    {
        if let Some(b) = find_def_transparency(&files[i].symbol_defs, name) {
            return Some(b);
        }
        i = i + 1;
    }
    None
}

fn find_reexport_transparency(index: &ProjectIndex, imports: &Vec<ImportDecl>, name: &str) -> (r:
    Option<bool>)
    ensures
        r == reexport_transparency(*index, imports@, 0, name@),
{
    let mut i: usize = 0;
    while i < imports.len()
        invariant
            i <= imports@.len(),
            reexport_transparency(*index, imports@, 0, name@) == reexport_transparency(
                *index,
                imports@,
                i as int,
                name@,
            ),
        decreases imports.len() - i,
    {
        let import = &imports[i];
        if import.is_reexport && (has_local(&import.symbols, name) || import.symbols.len() == 0) {
            if let Some(files) = index.find_package(import.source.as_str()) {
                if let Some(b) = find_files_transparency(files, name) {
                    return Some(b);
                }
            }
        }
        i = i + 1;
    }
    None
}

/// Check if a component is transparent by looking up its definition in the index.
pub fn is_component_transparent(index: &ProjectIndex, file: &IndexedFile, name: &str) -> (r: bool)
    ensures
        r == is_transparent(*index, *file, name@),
{
    let source = match find_import_package(file, name) {
        Some(s) => s,
        None => return false,
    };
    let files = match index.find_package(source) {
        Some(f) => f,
        None => return false,
    };
    let mut i: usize = 0;
    while i < files.len()
        invariant
            i <= files@.len(),
            package_transparency(*index, files@, 0, name@) == package_transparency(
                *index,
                files@,
                i as int,
                name@,
            ),
            is_transparent(*index, *file, name@) == (package_transparency(*index, files@, 0, name@)
                == Some(true)),
        decreases files.len() - i,
    {
        if let Some(b) = find_def_transparency(&files[i].symbol_defs, name) {
            return b;
        }
        if let Some(b) = find_reexport_transparency(index, &files[i].imports, name) {
            return b;
        }
        i = i + 1;
    }
    false
}

/// The index of the first JSX element, from index `i` on, of a component.
pub open spec fn element_of(refs: Seq<SymbolRef>, name: Seq<char>, i: int) -> Option<int>
    decreases refs.len() - i,
{
    if i < 0 || i >= refs.len() {
        None
    } else if refs[i].is_jsx_component && refs[i].name@ == name {
        Some(i)
    } else {
        element_of(refs, name, i + 1)
    }
}

/// The component around the first JSX element of a component.
pub open spec fn parent_of(refs: Seq<SymbolRef>, name: Seq<char>) -> Option<Seq<char>> {
    match element_of(refs, name, 0) {
        Some(k) => opt_view(refs[k].parent_component),
        None => None,
    }
}

/// The names that are referred to.
pub open spec fn ref_names(refs: Seq<SymbolRef>) -> Seq<Seq<char>> {
    refs.map_values(|r: SymbolRef| r.name@)
}

/// The first component that is not transparent, going up from one; where a component is met
/// again, it is that one.
pub open spec fn opaque_ancestor(
    index: ProjectIndex,
    file: IndexedFile,
    name: Seq<char>,
    seen: Seq<Seq<char>>,
) -> Option<Seq<char>>
    decreases fresh(
            ref_names(file.symbol_refs@),
            seen,
            ref_names(file.symbol_refs@).len() as int,
        ),
{
    if seen.contains(name) || !is_transparent(index, file, name) {
        Some(name)
    } else {
        match parent_of(file.symbol_refs@, name) {
            Some(parent) => {
                proof {
                    lemma_parent_seen(file.symbol_refs@, name, seen);
                }
                opaque_ancestor(index, file, parent, seen.push(name))
            },
            None => None,
        }
    }
}

/// Once a component with a parent is marked as seen, fewer are left.
pub proof fn lemma_parent_seen(refs: Seq<SymbolRef>, name: Seq<char>, seen: Seq<Seq<char>>)
    requires
        parent_of(refs, name) is Some,
        !seen.contains(name),
    ensures
        fresh(ref_names(refs), seen.push(name), ref_names(refs).len() as int) < fresh(
            ref_names(refs),
            seen,
            ref_names(refs).len() as int,
        ),
{
    let pairs = refs.map_values(|r: SymbolRef| (r.name@, ()));
    assert(crate::lookup::names_of(pairs) =~= ref_names(refs));
    lemma_element_of(refs, name, 0);
    let k = element_of(refs, name, 0)->0;
    lemma_last_exists(ref_names(refs), name, k, ref_names(refs).len() as int);
    crate::lookup::lemma_name_seen(pairs, seen, name);
}

proof fn lemma_element_of(refs: Seq<SymbolRef>, name: Seq<char>, i: int)
    requires
        element_of(refs, name, i) is Some,
        0 <= i,
    ensures
        0 <= element_of(refs, name, i)->0 < refs.len(),
        refs[element_of(refs, name, i)->0].name@ == name,
    decreases refs.len() - i,
{
    if !(refs[i].is_jsx_component && refs[i].name@ == name) {
        lemma_element_of(refs, name, i + 1);
    }
}

proof fn lemma_last_exists(names: Seq<Seq<char>>, name: Seq<char>, k: int, n: int)
    requires
        0 <= k < n <= names.len(),
        names[k] == name,
    ensures
        crate::lookup::last_index_of(names, name, n) is Some,
    decreases n,
{
    if names[n - 1] != name {
        lemma_last_exists(names, name, k, n - 1);
    }
}

/// The component that an element is rendered in, transparent wrappers left out.
pub open spec fn effective_parent(
    index: ProjectIndex,
    file: IndexedFile,
    parent: Option<Seq<char>>,
) -> Option<Seq<char>> {
    match parent {
        Some(p) => opaque_ancestor(index, file, p, Seq::empty()),
        None => None,
    }
}

/// Find the component around the first usage of a component within a file.
fn find_parent_of_component<'a>(file: &'a IndexedFile, name: &str) -> (r: Option<&'a str>)
    ensures
        match r {
            Some(p) => parent_of(file.symbol_refs@, name@) == Some(p@),
            None => parent_of(file.symbol_refs@, name@) is None,
        },
{
    let mut i: usize = 0;
    while i < file.symbol_refs.len()
        invariant
            i <= file.symbol_refs@.len(),
            element_of(file.symbol_refs@, name@, 0) == element_of(
                file.symbol_refs@,
                name@,
                i as int,
            ),
        decreases file.symbol_refs.len() - i,
    {
        let r = &file.symbol_refs[i];
        if r.is_jsx_component && same(r.name.as_str(), name) {
            return match &r.parent_component {
                Some(p) => Some(p.as_str()),
                None => None,
            };
        }
        i = i + 1;
    }
    None
}

fn climb(index: &ProjectIndex, file: &IndexedFile, name: &str, seen: &Vec<String>) -> (r: Option<
    String,
>)
    ensures
        opt_view(r) == opaque_ancestor(*index, *file, name@, texts(seen@)),
    decreases
            fresh(
                ref_names(file.symbol_refs@),
                texts(seen@),
                ref_names(file.symbol_refs@).len() as int,
            ),
{
    if holds_text(seen, name) || !is_component_transparent(index, file, name) {
        return Some(name.to_owned());
    }
    match find_parent_of_component(file, name) {
        Some(parent) => {
            let more = with_text(seen, name);
            proof {
                lemma_parent_seen(file.symbol_refs@, name@, texts(seen@));
            }
            climb(index, file, parent, &more)
        },
        None => None,
    }
}

/// Resolve the effective parent by collapsing transparent wrappers.
///
/// If the direct parent component is transparent, walks up the parent chain until a
/// non-transparent ancestor is found.
pub fn resolve_effective_parent(
    index: &ProjectIndex,
    file: &IndexedFile,
    parent: &Option<String>,
) -> (r: Option<String>)
    ensures
        opt_view(r) == effective_parent(*index, *file, opt_view(*parent)),
{
    match parent {
        Some(p) => {
            let seen: Vec<String> = Vec::new();
            assert(texts(seen@) =~= Seq::<Seq<char>>::empty());
            climb(index, file, p.as_str(), &seen)
        },
        None => None,
    }
}

/// The index of the first definition, from index `i` on, with a span.
pub open spec fn def_at(defs: Seq<SymbolDef>, span: Span, i: int) -> Option<int>
    decreases defs.len() - i,
{
    if i < 0 || i >= defs.len() {
        None
    } else if defs[i].span == span {
        Some(i)
    } else {
        def_at(defs, span, i + 1)
    }
}

/// The index of the smallest of the first `n` definitions around a span, the first of several.
pub open spec fn def_around(defs: Seq<SymbolDef>, span: Span, n: int) -> Option<int>
    decreases n,
{
    if n <= 0 || n > defs.len() {
        None
    } else {
        match def_around(defs, span, n - 1) {
            Some(best) => if span.within(defs[n - 1].span) && defs[n - 1].span.size()
                < defs[best].span.size() {
                Some(n - 1)
            } else {
                Some(best)
            },
            None => if span.within(defs[n - 1].span) {
                Some(n - 1)
            } else {
                None
            },
        }
    }
}

/// The name of the function with a span, or else of the smallest definition around it.
pub open spec fn function_at(defs: Seq<SymbolDef>, span: Span) -> Option<Seq<char>> {
    match def_at(defs, span, 0) {
        Some(k) => Some(defs[k].name@),
        None => match def_around(defs, span, defs.len() as int) {
            Some(k) => Some(defs[k].name@),
            None => None,
        },
    }
}

/// The index of the innermost of the first `n` JSX elements around a span, the first of several.
pub open spec fn element_around(refs: Seq<SymbolRef>, span: Span, n: int) -> Option<int>
    decreases n,
{
    if n <= 0 || n > refs.len() {
        None
    } else {
        let r = refs[n - 1];
        let fits = r.is_jsx_component && r.jsx_element_span is Some && span.within(
            r.jsx_element_span->0,
        );
        match element_around(refs, span, n - 1) {
            Some(best) => if fits && r.jsx_element_span->0.size() < (
            refs[best].jsx_element_span->0).size() {
                Some(n - 1)
            } else {
                Some(best)
            },
            None => if fits {
                Some(n - 1)
            } else {
                None
            },
        }
    }
}

/// The component around the first call, from index `i` on, of a function.
pub open spec fn call_parent(refs: Seq<SymbolRef>, name: Seq<char>, i: int) -> Option<Seq<char>>
    decreases refs.len() - i,
{
    if i < 0 || i >= refs.len() {
        None
    } else {
        match element_around(refs, refs[i].span, refs.len() as int) {
            Some(k) if refs[i].name@ == name && !refs[i].is_jsx_component => Some(refs[k].name@),
            _ => call_parent(refs, name, i + 1),
        }
    }
}

/// Whether one of the first `n` props has a function as its value.
pub open spec fn has_value(props: Seq<JsxProp>, name: Seq<char>, n: int) -> bool
    decreases n,
{
    if n <= 0 || n > props.len() {
        false
    } else {
        has_value(props, name, n - 1) || (props[n - 1].expression_text is Some && trimmed(
            props[n - 1].expression_text->0@,
        ) == name)
    }
}

/// The first component, from index `i` on, that has a function as the value of a prop.
pub open spec fn value_parent(refs: Seq<SymbolRef>, name: Seq<char>, i: int) -> Option<Seq<char>>
    decreases refs.len() - i,
{
    if i < 0 || i >= refs.len() {
        None
    } else if refs[i].is_jsx_component && has_value(
        refs[i].jsx_props@,
        name,
        refs[i].jsx_props@.len() as int,
    ) {
        Some(refs[i].name@)
    } else {
        value_parent(refs, name, i + 1)
    }
}

/// The local name of the first symbol, from index `i` on, that is known under a name.
pub open spec fn called_in(symbols: Seq<ImportedSymbol>, name: Seq<char>, i: int) -> Option<
    Seq<char>,
>
    decreases symbols.len() - i,
{
    if i < 0 || i >= symbols.len() {
        None
    } else if is_called(symbols[i], name) {
        Some(local_name(symbols[i]))
    } else {
        called_in(symbols, name, i + 1)
    }
}

/// The local name of the first import, from index `i` on, of a function.
pub open spec fn imported_as(imports: Seq<ImportDecl>, name: Seq<char>, i: int) -> Option<Seq<char>>
    decreases imports.len() - i,
{
    if i < 0 || i >= imports.len() {
        None
    } else {
        match called_in(imports[i].symbols@, name, 0) {
            Some(local) => Some(local),
            None => imported_as(imports, name, i + 1),
        }
    }
}

/// The component in which another file uses a function that it imports.
pub open spec fn use_in(file: IndexedFile, name: Seq<char>) -> Option<Seq<char>> {
    match imported_as(file.imports@, name, 0) {
        Some(local) => match call_parent(file.symbol_refs@, local, 0) {
            Some(parent) => Some(parent),
            None => value_parent(file.symbol_refs@, local, 0),
        },
        None => None,
    }
}

/// The component in which the first of the files, from index `i` on, other than one, uses a
/// function.
pub open spec fn use_elsewhere(
    files: Seq<IndexedFile>,
    path: Seq<char>,
    name: Seq<char>,
    i: int,
) -> Option<Seq<char>>
    decreases files.len() - i,
{
    if i < 0 || i >= files.len() {
        None
    } else if components(files[i].path@) != components(path) && use_in(files[i], name) is Some {
        use_in(files[i], name)
    } else {
        use_elsewhere(files, path, name, i + 1)
    }
}

/// Whether one of the first `n` definitions exports a name.
pub open spec fn exports_name(defs: Seq<SymbolDef>, name: Seq<char>, n: int) -> bool
    decreases n,
{
    if n <= 0 || n > defs.len() {
        false
    } else {
        exports_name(defs, name, n - 1) || (defs[n - 1].name@ == name && defs[n - 1].exported)
    }
}

/// The component in which the function with a span is called or used.
pub open spec fn call_site_parent(index: ProjectIndex, file: IndexedFile, span: Span) -> Option<
    Seq<char>,
> {
    match function_at(file.symbol_defs@, span) {
        Some(name) => if call_parent(file.symbol_refs@, name, 0) is Some {
            call_parent(file.symbol_refs@, name, 0)
        } else if exports_name(file.symbol_defs@, name, file.symbol_defs@.len() as int) {
            use_elsewhere(index.files(), file.path@, name, 0)
        } else {
            None
        },
        None => None,
    }
}

fn find_function_at(defs: &Vec<SymbolDef>, span: Span) -> (r: Option<usize>)
    ensures
        match r {
            Some(k) => k < defs@.len() && function_at(defs@, span) == Some(
                defs@[k as int].name@,
            ),
            None => function_at(defs@, span) is None,
        },
{
    let mut i: usize = 0;
    while i < defs.len()
        invariant
            i <= defs@.len(),
            def_at(defs@, span, 0) == def_at(defs@, span, i as int),
        decreases defs.len() - i,
    {
        if defs[i].span == span {
            return Some(i);
        }
        i = i + 1;
    }
    let mut best: Option<usize> = None;
    let mut n: usize = 0;
    while n < defs.len()
        invariant
            n <= defs@.len(),
            match best {
                Some(b) => b < n && def_around(defs@, span, n as int) == Some(b as int),
                None => def_around(defs@, span, n as int) is None,
            },
        decreases defs.len() - n,
    {
        if span.is_within(defs[n].span) {
            best = match best {
                Some(b) => if defs[n].span.width() < defs[b].span.width() {
                    Some(n)
                } else {
                    Some(b)
                },
                None => Some(n),
            };
        }
        n = n + 1;
    }
    best
}

fn find_element_around(refs: &Vec<SymbolRef>, span: Span) -> (r: Option<usize>)
    ensures
        match r {
            Some(k) => k < refs@.len() && element_around(refs@, span, refs@.len() as int) == Some(
                k as int,
            ),
            None => element_around(refs@, span, refs@.len() as int) is None,
        },
{
    let mut best: Option<(usize, i64)> = None;
    let mut n: usize = 0;
    while n < refs.len()
        invariant
            n <= refs@.len(),
            match best {
                Some((b, size)) => b < n && element_around(refs@, span, n as int) == Some(b as int)
                    && refs@[b as int].jsx_element_span is Some
                    && (refs@[b as int].jsx_element_span->0).size() == size,
                None => element_around(refs@, span, n as int) is None,
            },
        decreases refs.len() - n,
    {
        let r = &refs[n];
        if r.is_jsx_component {
            if let Some(el) = r.jsx_element_span {
                if span.is_within(el) {
                    let size = el.width();
                    best = match best {
                        Some((b, smallest)) => if size < smallest {
                            Some((n, size))
                        } else {
                            Some((b, smallest))
                        },
                        None => Some((n, size)),
                    };
                }
            }
        }
        n = n + 1;
    }
    match best {
        Some((b, _)) => Some(b),
        None => None,
    }
}

/// Find the parent component at a function's call site within a file: that of the innermost JSX
/// element around the call.
pub fn find_call_site_parent_in_file<'a>(file: &'a IndexedFile, name: &str) -> (r: Option<&'a str>)
    ensures
        match r {
            Some(p) => call_parent(file.symbol_refs@, name@, 0) == Some(p@),
            None => call_parent(file.symbol_refs@, name@, 0) is None,
        },
{
    let refs = &file.symbol_refs;
    let mut i: usize = 0;
    while i < refs.len()
        invariant
            i <= refs@.len(),
            refs@ == file.symbol_refs@,
            call_parent(refs@, name@, 0) == call_parent(refs@, name@, i as int),
        decreases refs.len() - i,
    {
        if same(refs[i].name.as_str(), name) && !refs[i].is_jsx_component {
            if let Some(k) = find_element_around(refs, refs[i].span) {
                return Some(refs[k].name.as_str());
            }
        }
        i = i + 1;
    }
    None
}

fn check_value(props: &Vec<JsxProp>, name: &str) -> (r: bool)
    ensures
        r == has_value(props@, name@, props@.len() as int),
{
    let mut found = false;
    let mut i: usize = 0;
    while i < props.len()
        invariant
            i <= props@.len(),
            found == has_value(props@, name@, i as int),
        decreases props.len() - i,
    {
        if let Some(expr) = &props[i].expression_text {
            let t = trim(expr.as_str());
            if same(t.as_str(), name) {
                found = true;
            }
        }
        i = i + 1;
    }
    found
}

/// Find the parent component where a function is used as a JSX prop value.
///
/// For `<Select toggle={toggle}>`, this is `Select`.
pub fn find_prop_value_parent_in_file<'a>(file: &'a IndexedFile, name: &str) -> (r: Option<&'a str>)
    ensures
        match r {
            Some(p) => value_parent(file.symbol_refs@, name@, 0) == Some(p@),
            None => value_parent(file.symbol_refs@, name@, 0) is None,
        },
{
    let refs = &file.symbol_refs;
    let mut i: usize = 0;
    while i < refs.len()
        invariant
            i <= refs@.len(),
            refs@ == file.symbol_refs@,
            value_parent(refs@, name@, 0) == value_parent(refs@, name@, i as int),
        decreases refs.len() - i,
    {
        if refs[i].is_jsx_component && check_value(&refs[i].jsx_props, name) {
            return Some(refs[i].name.as_str());
        }
        i = i + 1;
    }
    None
}

fn find_called_in<'a>(symbols: &'a Vec<ImportedSymbol>, name: &str) -> (r: Option<&'a str>)
    ensures
        match r {
            Some(l) => called_in(symbols@, name@, 0) == Some(l@),
            None => called_in(symbols@, name@, 0) is None,
        },
{
    let mut i: usize = 0;
    while i < symbols.len()
        invariant
            i <= symbols@.len(),
            called_in(symbols@, name@, 0) == called_in(symbols@, name@, i as int),
        decreases symbols.len() - i,
    {
        if same(symbols[i].get_local_name(), name) || same(symbols[i].name.as_str(), name) {
            return Some(symbols[i].get_local_name());
        }
        i = i + 1;
    }
    None
}

fn find_imported_as<'a>(imports: &'a Vec<ImportDecl>, name: &str) -> (r: Option<&'a str>)
    ensures
        match r {
            Some(l) => imported_as(imports@, name@, 0) == Some(l@),
            None => imported_as(imports@, name@, 0) is None,
        },
{
    let mut i: usize = 0;
    while i < imports.len()
        invariant
            i <= imports@.len(),
            imported_as(imports@, name@, 0) == imported_as(imports@, name@, i as int),
        decreases imports.len() - i,
    {
        if let Some(local) = find_called_in(&imports[i].symbols, name) {
            return Some(local);
        }
        i = i + 1;
    }
    None
}

fn find_use_in<'a>(file: &'a IndexedFile, name: &str) -> (r: Option<&'a str>)
    ensures
        match r {
            Some(p) => use_in(*file, name@) == Some(p@),
            None => use_in(*file, name@) is None,
        },
{
    match find_imported_as(&file.imports, name) {
        Some(local) => match find_call_site_parent_in_file(file, local) {
            Some(parent) => Some(parent),
            None => find_prop_value_parent_in_file(file, local),
        },
        None => None,
    }
}

fn check_exports(defs: &Vec<SymbolDef>, name: &str) -> (r: bool)
    ensures
        r == exports_name(defs@, name@, defs@.len() as int),
{
    let mut found = false;
    let mut i: usize = 0;
    while i < defs.len()
        invariant
            i <= defs@.len(),
            found == exports_name(defs@, name@, i as int),
        decreases defs.len() - i,
    {
        if defs[i].exported && same(defs[i].name.as_str(), name) {
            found = true;
        }
        i = i + 1;
    }
    found
}

/// Resolve the parent context for a JSX element inside a function body by finding where that
/// function is called from within JSX children.
///
/// For `function renderItems() { return <DropdownItem />; }` called as
/// `<Dropdown>{renderItems()}</Dropdown>`, this is `Dropdown`.
pub fn resolve_fn_call_site_parent(index: &ProjectIndex, file: &IndexedFile, span: Span) -> (r:
    Option<String>)
    ensures
        opt_view(r) == call_site_parent(*index, *file, span),
{
    let k = match find_function_at(&file.symbol_defs, span) {
        Some(k) => k,
        None => return None,
    };
    let name = file.symbol_defs[k].name.as_str();
    if let Some(parent) = find_call_site_parent_in_file(file, name) {
        return Some(parent.to_owned());
    }
    if !check_exports(&file.symbol_defs, name) {
        return None;
    }
    let files = index.list_files();
    let ghost all = index.files();
    let mut i: usize = 0;
    while i < files.len()
        invariant
            i <= files@.len(),
            all == file_models(files@),
            use_elsewhere(all, file.path@, name@, 0) == use_elsewhere(
                all,
                file.path@,
                name@,
                i as int,
            ),
            call_site_parent(*index, *file, span) == use_elsewhere(all, file.path@, name@, 0),
        decreases files.len() - i,
    {
        assert(all[i as int] == *files@[i as int]);
        if !same_path(files[i].path.as_str(), file.path.as_str()) {
            if let Some(parent) = find_use_in(files[i], name) {
                return Some(parent.to_owned());
            }
        }
        i = i + 1;
    }
    None
}

/// Whether an element is a direct child of a component and lies within its span.
pub open spec fn is_child_of(r: SymbolRef, name: Seq<char>, span: Span) -> bool {
    r.is_jsx_component && opt_view(r.parent_component) == Some(name) && r.span.within(span)
}

/// The direct children, among the first `n` elements, of a component within a span.
pub open spec fn children_within(refs: Seq<SymbolRef>, n: int, name: Seq<char>, span: Span) -> Seq<
    Seq<char>,
>
    decreases n,
{
    if n <= 0 || n > refs.len() {
        Seq::empty()
    } else if is_child_of(refs[n - 1], name, span) {
        children_within(refs, n - 1, name, span).push(refs[n - 1].name@)
    } else {
        children_within(refs, n - 1, name, span)
    }
}

/// The direct children of an element.
pub open spec fn children_of(file: IndexedFile, r: SymbolRef) -> Seq<Seq<char>> {
    match r.jsx_element_span {
        Some(span) => children_within(
            file.symbol_refs@,
            file.symbol_refs@.len() as int,
            r.name@,
            span,
        ),
        None => Seq::empty(),
    }
}

/// Find the names of direct JSX children of a component instance: the elements of the same file
/// whose parent is that component and that lie within the element.
pub fn find_jsx_children<'a>(file: &'a IndexedFile, r: &SymbolRef) -> (out: Vec<&'a str>)
    ensures
        out@.len() == children_of(*file, *r).len(),
        forall|i: int| 0 <= i < out@.len() ==> (#[trigger] out@[i])@ == children_of(*file, *r)[i],
{
    let mut out: Vec<&'a str> = Vec::new();
    let span = match r.jsx_element_span {
        Some(s) => s,
        None => return out,
    };
    let refs = &file.symbol_refs;
    let mut i: usize = 0;
    while i < refs.len()
        invariant
            i <= refs@.len(),
            refs@ == file.symbol_refs@,
            out@.len() == children_within(refs@, i as int, r.name@, span).len(),
            forall|k: int|
                0 <= k < out@.len() ==> (#[trigger] out@[k])@ == children_within(
                    refs@,
                    i as int,
                    r.name@,
                    span,
                )[k],
        decreases refs.len() - i,
    {
        let c = &refs[i];
        if c.is_jsx_component && c.span.is_within(span) {
            if let Some(parent) = &c.parent_component {
                if same(parent.as_str(), r.name.as_str()) {
                    out.push(c.name.as_str());
                }
            }
        }
        i = i + 1;
    }
    out
}

} // verus!
