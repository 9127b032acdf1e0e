//! Which file of an index an import path leads to, and what is found there.

use crate::incident::opt_view;
use crate::index_lookup::{
    based, exported_def, extensions, file_at, file_extended, file_inside, file_with, has_parent,
    imported_def, origin, resolved, stepped, symbol_named, transparent_among, with_extension,
    with_index, wrapper_of,
};
use crate::parent_laws::{known_as, makes_known};
use crate::paths::{components, Part};
use crate::plan_laws::lemma_pushed;
use crate::project_index::{
    local_name, specifier, ImportDecl, ImportedSymbol, IndexedFile, SymbolDef,
};
use vstd::prelude::*;

verus! {

// ---- Files by their path ----

proof fn lemma_file_at(files: Seq<IndexedFile>, parts: Seq<(Part, Seq<char>)>, n: int)
    requires
        0 <= n <= files.len(),
    ensures
        match file_at(files, parts, n) {
            Some(k) => 0 <= k < n && components(files[k].path@) == parts && forall|j: int|
                k < j < n ==> components((#[trigger] files[j]).path@) != parts,
            None => forall|j: int| 0 <= j < n ==> components((#[trigger] files[j]).path@) != parts,
        },
    decreases n,
{
    if n > 0 {
        lemma_file_at(files, parts, n - 1);
    }
}

/// A file is found by its path, however that is spelled; of several the last.
pub proof fn law_file_found(files: Seq<IndexedFile>, parts: Seq<(Part, Seq<char>)>, k: int)
    requires
        0 <= k < files.len(),
        components(files[k].path@) == parts,
        forall|j: int| k < j < files.len() ==> components((#[trigger] files[j]).path@) != parts,
    ensures
        file_with(files, parts) == Some(files[k]),
{
    lemma_file_at(files, parts, files.len() as int);
}

/// A path that no file has leads to none.
pub proof fn law_file_not_found(files: Seq<IndexedFile>, parts: Seq<(Part, Seq<char>)>)
    requires
        forall|j: int| 0 <= j < files.len() ==> components((#[trigger] files[j]).path@) != parts,
    ensures
        file_with(files, parts) is None,
{
    lemma_file_at(files, parts, files.len() as int);
}

/// A step up takes back the step into a directory before it.
pub proof fn law_step_up(before: Seq<(Part, Seq<char>)>, name: Seq<char>, up: Seq<char>)
    ensures
        stepped(stepped(before, (Part::Name, name)), (Part::Parent, up)) == before,
        before.len() > 0 && before.last().0 == Part::Root ==> stepped(before, (Part::Parent, up))
            == before,
{
    assert(before.push((Part::Name, name)).drop_last() =~= before);
}

// ---- Import paths ----

/// Only a path that begins with `./` or `../` leads to a file.
pub proof fn law_only_relative(files: Seq<IndexedFile>, path: Seq<char>, relative: Seq<char>)
    requires
        !"./"@.is_prefix_of(relative),
        !"../"@.is_prefix_of(relative),
    ensures
        resolved(files, path, relative) is None,
{
}

/// Whether a path is one that may lead to a file.
pub open spec fn is_relative(path: Seq<char>, relative: Seq<char>) -> bool {
    ("./"@.is_prefix_of(relative) || "../"@.is_prefix_of(relative)) && has_parent(path)
}

/// A file with just that path goes before any other.
pub proof fn law_exact_path(
    files: Seq<IndexedFile>,
    path: Seq<char>,
    relative: Seq<char>,
    f: IndexedFile,
)
    requires
        is_relative(path, relative),
        file_with(files, based(path, relative)) == Some(f),
    ensures
        resolved(files, path, relative) == Some(f),
{
}

/// The extensions that are tried, in their order.
pub open spec fn tried() -> Seq<Seq<char>> {
    seq!["ts"@, "tsx"@, "js"@, "jsx"@, "mts"@, "mjs"@]
}

proof fn lemma_extended(
    files: Seq<IndexedFile>,
    parts: Seq<(Part, Seq<char>)>,
    from: int,
    k: int,
)
    requires
        0 <= from <= k < 6,
        file_with(files, with_extension(parts, tried()[k])) is Some,
        forall|j: int|
            from <= j < k ==> file_with(
                files,
                with_extension(parts, #[trigger] tried()[j]),
            ) is None,
    ensures
        file_extended(files, parts, from) == file_with(files, with_extension(parts, tried()[k])),
    decreases k - from,
{
    assert(extensions() =~= tried());
    if from < k {
        assert(file_with(files, with_extension(parts, tried()[from])) is None);
        lemma_extended(files, parts, from + 1, k);
    }
}

proof fn lemma_not_extended(files: Seq<IndexedFile>, parts: Seq<(Part, Seq<char>)>, from: int)
    requires
        0 <= from <= 6,
        forall|j: int|
            from <= j < 6 ==> file_with(
                files,
                with_extension(parts, #[trigger] tried()[j]),
            ) is None,
    ensures
        file_extended(files, parts, from) is None,
    decreases 6 - from,
{
    assert(extensions() =~= tried());
    if from < 6 {
        assert(file_with(files, with_extension(parts, tried()[from])) is None);
        lemma_not_extended(files, parts, from + 1);
    }
}

proof fn lemma_inside(files: Seq<IndexedFile>, parts: Seq<(Part, Seq<char>)>, from: int, k: int)
    requires
        0 <= from <= k < 6,
        file_with(files, with_index(parts, tried()[k])) is Some,
        forall|j: int|
            from <= j < k ==> file_with(files, with_index(parts, #[trigger] tried()[j])) is None,
    ensures
        file_inside(files, parts, from) == file_with(files, with_index(parts, tried()[k])),
    decreases k - from,
{
    assert(extensions() =~= tried());
    if from < k {
        assert(file_with(files, with_index(parts, tried()[from])) is None);
        lemma_inside(files, parts, from + 1, k);
    }
}

/// Without it, the first of the extensions with which there is a file counts.
pub proof fn law_with_extension(
    files: Seq<IndexedFile>,
    path: Seq<char>,
    relative: Seq<char>,
    k: int,
)
    requires
        is_relative(path, relative),
        file_with(files, based(path, relative)) is None,
        0 <= k < 6,
        file_with(files, with_extension(based(path, relative), tried()[k])) is Some,
        forall|j: int|
            0 <= j < k ==> file_with(
                files,
                with_extension(based(path, relative), #[trigger] tried()[j]),
            ) is None,
    ensures
        resolved(files, path, relative) == file_with(
            files,
            with_extension(based(path, relative), tried()[k]),
        ),
{
    lemma_extended(files, based(path, relative), 0, k);
}

/// Without those, the path is a directory, and the first index file in it counts.
pub proof fn law_index_file(
    files: Seq<IndexedFile>,
    path: Seq<char>,
    relative: Seq<char>,
    k: int,
)
    requires
        is_relative(path, relative),
        file_with(files, based(path, relative)) is None,
        forall|j: int|
            0 <= j < 6 ==> file_with(
                files,
                with_extension(based(path, relative), #[trigger] tried()[j]),
            ) is None,
        0 <= k < 6,
        file_with(files, with_index(based(path, relative), tried()[k])) is Some,
        forall|j: int|
            0 <= j < k ==> file_with(
                files,
                with_index(based(path, relative), #[trigger] tried()[j]),
            ) is None,
    ensures
        resolved(files, path, relative) == file_with(
            files,
            with_index(based(path, relative), tried()[k]),
        ),
{
    lemma_not_extended(files, based(path, relative), 0);
    lemma_inside(files, based(path, relative), 0, k);
}

// ---- Imported names ----

proof fn lemma_symbol(symbols: Seq<ImportedSymbol>, name: Seq<char>, from: int)
    requires
        0 <= from <= symbols.len(),
    ensures
        match symbol_named(symbols, name, from) {
            Some(k) => from <= k < symbols.len() && known_as(symbols[k], name),
            None => forall|j: int|
                from <= j < symbols.len() ==> !known_as(#[trigger] symbols[j], name),
        },
    decreases symbols.len() - from,
{
    if from < symbols.len() {
        assert(known_as(symbols[from], name) == (local_name(symbols[from]) == name));
        lemma_symbol(symbols, name, from + 1);
    }
}

/// A name comes from the file that the path of the first import that makes it known leads to, and
/// has there the name that is imported.
pub proof fn law_origin(
    files: Seq<IndexedFile>,
    path: Seq<char>,
    imports: Seq<ImportDecl>,
    from: int,
    name: Seq<char>,
    k: int,
)
    requires
        0 <= from <= k < imports.len(),
        makes_known(imports[k], name),
        forall|j: int| from <= j < k ==> !makes_known(#[trigger] imports[j], name),
    ensures
        match resolved(files, path, specifier(imports[k])) {
            Some(f) => exists|s: int|
                0 <= s < imports[k].symbols@.len() && known_as(
                    #[trigger] imports[k].symbols@[s],
                    name,
                ) && origin(files, path, imports, from, name) == Some(
                    (imports[k].symbols@[s].name@, f),
                ),
            None => origin(files, path, imports, from, name) is None,
        },
    decreases k - from,
{
    lemma_symbol(imports[from].symbols@, name, 0);
    if from < k {
        assert(!makes_known(imports[from], name));
        law_origin(files, path, imports, from + 1, name, k);
    } else {
        let s = symbol_named(imports[k].symbols@, name, 0)->0;
        if symbol_named(imports[k].symbols@, name, 0) is None {
            let j = choose|j: int|
                0 <= j < imports[k].symbols@.len() && known_as(
                    #[trigger] imports[k].symbols@[j],
                    name,
                );
            assert(!known_as(imports[k].symbols@[j], name));
        }
        assert(known_as(imports[k].symbols@[s], name));
    }
}

/// Of the definitions of a file the first exported one of a name counts.
pub proof fn law_exported_definition(defs: Seq<SymbolDef>, name: Seq<char>, from: int, k: int)
    requires
        0 <= from <= k < defs.len(),
        defs[k].exported && defs[k].name@ == name,
        forall|j: int| from <= j < k ==> !((#[trigger] defs[j]).exported && defs[j].name@ == name),
    ensures
        exported_def(defs, name, from) == Some(k),
    decreases k - from,
{
    if from < k {
        assert(!(defs[from].exported && defs[from].name@ == name));
        law_exported_definition(defs, name, from + 1, k);
    }
}

/// A component passes its children through where its definition says so, and is wrapped in what the
/// definition says.
pub proof fn law_wrapper(
    files: Seq<IndexedFile>,
    path: Seq<char>,
    name: Seq<char>,
    d: SymbolDef,
)
    requires
        imported_def(files, path, name) == Some(d),
    ensures
        d.transparency is Some && d.transparency->0.is_transparent ==> wrapper_of(files, path, name)
            == Some(opt_view(d.transparency->0.wraps_in)),
        d.transparency is None || !d.transparency->0.is_transparent ==> wrapper_of(
            files,
            path,
            name,
        ) is None,
{
}

/// The transparent components of a file are those among its imports that pass their children
/// through.
pub proof fn law_transparent_among(
    files: Seq<IndexedFile>,
    path: Seq<char>,
    imports: Seq<(Seq<char>, Seq<char>)>,
    n: int,
    name: Seq<char>,
    wrapper: Option<Seq<char>>,
)
    requires
        0 <= n <= imports.len(),
    ensures
        transparent_among(files, path, imports, n).contains((name, wrapper)) <==> wrapper_of(
            files,
            path,
            name,
        ) == Some(wrapper) && exists|k: int| 0 <= k < n && (#[trigger] imports[k]).0 == name,
    decreases n,
{
    if n > 0 {
        law_transparent_among(files, path, imports, n - 1, name, wrapper);
        let before = transparent_among(files, path, imports, n - 1);
        if let Some(w) = wrapper_of(files, path, imports[n - 1].0) {
            lemma_pushed(before, (imports[n - 1].0, w), (name, wrapper));
        }
        if exists|k: int| 0 <= k < n - 1 && (#[trigger] imports[k]).0 == name {
            let k = choose|k: int| 0 <= k < n - 1 && (#[trigger] imports[k]).0 == name;
            assert(imports[k].0 == name);
        }
    }
}

} // verus!
