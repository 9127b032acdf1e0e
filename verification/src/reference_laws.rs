//! What a query for imports, for types or for calls reports: which of them, and nothing else.

use crate::capabilities::ReferenceLocation;
use crate::component_laws::{
    accepted_module, imports_from, law_imported_from, lemma_in_either, lemma_tells_module,
    tells_module,
};
use crate::incident::IncidentV;
use crate::pattern::regex_accepts;
use crate::project_index::{ImportDecl, ImportedSymbol, IndexedFile, ProjectIndex, Span, SymbolRef};
use crate::query_eval::{
    all_import_hits, all_ref_hits, import_hits, import_incident, module_matches, query_hits,
    ref_hits, ref_incident, span_incident, symbol_hits, symbol_matches, wants_file, wants_ref,
    QueryV,
};
use crate::query_laws::{given, gives};
use crate::scanner::{capped, line_at};
use vstd::prelude::*;

verus! {

/// Whether an incident stands at a span of a file.
pub open spec fn stands_at(i: IncidentV, file: IndexedFile, span: Span) -> bool {
    &&& i.file_uri == "file://"@ + file.path@
    &&& i.line_number == Some(capped(line_at(file.source_text@, span.start)))
}

/// Whether an incident gives a text under a key.
pub open spec fn says(i: IncidentV, key: Seq<char>, text: Seq<char>) -> bool {
    gives(i, key) && given(i, key) == text
}

proof fn lemma_keys()
    ensures
        "matchingText"@ != "module"@,
        "matchingText"@ != "callArgValue"@,
        "module"@ != "callArgValue"@,
{
    reveal_strlit("module");
    reveal_strlit("matchingText");
    reveal_strlit("callArgValue");
    assert("module"@.len() == 6);
    assert("matchingText"@.len() == 12);
    assert("callArgValue"@.len() == 12);
    assert("matchingText"@[0] == 'm');
    assert("callArgValue"@[0] == 'c');
}

// ---- Imports ----

/// Whether an imported symbol has no name of its own where it comes from.
pub open spec fn is_whole(s: ImportedSymbol) -> bool {
    s.name@ == "default"@ || s.name@ == "*"@
}

/// The name that a symbol is known by in the file.
pub open spec fn known_as(s: ImportedSymbol) -> Seq<char> {
    if s.alias is Some {
        s.alias->0@
    } else {
        s.name@
    }
}

/// Whether a query for imports asks for a symbol of an import: the module is accepted, and a name
/// of the symbol is.
pub open spec fn import_asked_for(i: ImportDecl, s: ImportedSymbol, q: QueryV) -> bool {
    &&& q.from is Some ==> accepted_module(i, q.from->0)
    &&& regex_accepts(q.pattern, known_as(s)) || (!is_whole(s) && regex_accepts(
        q.pattern,
        s.name@,
    ))
}

/// Whether an incident is the one for a symbol of an import: it stands where the symbol does, and
/// names it and the module.
pub open spec fn tells_import(
    i: IncidentV,
    file: IndexedFile,
    d: ImportDecl,
    s: ImportedSymbol,
) -> bool {
    &&& stands_at(i, file, s.span)
    &&& says(
        i,
        "matchingText"@,
        if is_whole(s) {
            known_as(s)
        } else {
            s.name@
        },
    )
    &&& says(
        i,
        "module"@,
        if d.raw_specifier is Some {
            d.raw_specifier->0@
        } else {
            d.source@
        },
    )
}

proof fn lemma_tells_import(file: IndexedFile, d: ImportDecl, s: ImportedSymbol)
    ensures
        tells_import(import_incident(file, d, s), file, d, s),
{
    lemma_keys();
}

spec fn from_symbol(file: IndexedFile, d: ImportDecl, n: int, q: QueryV, i: IncidentV) -> bool {
    exists|k: int|
        0 <= k < n && symbol_matches(#[trigger] d.symbols@[k], q) && i == import_incident(
            file,
            d,
            d.symbols@[k],
        )
}

proof fn lemma_symbols(file: IndexedFile, d: ImportDecl, n: int, q: QueryV, i: IncidentV)
    requires
        0 <= n <= d.symbols@.len(),
    ensures
        symbol_hits(file, d, n, q).contains(i) == from_symbol(file, d, n, q, i),
    decreases n,
{
    if n > 0 {
        lemma_symbols(file, d, n - 1, q, i);
        let before = symbol_hits(file, d, n - 1, q);
        let s = d.symbols@[n - 1];
        if symbol_matches(s, q) {
            let hit = import_incident(file, d, s);
            assert(symbol_hits(file, d, n, q) =~= before + seq![hit]);
            lemma_in_either(before, seq![hit], i);
            assert(seq![hit][0] == hit);
        } else {
            assert(symbol_hits(file, d, n, q) == before);
        }
        if from_symbol(file, d, n - 1, q, i) {
            let k = choose|k: int|
                0 <= k < n - 1 && symbol_matches(#[trigger] d.symbols@[k], q) && i
                    == import_incident(file, d, d.symbols@[k]);
            assert(symbol_matches(d.symbols@[k], q));
        }
    }
}

spec fn from_import(file: IndexedFile, n: int, q: QueryV, i: IncidentV) -> bool {
    exists|k: int|
        {
            &&& 0 <= k < n
            &&& module_matches(#[trigger] file.imports@[k], q)
            &&& from_symbol(
                file,
                file.imports@[k],
                file.imports@[k].symbols@.len() as int,
                q,
                i,
            )
        }
}

proof fn lemma_imports(file: IndexedFile, n: int, q: QueryV, i: IncidentV)
    requires
        0 <= n <= file.imports@.len(),
    ensures
        import_hits(file, n, q).contains(i) == from_import(file, n, q, i),
    decreases n,
{
    if n > 0 {
        lemma_imports(file, n - 1, q, i);
        let d = file.imports@[n - 1];
        let before = import_hits(file, n - 1, q);
        let more = symbol_hits(file, d, d.symbols@.len() as int, q);
        lemma_symbols(file, d, d.symbols@.len() as int, q, i);
        if module_matches(d, q) {
            assert(import_hits(file, n, q) == before + more);
            lemma_in_either(before, more, i);
        } else {
            assert(import_hits(file, n, q) == before);
        }
        if from_import(file, n - 1, q, i) {
            let k = choose|k: int|
                {
                    &&& 0 <= k < n - 1
                    &&& module_matches(#[trigger] file.imports@[k], q)
                    &&& from_symbol(
                        file,
                        file.imports@[k],
                        file.imports@[k].symbols@.len() as int,
                        q,
                        i,
                    )
                };
            assert(module_matches(file.imports@[k], q));
        }
    }
}

spec fn from_imports_of(files: Seq<IndexedFile>, n: int, q: QueryV, i: IncidentV) -> bool {
    exists|f: int|
        0 <= f < n && wants_file((#[trigger] files[f]).path@, q) && from_import(
            files[f],
            files[f].imports@.len() as int,
            q,
            i,
        )
}

proof fn lemma_import_files(files: Seq<IndexedFile>, n: int, q: QueryV, i: IncidentV)
    requires
        0 <= n <= files.len(),
    ensures
        all_import_hits(files, n, q).contains(i) == from_imports_of(files, n, q, i),
    decreases n,
{
    if n > 0 {
        lemma_import_files(files, n - 1, q, i);
        let f = files[n - 1];
        let before = all_import_hits(files, n - 1, q);
        let more = import_hits(f, f.imports@.len() as int, q);
        lemma_imports(f, f.imports@.len() as int, q, i);
        if wants_file(f.path@, q) {
            assert(all_import_hits(files, n, q) == before + more);
            lemma_in_either(before, more, i);
        } else {
            assert(all_import_hits(files, n, q) == before);
        }
        if from_imports_of(files, n - 1, q, i) {
            let k = choose|k: int|
                0 <= k < n - 1 && wants_file((#[trigger] files[k]).path@, q) && from_import(
                    files[k],
                    files[k].imports@.len() as int,
                    q,
                    i,
                );
            assert(wants_file(files[k].path@, q));
        }
    }
}

/// Every imported symbol that a query for imports asks for is reported.
pub proof fn law_import_reported(index: ProjectIndex, q: QueryV, f: int, d: int, s: int)
    requires
        0 <= f < index.files().len(),
        0 <= d < index.files()[f].imports@.len(),
        0 <= s < index.files()[f].imports@[d].symbols@.len(),
    ensures
        wants_file(index.files()[f].path@, q) && import_asked_for(
            index.files()[f].imports@[d],
            index.files()[f].imports@[d].symbols@[s],
            q,
        ) ==> exists|i: IncidentV| #[trigger]
            query_hits(index, Some(ReferenceLocation::Import), q).contains(i) && tells_import(
                i,
                index.files()[f],
                index.files()[f].imports@[d],
                index.files()[f].imports@[d].symbols@[s],
            ),
{
    let files = index.files();
    let file = files[f];
    let decl = file.imports@[d];
    let symbol = decl.symbols@[s];
    if wants_file(file.path@, q) && import_asked_for(decl, symbol, q) {
        let hit = import_incident(file, decl, symbol);
        lemma_tells_import(file, decl, symbol);
        assert(module_matches(file.imports@[d], q));
        assert(symbol_matches(decl.symbols@[s], q));
        assert(from_symbol(file, decl, decl.symbols@.len() as int, q, hit));
        assert(from_import(file, file.imports@.len() as int, q, hit));
        assert(wants_file(files[f].path@, q));
        assert(from_imports_of(files, files.len() as int, q, hit));
        lemma_import_files(files, files.len() as int, q, hit);
        assert(query_hits(index, Some(ReferenceLocation::Import), q).contains(hit));
    }
}

/// Everything that a query for imports reports is a symbol that it asks for.
pub proof fn law_import_asked_for(index: ProjectIndex, q: QueryV, n: int)
    requires
        0 <= n < query_hits(index, Some(ReferenceLocation::Import), q).len(),
    ensures
        exists|f: int, d: int, s: int|
            {
                &&& 0 <= f < index.files().len()
                &&& 0 <= d < index.files()[f].imports@.len()
                &&& 0 <= s < index.files()[f].imports@[d].symbols@.len()
                &&& wants_file(index.files()[f].path@, q)
                &&& import_asked_for(
                    index.files()[f].imports@[d],
                    #[trigger] index.files()[f].imports@[d].symbols@[s],
                    q,
                )
                &&& tells_import(
                    query_hits(index, Some(ReferenceLocation::Import), q)[n],
                    index.files()[f],
                    index.files()[f].imports@[d],
                    index.files()[f].imports@[d].symbols@[s],
                )
            },
{
    let files = index.files();
    let hits = query_hits(index, Some(ReferenceLocation::Import), q);
    let i = hits[n];
    assert(hits.contains(i));
    lemma_import_files(files, files.len() as int, q, i);
    let f = choose|f: int|
        0 <= f < files.len() && wants_file((#[trigger] files[f]).path@, q) && from_import(
            files[f],
            files[f].imports@.len() as int,
            q,
            i,
        );
    let file = files[f];
    let d = choose|d: int|
        {
            &&& 0 <= d < file.imports@.len()
            &&& module_matches(#[trigger] file.imports@[d], q)
            &&& from_symbol(
                file,
                file.imports@[d],
                file.imports@[d].symbols@.len() as int,
                q,
                i,
            )
        };
    let decl = file.imports@[d];
    let s = choose|s: int|
        0 <= s < decl.symbols@.len() && symbol_matches(#[trigger] decl.symbols@[s], q) && i
            == import_incident(file, decl, decl.symbols@[s]);
    lemma_tells_import(file, decl, decl.symbols@[s]);
    assert(import_asked_for(
        index.files()[f].imports@[d],
        index.files()[f].imports@[d].symbols@[s],
        q,
    ));
}

// ---- Types and calls ----

/// Whether a query for types, or else one for calls, asks for a reference: it stands in a type, or
/// neither there nor as a component; its name is accepted, and so is the module that the file
/// imports the name from.
pub open spec fn ref_asked_for(file: IndexedFile, r: SymbolRef, types: bool, q: QueryV) -> bool {
    &&& types == r.is_type_position
    &&& types || !r.is_jsx_component
    &&& regex_accepts(q.pattern, r.name@)
    &&& q.from is Some ==> imports_from(file, r.name@, q.from->0)
}

/// Whether an incident is the one for a reference. That of a call tells the first argument, where
/// it is known.
pub open spec fn tells_ref(i: IncidentV, file: IndexedFile, r: SymbolRef, types: bool) -> bool {
    &&& stands_at(i, file, r.span)
    &&& says(i, "matchingText"@, r.name@)
    &&& tells_module(i, "module"@, file, r.name@)
    &&& if !types && r.call_arg_value is Some {
        says(i, "callArgValue"@, r.call_arg_value->0@)
    } else {
        !i.variables.dom().contains("callArgValue"@)
    }
}

proof fn lemma_tells_ref(file: IndexedFile, r: SymbolRef, types: bool)
    ensures
        tells_ref(ref_incident(file, r, types), file, r, types),
{
    lemma_keys();
    let base = span_incident(file, r.span).with_text("matchingText"@, r.name@);
    lemma_tells_module(base, "module"@, file, r.name@);
}

proof fn lemma_ref_asked_for(file: IndexedFile, r: SymbolRef, types: bool, q: QueryV)
    ensures
        wants_ref(file, r, types, q) == ref_asked_for(file, r, types, q),
{
    if let Some(p) = q.from {
        law_imported_from(file, r.name@, p);
    }
}

spec fn from_ref(file: IndexedFile, n: int, types: bool, q: QueryV, i: IncidentV) -> bool {
    exists|k: int|
        0 <= k < n && wants_ref(file, #[trigger] file.symbol_refs@[k], types, q) && i
            == ref_incident(file, file.symbol_refs@[k], types)
}

proof fn lemma_refs(file: IndexedFile, n: int, types: bool, q: QueryV, i: IncidentV)
    requires
        0 <= n <= file.symbol_refs@.len(),
    ensures
        ref_hits(file, n, types, q).contains(i) == from_ref(file, n, types, q, i),
    decreases n,
{
    if n > 0 {
        lemma_refs(file, n - 1, types, q, i);
        let before = ref_hits(file, n - 1, types, q);
        let r = file.symbol_refs@[n - 1];
        if wants_ref(file, r, types, q) {
            let hit = ref_incident(file, r, types);
            assert(ref_hits(file, n, types, q) =~= before + seq![hit]);
            lemma_in_either(before, seq![hit], i);
            assert(seq![hit][0] == hit);
        } else {
            assert(ref_hits(file, n, types, q) == before);
        }
        if from_ref(file, n - 1, types, q, i) {
            let k = choose|k: int|
                0 <= k < n - 1 && wants_ref(file, #[trigger] file.symbol_refs@[k], types, q) && i
                    == ref_incident(file, file.symbol_refs@[k], types);
            assert(wants_ref(file, file.symbol_refs@[k], types, q));
        }
    }
}

spec fn from_refs_of(
    files: Seq<IndexedFile>,
    n: int,
    types: bool,
    q: QueryV,
    i: IncidentV,
) -> bool {
    exists|f: int|
        0 <= f < n && wants_file((#[trigger] files[f]).path@, q) && from_ref(
            files[f],
            files[f].symbol_refs@.len() as int,
            types,
            q,
            i,
        )
}

proof fn lemma_ref_files(files: Seq<IndexedFile>, n: int, types: bool, q: QueryV, i: IncidentV)
    requires
        0 <= n <= files.len(),
    ensures
        all_ref_hits(files, n, types, q).contains(i) == from_refs_of(files, n, types, q, i),
    decreases n,
{
    if n > 0 {
        lemma_ref_files(files, n - 1, types, q, i);
        let f = files[n - 1];
        let before = all_ref_hits(files, n - 1, types, q);
        let more = ref_hits(f, f.symbol_refs@.len() as int, types, q);
        lemma_refs(f, f.symbol_refs@.len() as int, types, q, i);
        if wants_file(f.path@, q) {
            assert(all_ref_hits(files, n, types, q) == before + more);
            lemma_in_either(before, more, i);
        } else {
            assert(all_ref_hits(files, n, types, q) == before);
        }
        if from_refs_of(files, n - 1, types, q, i) {
            let k = choose|k: int|
                0 <= k < n - 1 && wants_file((#[trigger] files[k]).path@, q) && from_ref(
                    files[k],
                    files[k].symbol_refs@.len() as int,
                    types,
                    q,
                    i,
                );
            assert(wants_file(files[k].path@, q));
        }
    }
}

/// The incidents of a query for types, or else of one for calls.
pub open spec fn refs_reported(index: ProjectIndex, types: bool, q: QueryV) -> Seq<IncidentV> {
    query_hits(
        index,
        Some(
            if types {
                ReferenceLocation::TypeReference
            } else {
                ReferenceLocation::FunctionCall
            },
        ),
        q,
    )
}

/// Every reference that a query for types or for calls asks for is reported.
pub proof fn law_ref_reported(index: ProjectIndex, types: bool, q: QueryV, f: int, k: int)
    requires
        0 <= f < index.files().len(),
        0 <= k < index.files()[f].symbol_refs@.len(),
    ensures
        wants_file(index.files()[f].path@, q) && ref_asked_for(
            index.files()[f],
            index.files()[f].symbol_refs@[k],
            types,
            q,
        ) ==> exists|i: IncidentV| #[trigger]
            refs_reported(index, types, q).contains(i) && tells_ref(
                i,
                index.files()[f],
                index.files()[f].symbol_refs@[k],
                types,
            ),
{
    let files = index.files();
    let file = files[f];
    let r = file.symbol_refs@[k];
    if wants_file(file.path@, q) && ref_asked_for(file, r, types, q) {
        let hit = ref_incident(file, r, types);
        lemma_ref_asked_for(file, r, types, q);
        lemma_tells_ref(file, r, types);
        assert(wants_ref(file, file.symbol_refs@[k], types, q));
        assert(from_ref(file, file.symbol_refs@.len() as int, types, q, hit));
        assert(wants_file(files[f].path@, q));
        assert(from_refs_of(files, files.len() as int, types, q, hit));
        lemma_ref_files(files, files.len() as int, types, q, hit);
        assert(refs_reported(index, types, q).contains(hit));
    }
}

/// Everything that a query for types or for calls reports is a reference that it asks for.
pub proof fn law_ref_asked_for(index: ProjectIndex, types: bool, q: QueryV, n: int)
    requires
        0 <= n < refs_reported(index, types, q).len(),
    ensures
        exists|f: int, k: int|
            {
                &&& 0 <= f < index.files().len()
                &&& 0 <= k < index.files()[f].symbol_refs@.len()
                &&& wants_file(index.files()[f].path@, q)
                &&& ref_asked_for(
                    index.files()[f],
                    #[trigger] index.files()[f].symbol_refs@[k],
                    types,
                    q,
                )
                &&& tells_ref(
                    refs_reported(index, types, q)[n],
                    index.files()[f],
                    index.files()[f].symbol_refs@[k],
                    types,
                )
            },
{
    let files = index.files();
    let hits = refs_reported(index, types, q);
    let i = hits[n];
    assert(hits.contains(i));
    lemma_ref_files(files, files.len() as int, types, q, i);
    let f = choose|f: int|
        0 <= f < files.len() && wants_file((#[trigger] files[f]).path@, q) && from_ref(
            files[f],
            files[f].symbol_refs@.len() as int,
            types,
            q,
            i,
        );
    let file = files[f];
    let k = choose|k: int|
        0 <= k < file.symbol_refs@.len() && wants_ref(
            file,
            #[trigger] file.symbol_refs@[k],
            types,
            q,
        ) && i == ref_incident(file, file.symbol_refs@[k], types);
    lemma_ref_asked_for(file, file.symbol_refs@[k], types, q);
    lemma_tells_ref(file, file.symbol_refs@[k], types);
    assert(ref_asked_for(index.files()[f], index.files()[f].symbol_refs@[k], types, q));
}

/// How many of the first `n` references of a file are asked for.
pub open spec fn refs_asked(file: IndexedFile, n: int, types: bool, q: QueryV) -> nat
    decreases n,
{
    if n <= 0 || n > file.symbol_refs@.len() {
        0
    } else {
        refs_asked(file, n - 1, types, q) + if ref_asked_for(
            file,
            file.symbol_refs@[n - 1],
            types,
            q,
        ) {
            1nat
        } else {
            0
        }
    }
}

/// Each reference of a file that is asked for is reported once.
pub proof fn law_refs_counted(file: IndexedFile, n: int, types: bool, q: QueryV)
    requires
        0 <= n <= file.symbol_refs@.len(),
    ensures
        ref_hits(file, n, types, q).len() == refs_asked(file, n, types, q),
    decreases n,
{
    if n > 0 {
        law_refs_counted(file, n - 1, types, q);
        lemma_ref_asked_for(file, file.symbol_refs@[n - 1], types, q);
    }
}

/// How many of the first `n` symbols of an import are asked for.
pub open spec fn symbols_asked(d: ImportDecl, n: int, q: QueryV) -> nat
    decreases n,
{
    if n <= 0 || n > d.symbols@.len() {
        0
    } else {
        symbols_asked(d, n - 1, q) + if import_asked_for(d, d.symbols@[n - 1], q) {
            1nat
        } else {
            0
        }
    }
}

/// Each symbol of an import that is asked for is reported once.
pub proof fn law_symbols_counted(file: IndexedFile, d: ImportDecl, n: int, q: QueryV)
    requires
        0 <= n <= d.symbols@.len(),
    ensures
        module_matches(d, q) ==> symbol_hits(file, d, n, q).len() == symbols_asked(d, n, q),
    decreases n,
{
    if n > 0 {
        law_symbols_counted(file, d, n - 1, q);
    }
}

} // verus!
