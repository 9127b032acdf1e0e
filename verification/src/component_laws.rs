//! What a query for JSX components reports: which elements, and nothing else.

use crate::capabilities::ReferenceLocation;
use crate::incident::{opt_view, IncidentV};
use crate::pattern::regex_accepts;
use crate::project_index::{ImportDecl, ImportedSymbol, IndexedFile, ProjectIndex, SymbolRef};
use crate::query_eval::{
    all_component_hits, any_child, children_fit, component_hits, element_from, element_hits,
    element_incident, parent_fits, query_hits, rendered_in, span_incident, stranger_hits,
    wants_file, with_module, QueryV,
};
use crate::query_laws::{given, gives};
use crate::query_names::{
    binds, comes_from, first_part, imported_from, is_called, last_part, matches_component,
    module_from,
};
use crate::query_parents::{children_of, children_within};
use crate::scanner::{capped, line_at};
use crate::text::{lemma_split_len, split};
use vstd::prelude::*;

verus! {

/// Whether a text is the part of a dotted name before its first dot.
pub open spec fn is_head(name: Seq<char>, head: Seq<char>) -> bool {
    &&& !head.contains('.')
    &&& head == name || (head.len() < name.len() && name.take(head.len() as int) == head
        && name[head.len() as int] == '.')
}

/// Whether a text is the part of a dotted name behind its last dot.
pub open spec fn is_tail(name: Seq<char>, tail: Seq<char>) -> bool {
    &&& !tail.contains('.')
    &&& tail == name || (tail.len() < name.len() && name.skip(name.len() - tail.len()) == tail
        && name[name.len() - tail.len() - 1] == '.')
}

/// What the first and the last part of a dotted name are.
pub proof fn law_parts(name: Seq<char>)
    ensures
        is_head(name, first_part(name)),
        is_tail(name, last_part(name)),
    decreases name.len(),
{
    lemma_split_len(name, '.');
    if name.len() > 0 {
        let front = name.drop_last();
        let c = name.last();
        law_parts(front);
        lemma_split_len(front, '.');
        let head = first_part(front);
        let tail = last_part(front);
        let before = split(front, '.');
        assert(name =~= front.push(c));
        if c == '.' {
            assert(first_part(name) == head);
            assert(last_part(name) == Seq::<char>::empty());
            assert(name.skip(name.len() as int) =~= Seq::<char>::empty());
            assert(name.take(head.len() as int) =~= front.take(head.len() as int));
            if head == front {
                assert(front.take(head.len() as int) =~= front);
            }
        } else {
            assert(last_part(name) == tail.push(c));
            assert(name.skip(name.len() - (tail.len() + 1)) =~= front.skip(
                front.len() - tail.len(),
            ).push(c));
            if tail == front {
                assert(front.skip(0) =~= front);
            }
            assert forall|i: int| 0 <= i < tail.push(c).len() implies tail.push(c)[i] != '.' by {
                if i < tail.len() {
                    assert(tail.contains(tail[i]));
                }
            }
            if before.len() == 1 {
                assert(head == tail);
                assert(first_part(name) == head.push(c));
                lemma_one_part(front);
                assert(first_part(name) =~= name);
                assert(!name.contains('.'));
            } else {
                assert(first_part(name) == head);
                lemma_more_parts(front);
                assert(front.contains('.'));
                assert(head != front);
                assert(name.take(head.len() as int) =~= front.take(head.len() as int));
            }
        }
    } else {
        assert(first_part(name) =~= name);
        assert(last_part(name) =~= name);
    }
}

proof fn lemma_one_part(name: Seq<char>)
    requires
        split(name, '.').len() == 1,
    ensures
        first_part(name) == name,
        !name.contains('.'),
    decreases name.len(),
{
    if name.len() > 0 {
        lemma_split_len(name.drop_last(), '.');
        lemma_one_part(name.drop_last());
        assert(name =~= name.drop_last().push(name.last()));
        assert forall|i: int| 0 <= i < name.len() implies name[i] != '.' by {
            if i < name.len() - 1 {
                assert(name.drop_last().contains(name.drop_last()[i]));
            }
        }
    } else {
        assert(first_part(name) =~= name);
    }
}

proof fn lemma_more_parts(name: Seq<char>)
    requires
        split(name, '.').len() > 1,
    ensures
        name.contains('.'),
    decreases name.len(),
{
    if name.len() > 0 {
        if name.last() == '.' {
            assert(name[name.len() - 1] == '.');
        } else {
            lemma_split_len(name.drop_last(), '.');
            lemma_more_parts(name.drop_last());
            let i = choose|i: int| 0 <= i < name.drop_last().len() && name.drop_last()[i] == '.';
            assert(name[i] == '.');
        }
    }
}

/// A name has one head.
proof fn lemma_head(name: Seq<char>, a: Seq<char>, b: Seq<char>)
    requires
        is_head(name, a),
        is_head(name, b),
    ensures
        a == b,
{
    if a.len() < b.len() {
        assert(b[a.len() as int] == '.');
        assert(b.contains('.'));
    } else if b.len() < a.len() {
        assert(a[b.len() as int] == '.');
        assert(a.contains('.'));
    } else {
        assert(name.take(name.len() as int) =~= name);
        assert(a == b);
    }
}

/// A name has one tail.
proof fn lemma_tail(name: Seq<char>, a: Seq<char>, b: Seq<char>)
    requires
        is_tail(name, a),
        is_tail(name, b),
    ensures
        a == b,
{
    if a.len() < b.len() {
        assert(b[b.len() - a.len() - 1] == '.');
        assert(b.contains('.'));
    } else if b.len() < a.len() {
        assert(a[a.len() - b.len() - 1] == '.');
        assert(a.contains('.'));
    } else {
        assert(name.skip(0) =~= name);
        assert(a == b);
    }
}

/// Whether a symbol is bound to a name, as its alias or as the name that it has where it comes
/// from.
pub open spec fn has_name(s: ImportedSymbol, name: Seq<char>) -> bool {
    s.name@ == name || opt_view(s.alias) == Some(name)
}

/// Whether an import binds a name.
pub open spec fn binds_name(i: ImportDecl, name: Seq<char>) -> bool {
    exists|k: int| 0 <= k < i.symbols@.len() && has_name(#[trigger] i.symbols@[k], name)
}

/// Whether the path of an import, as it is written, or its package is accepted by a pattern.
pub open spec fn accepted_module(i: ImportDecl, pattern: Seq<char>) -> bool {
    regex_accepts(pattern, i.source@) || (i.raw_specifier is Some && regex_accepts(
        pattern,
        i.raw_specifier->0@,
    ))
}

/// Whether a file imports a name from a module that a pattern accepts.
pub open spec fn imports_from(file: IndexedFile, name: Seq<char>, pattern: Seq<char>) -> bool {
    exists|k: int|
        0 <= k < file.imports@.len() && binds_name(#[trigger] file.imports@[k], name)
            && accepted_module(file.imports@[k], pattern)
}

/// A name is imported from a module that matches where an import binds it, by its alias or its own
/// name, and the path or the package of that import is accepted.
pub proof fn law_imported_from(file: IndexedFile, name: Seq<char>, pattern: Seq<char>)
    ensures
        imported_from(file.imports@, name, pattern) == imports_from(file, name, pattern),
{
    assert forall|k: int| 0 <= k < file.imports@.len() implies comes_from(
        file.imports@[k],
        name,
        pattern,
    ) == (binds_name(#[trigger] file.imports@[k], name) && accepted_module(
        file.imports@[k],
        pattern,
    )) by {
        let i = file.imports@[k];
        if binds(i.symbols@, name) {
            let j = choose|j: int| 0 <= j < i.symbols@.len() && is_called(i.symbols@[j], name);
            assert(has_name(i.symbols@[j], name));
        }
        if binds_name(i, name) {
            let j = choose|j: int| 0 <= j < i.symbols@.len() && has_name(i.symbols@[j], name);
            assert(is_called(i.symbols@[j], name));
        }
    }
    if imported_from(file.imports@, name, pattern) {
        let k = choose|k: int|
            0 <= k < file.imports@.len() && comes_from(file.imports@[k], name, pattern);
        assert(binds_name(file.imports@[k], name));
    }
    if imports_from(file, name, pattern) {
        let k = choose|k: int|
            0 <= k < file.imports@.len() && binds_name(#[trigger] file.imports@[k], name)
                && accepted_module(file.imports@[k], pattern);
        assert(comes_from(file.imports@[k], name, pattern));
    }
}

/// Whether an element of a file is a direct child of another: an element within its span whose
/// parent has its name.
pub open spec fn is_child(file: IndexedFile, r: SymbolRef, c: int) -> bool {
    &&& 0 <= c < file.symbol_refs@.len()
    &&& r.jsx_element_span is Some
    &&& file.symbol_refs@[c].is_jsx_component
    &&& opt_view(file.symbol_refs@[c].parent_component) == Some(r.name@)
    &&& r.jsx_element_span->0.start <= file.symbol_refs@[c].span.start
    &&& file.symbol_refs@[c].span.end <= r.jsx_element_span->0.end
}

/// Whether a direct child of an element has a name that a pattern accepts.
pub open spec fn has_child(file: IndexedFile, r: SymbolRef, pattern: Seq<char>) -> bool {
    exists|c: int|
        #[trigger] is_child(file, r, c) && regex_accepts(pattern, file.symbol_refs@[c].name@)
}

/// Whether a direct child of an element has a name.
pub open spec fn child_named(file: IndexedFile, r: SymbolRef, name: Seq<char>) -> bool {
    exists|c: int| #[trigger] is_child(file, r, c) && file.symbol_refs@[c].name@ == name
}

proof fn lemma_children(file: IndexedFile, r: SymbolRef, n: int)
    requires
        r.jsx_element_span is Some,
        0 <= n <= file.symbol_refs@.len(),
    ensures
        forall|c: int|
            #[trigger] is_child(file, r, c) && c < n ==> children_within(
                file.symbol_refs@,
                n,
                r.name@,
                r.jsx_element_span->0,
            ).contains(file.symbol_refs@[c].name@),
        forall|k: int|
            0 <= k < children_within(file.symbol_refs@, n, r.name@, r.jsx_element_span->0).len()
                ==> child_named(
                file,
                r,
                #[trigger] children_within(
                    file.symbol_refs@,
                    n,
                    r.name@,
                    r.jsx_element_span->0,
                )[k],
            ),
    decreases n,
{
    if n > 0 {
        let refs = file.symbol_refs@;
        let span = r.jsx_element_span->0;
        lemma_children(file, r, n - 1);
        let before = children_within(refs, n - 1, r.name@, span);
        let now = children_within(refs, n, r.name@, span);
        if is_child(file, r, n - 1) {
            assert(now == before.push(refs[n - 1].name@));
            assert(now[before.len() as int] == refs[n - 1].name@);
        } else {
            assert(now == before);
        }
        assert forall|c: int| #[trigger] is_child(file, r, c) && c < n implies now.contains(
            refs[c].name@,
        ) by {
            if c < n - 1 {
                let k = choose|k: int| 0 <= k < before.len() && before[k] == refs[c].name@;
                assert(now[k] == before[k]);
            }
        }
        assert forall|k: int| 0 <= k < now.len() implies child_named(
            file,
            r,
            #[trigger] now[k],
        ) by {
            if k < before.len() {
                assert(now[k] == before[k]);
            } else {
                assert(is_child(file, r, n - 1));
            }
        }
    }
}

/// The children of an element are the elements within it whose parent has its name.
pub proof fn law_children(file: IndexedFile, r: SymbolRef, name: Seq<char>)
    ensures
        children_of(file, r).contains(name) <==> child_named(file, r, name),
{
    if r.jsx_element_span is Some {
        lemma_children(file, r, file.symbol_refs@.len() as int);
        if children_of(file, r).contains(name) {
            let k = choose|k: int|
                0 <= k < children_of(file, r).len() && children_of(file, r)[k] == name;
            assert(child_named(file, r, children_of(file, r)[k]));
        }
        if child_named(file, r, name) {
            let c = choose|c: int| #[trigger]
                is_child(file, r, c) && file.symbol_refs@[c].name@ == name;
            assert(children_of(file, r).contains(file.symbol_refs@[c].name@));
        }
    }
}

proof fn lemma_any_child(names: Seq<Seq<char>>, n: int, pattern: Seq<char>)
    requires
        0 <= n <= names.len(),
    ensures
        any_child(names, n, pattern) <==> exists|k: int|
            0 <= k < n && regex_accepts(pattern, #[trigger] names[k]),
    decreases n,
{
    if n > 0 {
        lemma_any_child(names, n - 1, pattern);
    }
}

proof fn lemma_has_child(file: IndexedFile, r: SymbolRef, pattern: Seq<char>)
    ensures
        any_child(children_of(file, r), children_of(file, r).len() as int, pattern) == has_child(
            file,
            r,
            pattern,
        ),
{
    let names = children_of(file, r);
    lemma_any_child(names, names.len() as int, pattern);
    if has_child(file, r, pattern) {
        let c = choose|c: int| #[trigger]
            is_child(file, r, c) && regex_accepts(pattern, file.symbol_refs@[c].name@);
        assert(child_named(file, r, file.symbol_refs@[c].name@));
        law_children(file, r, file.symbol_refs@[c].name@);
        let k = choose|k: int| 0 <= k < names.len() && names[k] == file.symbol_refs@[c].name@;
        assert(regex_accepts(pattern, names[k]));
    }
    if any_child(names, names.len() as int, pattern) {
        let k = choose|k: int| 0 <= k < names.len() && regex_accepts(pattern, #[trigger] names[k]);
        assert(names.contains(names[k]));
        law_children(file, r, names[k]);
        let c = choose|c: int| #[trigger]
            is_child(file, r, c) && file.symbol_refs@[c].name@ == names[k];
        assert(is_child(file, r, c));
    }
}

/// Whether an element has a name that a pattern accepts, as a whole or behind the last dot.
pub open spec fn named_so(name: Seq<char>, pattern: Seq<char>) -> bool {
    regex_accepts(pattern, name) || exists|tail: Seq<char>| #[trigger]
        is_tail(name, tail) && regex_accepts(pattern, tail)
}

/// Whether an element meets the condition on the module that its component comes from: where there
/// is one, an import of the file binds the name up to the first dot.
pub open spec fn comes_from_there(file: IndexedFile, name: Seq<char>, q: QueryV) -> bool {
    q.from is Some ==> exists|head: Seq<char>| #[trigger]
        is_head(name, head) && imports_from(file, head, q.from->0)
}

/// Whether an element meets the conditions on the component that it is rendered in. Where there is
/// none it meets no such condition.
pub open spec fn parent_is_right(
    index: ProjectIndex,
    file: IndexedFile,
    r: SymbolRef,
    q: QueryV,
) -> bool {
    let parent = rendered_in(index, file, r);
    &&& q.parent is Some || q.not_parent is Some || q.parent_from is Some ==> parent is Some
    &&& q.parent is Some ==> regex_accepts(q.parent->0, parent->0)
    &&& q.not_parent is Some ==> !regex_accepts(q.not_parent->0, parent->0)
    &&& q.parent_from is Some ==> imports_from(file, parent->0, q.parent_from->0)
}

/// Whether an element of a file is one that a query for components asks for.
pub open spec fn asked_for(
    index: ProjectIndex,
    file: IndexedFile,
    r: SymbolRef,
    q: QueryV,
) -> bool {
    &&& r.is_jsx_component
    &&& named_so(r.name@, q.pattern)
    &&& comes_from_there(file, r.name@, q)
    &&& parent_is_right(index, file, r, q)
    &&& q.child is Some ==> has_child(file, r, q.child->0)
    &&& q.requires_child is Some ==> !has_child(file, r, q.requires_child->0)
}

/// Whether an incident stands where an element of a file does, and names its component.
pub open spec fn stands_for(i: IncidentV, file: IndexedFile, r: SymbolRef) -> bool {
    &&& i.file_uri == "file://"@ + file.path@
    &&& i.line_number == Some(capped(line_at(file.source_text@, r.span.start)))
    &&& gives(i, "componentName"@)
    &&& given(i, "componentName"@) == r.name@
}

pub proof fn lemma_named_so(name: Seq<char>, pattern: Seq<char>)
    ensures
        matches_component(name, pattern) == named_so(name, pattern),
{
    law_parts(name);
    assert(is_tail(name, last_part(name)));
    assert forall|tail: Seq<char>| #[trigger] is_tail(name, tail) implies tail == last_part(
        name,
    ) by {
        lemma_tail(name, tail, last_part(name));
    }
}

pub proof fn lemma_comes_from_there(file: IndexedFile, name: Seq<char>, q: QueryV)
    ensures
        element_from(file, name, q) == comes_from_there(file, name, q),
{
    law_parts(name);
    assert(is_head(name, first_part(name)));
    assert forall|head: Seq<char>| #[trigger] is_head(name, head) implies head == first_part(
        name,
    ) by {
        lemma_head(name, head, first_part(name));
    }
    if let Some(p) = q.from {
        law_imported_from(file, first_part(name), p);
    }
}

proof fn lemma_asked_for(index: ProjectIndex, file: IndexedFile, r: SymbolRef, q: QueryV)
    ensures
        asked_for(index, file, r, q) == (r.is_jsx_component && matches_component(
            r.name@,
            q.pattern,
        ) && element_from(file, r.name@, q) && parent_fits(file, rendered_in(index, file, r), q)
            && children_fit(children_of(file, r), q)),
{
    lemma_named_so(r.name@, q.pattern);
    lemma_comes_from_there(file, r.name@, q);
    if let Some(p) = q.parent_from {
        law_imported_from(file, rendered_in(index, file, r)->0, p);
    }
    if let Some(p) = q.child {
        lemma_has_child(file, r, p);
    }
    if let Some(p) = q.requires_child {
        lemma_has_child(file, r, p);
    }
}

/// What is in one of two lists is in the two together.
pub proof fn lemma_in_either(a: Seq<IncidentV>, b: Seq<IncidentV>, i: IncidentV)
    ensures
        (a + b).contains(i) <==> a.contains(i) || b.contains(i),
{
    let s = a + b;
    if a.contains(i) {
        let k = choose|k: int| 0 <= k < a.len() && a[k] == i;
        assert(s[k] == i);
    }
    if b.contains(i) {
        let k = choose|k: int| 0 <= k < b.len() && b[k] == i;
        assert(s[a.len() + k] == i);
    }
    if s.contains(i) {
        let k = choose|k: int| 0 <= k < s.len() && s[k] == i;
        if k < a.len() {
            assert(a[k] == i);
        } else {
            assert(b[k - a.len()] == i);
        }
    }
}

/// Whether an incident is one of those for one of the first `n` elements of a file.
spec fn from_element(
    index: ProjectIndex,
    file: IndexedFile,
    n: int,
    q: QueryV,
    i: IncidentV,
) -> bool {
    exists|k: int|
        0 <= k < n && element_hits(index, file, #[trigger] file.symbol_refs@[k], q).contains(i)
}

proof fn lemma_of_file(index: ProjectIndex, file: IndexedFile, n: int, q: QueryV, i: IncidentV)
    requires
        0 <= n <= file.symbol_refs@.len(),
    ensures
        component_hits(index, file, n, q).contains(i) == from_element(index, file, n, q, i),
    decreases n,
{
    if n > 0 {
        let refs = file.symbol_refs@;
        lemma_of_file(index, file, n - 1, q, i);
        let before = component_hits(index, file, n - 1, q);
        let more = element_hits(index, file, refs[n - 1], q);
        assert(component_hits(index, file, n, q) == before + more);
        lemma_in_either(before, more, i);
        if from_element(index, file, n - 1, q, i) {
            let k = choose|k: int|
                0 <= k < n - 1 && element_hits(index, file, #[trigger] refs[k], q).contains(i);
            assert(element_hits(index, file, refs[k], q).contains(i));
        }
    }
}

/// Whether an incident is one of those for an element of one of the first `n` files, of those that
/// the query wants.
spec fn from_file(
    index: ProjectIndex,
    files: Seq<IndexedFile>,
    n: int,
    q: QueryV,
    i: IncidentV,
) -> bool {
    exists|f: int|
        0 <= f < n && wants_file((#[trigger] files[f]).path@, q) && from_element(
            index,
            files[f],
            files[f].symbol_refs@.len() as int,
            q,
            i,
        )
}

proof fn lemma_of_files(
    index: ProjectIndex,
    files: Seq<IndexedFile>,
    n: int,
    q: QueryV,
    i: IncidentV,
)
    requires
        0 <= n <= files.len(),
    ensures
        all_component_hits(index, files, n, q).contains(i) == from_file(index, files, n, q, i),
    decreases n,
{
    if n > 0 {
        let f = files[n - 1];
        lemma_of_files(index, files, n - 1, q, i);
        let before = all_component_hits(index, files, n - 1, q);
        let more = component_hits(index, f, f.symbol_refs@.len() as int, q);
        lemma_of_file(index, f, f.symbol_refs@.len() as int, q, i);
        if wants_file(f.path@, q) {
            assert(all_component_hits(index, files, n, q) == before + more);
            lemma_in_either(before, more, i);
        } else {
            assert(all_component_hits(index, files, n, q) == before);
        }
        if from_file(index, files, n - 1, q, i) {
            let k = choose|k: int|
                0 <= k < n - 1 && wants_file((#[trigger] files[k]).path@, q) && from_element(
                    index,
                    files[k],
                    files[k].symbol_refs@.len() as int,
                    q,
                    i,
                );
            assert(wants_file(files[k].path@, q));
        }
    }
}

proof fn lemma_keys()
    ensures
        "componentName"@ != "childName"@,
        "componentName"@ != "parentName"@,
        "componentName"@ != "parentFrom"@,
        "componentName"@ != "module"@,
        "parentName"@ != "parentFrom"@,
        "parentName"@ != "module"@,
        "parentFrom"@ != "module"@,
        "childName"@ != "module"@,
{
    reveal_strlit("componentName");
    reveal_strlit("childName");
    reveal_strlit("parentName");
    reveal_strlit("parentFrom");
    reveal_strlit("module");
    assert("componentName"@.len() == 13);
    assert("childName"@.len() == 9);
    assert("parentName"@.len() == 10);
    assert("parentFrom"@.len() == 10);
    assert("module"@.len() == 6);
    assert("parentName"@[6] == 'N');
    assert("parentFrom"@[6] == 'F');
}

/// Whether what an incident says of the module of a name, under a key, is right: the path of the
/// first import that binds the name, or nothing where no import does.
pub open spec fn tells_module(
    i: IncidentV,
    key: Seq<char>,
    file: IndexedFile,
    name: Seq<char>,
) -> bool {
    if exists|k: int| 0 <= k < file.imports@.len() && binds_name(#[trigger] file.imports@[k], name) {
        gives(i, key) && exists|k: int|
            {
                &&& 0 <= k < file.imports@.len()
                &&& binds_name(#[trigger] file.imports@[k], name)
                &&& forall|j: int|
                    0 <= j < k ==> !binds_name(#[trigger] file.imports@[j], name)
                &&& given(i, key) == match file.imports@[k].raw_specifier {
                    Some(s) => s@,
                    None => file.imports@[k].source@,
                }
            }
    } else {
        !i.variables.dom().contains(key)
    }
}

proof fn lemma_module(imports: Seq<ImportDecl>, name: Seq<char>, from: int)
    requires
        0 <= from <= imports.len(),
    ensures
        match module_from(imports, from, name) {
            Some(m) => exists|k: int|
                {
                    &&& from <= k < imports.len()
                    &&& binds_name(#[trigger] imports[k], name)
                    &&& forall|j: int| from <= j < k ==> !binds_name(#[trigger] imports[j], name)
                    &&& m == match imports[k].raw_specifier {
                        Some(s) => s@,
                        None => imports[k].source@,
                    }
                },
            None => forall|j: int|
                from <= j < imports.len() ==> !binds_name(#[trigger] imports[j], name),
        },
    decreases imports.len() - from,
{
    if from < imports.len() {
        let i = imports[from];
        if binds(i.symbols@, name) {
            let j = choose|j: int| 0 <= j < i.symbols@.len() && is_called(i.symbols@[j], name);
            assert(has_name(i.symbols@[j], name));
            assert(binds_name(imports[from], name));
        } else {
            assert(!binds_name(imports[from], name)) by {
                if binds_name(i, name) {
                    let j = choose|j: int|
                        0 <= j < i.symbols@.len() && has_name(i.symbols@[j], name);
                    assert(is_called(i.symbols@[j], name));
                }
            }
            lemma_module(imports, name, from + 1);
            if module_from(imports, from + 1, name) is Some {
                let m = module_from(imports, from + 1, name)->0;
                let k = choose|k: int|
                    {
                        &&& from + 1 <= k < imports.len()
                        &&& binds_name(#[trigger] imports[k], name)
                        &&& forall|j: int|
                            from + 1 <= j < k ==> !binds_name(#[trigger] imports[j], name)
                        &&& m == match imports[k].raw_specifier {
                            Some(s) => s@,
                            None => imports[k].source@,
                        }
                    };
                assert(binds_name(imports[k], name));
            }
        }
    }
}

pub proof fn lemma_tells_module(i: IncidentV, key: Seq<char>, file: IndexedFile, name: Seq<char>)
    requires
        !i.variables.dom().contains(key),
    ensures
        tells_module(with_module(i, key, file, name), key, file, name),
{
    lemma_module(file.imports@, name, 0);
}

/// Whether what an incident says of the component that an element is rendered in is right.
pub open spec fn tells_parent(
    i: IncidentV,
    index: ProjectIndex,
    file: IndexedFile,
    r: SymbolRef,
) -> bool {
    match rendered_in(index, file, r) {
        Some(p) => {
            &&& gives(i, "parentName"@)
            &&& given(i, "parentName"@) == p
            &&& tells_module(i, "parentFrom"@, file, p)
        },
        None => {
            &&& !i.variables.dom().contains("parentName"@)
            &&& !i.variables.dom().contains("parentFrom"@)
        },
    }
}

proof fn lemma_element_incident(index: ProjectIndex, file: IndexedFile, r: SymbolRef)
    ensures
        ({
            let i = element_incident(file, r, rendered_in(index, file, r));
            &&& stands_for(i, file, r)
            &&& tells_module(i, "module"@, file, r.name@)
            &&& tells_parent(i, index, file, r)
        }),
{
    lemma_keys();
    let base = span_incident(file, r.span).with_text("componentName"@, r.name@);
    match rendered_in(index, file, r) {
        Some(p) => {
            let named = base.with_text("parentName"@, p);
            lemma_tells_module(named, "module"@, file, r.name@);
            let placed = with_module(named, "module"@, file, r.name@);
            assert(!placed.variables.dom().contains("parentFrom"@));
            lemma_tells_module(placed, "parentFrom"@, file, p);
        },
        None => {
            lemma_tells_module(base, "module"@, file, r.name@);
        },
    }
}

/// Whether an incident names a text as the child of an element.
pub open spec fn tells_child(i: IncidentV, name: Seq<char>) -> bool {
    gives(i, "childName"@) && given(i, "childName"@) == name
}

spec fn stranger(file: IndexedFile, r: SymbolRef, name: Seq<char>) -> IncidentV {
    with_module(
        span_incident(file, r.span).with_text("componentName"@, r.name@).with_text(
            "childName"@,
            name,
        ),
        "module"@,
        file,
        r.name@,
    )
}

proof fn lemma_stranger(file: IndexedFile, r: SymbolRef, name: Seq<char>)
    ensures
        stands_for(stranger(file, r, name), file, r),
        tells_child(stranger(file, r, name), name),
        tells_module(stranger(file, r, name), "module"@, file, r.name@),
{
    lemma_keys();
    let base = span_incident(file, r.span).with_text("componentName"@, r.name@).with_text(
        "childName"@,
        name,
    );
    lemma_tells_module(base, "module"@, file, r.name@);
}

proof fn lemma_strangers(
    file: IndexedFile,
    r: SymbolRef,
    names: Seq<Seq<char>>,
    n: int,
    pattern: Seq<char>,
)
    requires
        0 <= n <= names.len(),
    ensures
        forall|k: int|
            0 <= k < n && !regex_accepts(pattern, #[trigger] names[k]) ==> stranger_hits(
                file,
                r,
                names,
                n,
                pattern,
            ).contains(stranger(file, r, names[k])),
        forall|k: int|
            0 <= k < stranger_hits(file, r, names, n, pattern).len() ==> is_stranger(
                file,
                r,
                names,
                pattern,
                #[trigger] stranger_hits(file, r, names, n, pattern)[k],
            ),
    decreases n,
{
    if n > 0 {
        lemma_strangers(file, r, names, n - 1, pattern);
        let before = stranger_hits(file, r, names, n - 1, pattern);
        let now = stranger_hits(file, r, names, n, pattern);
        let hit = stranger(file, r, names[n - 1]);
        if regex_accepts(pattern, names[n - 1]) {
            assert(now == before);
        } else {
            assert(now == before.push(hit));
            assert(now[before.len() as int] == hit);
        }
        assert forall|k: int|
            0 <= k < n && !regex_accepts(pattern, #[trigger] names[k]) implies now.contains(
            stranger(file, r, names[k]),
        ) by {
            if k < n - 1 {
                let j = choose|j: int|
                    0 <= j < before.len() && before[j] == stranger(file, r, names[k]);
                assert(now[j] == before[j]);
            }
        }
        assert forall|k: int| 0 <= k < now.len() implies is_stranger(
            file,
            r,
            names,
            pattern,
            #[trigger] now[k],
        ) by {
            if k < before.len() {
                assert(now[k] == before[k]);
            } else {
                assert(!regex_accepts(pattern, names[n - 1]));
            }
        }
    }
}

spec fn is_stranger(
    file: IndexedFile,
    r: SymbolRef,
    names: Seq<Seq<char>>,
    pattern: Seq<char>,
    i: IncidentV,
) -> bool {
    exists|k: int|
        0 <= k < names.len() && !regex_accepts(pattern, #[trigger] names[k]) && i == stranger(
            file,
            r,
            names[k],
        )
}

/// The incidents of a query for components.
pub open spec fn reported(index: ProjectIndex, q: QueryV) -> Seq<IncidentV> {
    query_hits(index, Some(ReferenceLocation::JsxComponent), q)
}

/// Every element that a query for components asks for is reported, at its place, with the module
/// that it comes from and the component that it is rendered in.
pub proof fn law_component_reported(index: ProjectIndex, q: QueryV, f: int, k: int)
    requires
        0 <= f < index.files().len(),
        0 <= k < index.files()[f].symbol_refs@.len(),
    ensures
        wants_file(index.files()[f].path@, q) && q.not_child is None && asked_for(
            index,
            index.files()[f],
            index.files()[f].symbol_refs@[k],
            q,
        ) ==> exists|i: IncidentV|
            {
                &&& #[trigger] reported(index, q).contains(i)
                &&& stands_for(i, index.files()[f], index.files()[f].symbol_refs@[k])
                &&& tells_parent(
                    i,
                    index,
                    index.files()[f],
                    index.files()[f].symbol_refs@[k],
                )
                &&& tells_module(
                    i,
                    "module"@,
                    index.files()[f],
                    index.files()[f].symbol_refs@[k].name@,
                )
            },
{
    let files = index.files();
    let file = files[f];
    let r = file.symbol_refs@[k];
    if wants_file(file.path@, q) && q.not_child is None && asked_for(index, file, r, q) {
        lemma_asked_for(index, file, r, q);
        let hit = element_incident(file, r, rendered_in(index, file, r));
        lemma_element_incident(index, file, r);
        assert(element_hits(index, file, r, q) == seq![hit]);
        assert(seq![hit][0] == hit);
        assert(element_hits(index, file, file.symbol_refs@[k], q).contains(hit));
        assert(from_element(index, file, file.symbol_refs@.len() as int, q, hit));
        lemma_of_files(index, files, files.len() as int, q, hit);
        assert(from_file(index, files, files.len() as int, q, hit));
        assert(reported(index, q).contains(hit));
    }
}

/// Where the children of the elements are to match a pattern, every direct child that does not is
/// reported, at the place of the element around it.
pub proof fn law_other_child_reported(index: ProjectIndex, q: QueryV, f: int, k: int, c: int)
    requires
        0 <= f < index.files().len(),
        0 <= k < index.files()[f].symbol_refs@.len(),
        q.not_child is Some,
        is_child(index.files()[f], index.files()[f].symbol_refs@[k], c),
    ensures
        wants_file(index.files()[f].path@, q) && asked_for(
            index,
            index.files()[f],
            index.files()[f].symbol_refs@[k],
            q,
        ) && !regex_accepts(q.not_child->0, index.files()[f].symbol_refs@[c].name@)
            ==> exists|i: IncidentV|
            {
                &&& #[trigger] reported(index, q).contains(i)
                &&& stands_for(i, index.files()[f], index.files()[f].symbol_refs@[k])
                &&& tells_child(i, index.files()[f].symbol_refs@[c].name@)
                &&& tells_module(
                    i,
                    "module"@,
                    index.files()[f],
                    index.files()[f].symbol_refs@[k].name@,
                )
            },
{
    let files = index.files();
    let file = files[f];
    let r = file.symbol_refs@[k];
    let name = file.symbol_refs@[c].name@;
    let p = q.not_child->0;
    if wants_file(file.path@, q) && asked_for(index, file, r, q) && !regex_accepts(p, name) {
        lemma_asked_for(index, file, r, q);
        let names = children_of(file, r);
        assert(child_named(file, r, name));
        law_children(file, r, name);
        let j = choose|j: int| 0 <= j < names.len() && names[j] == name;
        lemma_strangers(file, r, names, names.len() as int, p);
        let hit = stranger(file, r, names[j]);
        lemma_stranger(file, r, name);
        assert(element_hits(index, file, file.symbol_refs@[k], q).contains(hit));
        assert(from_element(index, file, file.symbol_refs@.len() as int, q, hit));
        lemma_of_files(index, files, files.len() as int, q, hit);
        assert(from_file(index, files, files.len() as int, q, hit));
        assert(reported(index, q).contains(hit));
    }
}

/// Whether an incident stands for an element of a file that the query asks for.
pub open spec fn has_reason(
    i: IncidentV,
    index: ProjectIndex,
    q: QueryV,
    file: IndexedFile,
    r: SymbolRef,
) -> bool {
    &&& wants_file(file.path@, q)
    &&& asked_for(index, file, r, q)
    &&& stands_for(i, file, r)
    &&& tells_module(i, "module"@, file, r.name@)
    &&& match q.not_child {
        Some(p) => exists|c: int|
            {
                &&& #[trigger] is_child(file, r, c)
                &&& !regex_accepts(p, file.symbol_refs@[c].name@)
                &&& tells_child(i, file.symbol_refs@[c].name@)
            },
        None => tells_parent(i, index, file, r),
    }
}

/// Everything that a query for components reports stands for an element that it asks for.
pub proof fn law_component_asked_for(index: ProjectIndex, q: QueryV, n: int)
    requires
        0 <= n < reported(index, q).len(),
    ensures
        exists|f: int, k: int|
            {
                &&& 0 <= f < index.files().len()
                &&& 0 <= k < index.files()[f].symbol_refs@.len()
                &&& has_reason(
                    reported(index, q)[n],
                    index,
                    q,
                    index.files()[f],
                    #[trigger] index.files()[f].symbol_refs@[k],
                )
            },
{
    let files = index.files();
    let i = reported(index, q)[n];
    assert(reported(index, q).contains(i));
    lemma_of_files(index, files, files.len() as int, q, i);
    let f = choose|f: int|
        0 <= f < files.len() && wants_file((#[trigger] files[f]).path@, q) && from_element(
            index,
            files[f],
            files[f].symbol_refs@.len() as int,
            q,
            i,
        );
    let file = files[f];
    let k = choose|k: int|
        0 <= k < file.symbol_refs@.len() && element_hits(
            index,
            file,
            #[trigger] file.symbol_refs@[k],
            q,
        ).contains(i);
    let r = file.symbol_refs@[k];
    lemma_asked_for(index, file, r, q);
    match q.not_child {
        Some(p) => {
            let names = children_of(file, r);
            let hits = stranger_hits(file, r, names, names.len() as int, p);
            lemma_strangers(file, r, names, names.len() as int, p);
            let j = choose|j: int| 0 <= j < hits.len() && hits[j] == i;
            assert(is_stranger(file, r, names, p, hits[j]));
            let c = choose|c: int|
                0 <= c < names.len() && !regex_accepts(p, #[trigger] names[c]) && i == stranger(
                    file,
                    r,
                    names[c],
                );
            lemma_stranger(file, r, names[c]);
            assert(names.contains(names[c]));
            law_children(file, r, names[c]);
            let d = choose|d: int| #[trigger]
                is_child(file, r, d) && file.symbol_refs@[d].name@ == names[c];
            assert(is_child(file, r, d));
        },
        None => {
            lemma_element_incident(index, file, r);
        },
    }
    assert(has_reason(i, index, q, files[f], files[f].symbol_refs@[k]));
}

/// Where no file imports anything from a module that the pattern for modules accepts, nothing is
/// reported.
pub proof fn law_component_needs_module(index: ProjectIndex, q: QueryV)
    requires
        q.from is Some,
    ensures
        (forall|f: int, k: int|
            0 <= f < index.files().len() && 0 <= k < index.files()[f].imports@.len()
                ==> !accepted_module(#[trigger] index.files()[f].imports@[k], q.from->0))
            ==> reported(index, q).len() == 0,
{
    if (forall|f: int, k: int|
        0 <= f < index.files().len() && 0 <= k < index.files()[f].imports@.len()
            ==> !accepted_module(#[trigger] index.files()[f].imports@[k], q.from->0))
        && reported(index, q).len() > 0 {
        law_component_asked_for(index, q, 0);
        let (f, k) = choose|f: int, k: int|
            {
                &&& 0 <= f < index.files().len()
                &&& 0 <= k < index.files()[f].symbol_refs@.len()
                &&& has_reason(
                    reported(index, q)[0],
                    index,
                    q,
                    index.files()[f],
                    #[trigger] index.files()[f].symbol_refs@[k],
                )
            };
        let file = index.files()[f];
        let name = file.symbol_refs@[k].name@;
        let head = choose|head: Seq<char>| #[trigger]
            is_head(name, head) && imports_from(file, head, q.from->0);
        let j = choose|j: int|
            0 <= j < file.imports@.len() && binds_name(#[trigger] file.imports@[j], head)
                && accepted_module(file.imports@[j], q.from->0);
        assert(!accepted_module(index.files()[f].imports@[j], q.from->0));
    }
}

/// How many of the first `n` elements of a file are asked for.
pub open spec fn asked_count(index: ProjectIndex, file: IndexedFile, n: int, q: QueryV) -> nat
    decreases n,
{
    if n <= 0 || n > file.symbol_refs@.len() {
        0
    } else {
        asked_count(index, file, n - 1, q) + if asked_for(
            index,
            file,
            file.symbol_refs@[n - 1],
            q,
        ) {
            1nat
        } else {
            0
        }
    }
}

/// How many elements of the first `n` files, of those that the query wants, are asked for.
pub open spec fn asked_in(index: ProjectIndex, files: Seq<IndexedFile>, n: int, q: QueryV) -> nat
    decreases n,
{
    if n <= 0 || n > files.len() {
        0
    } else {
        asked_in(index, files, n - 1, q) + if wants_file(files[n - 1].path@, q) {
            asked_count(index, files[n - 1], files[n - 1].symbol_refs@.len() as int, q)
        } else {
            0
        }
    }
}

proof fn lemma_file_count(index: ProjectIndex, file: IndexedFile, n: int, q: QueryV)
    requires
        q.not_child is None,
        0 <= n <= file.symbol_refs@.len(),
    ensures
        component_hits(index, file, n, q).len() == asked_count(index, file, n, q),
    decreases n,
{
    if n > 0 {
        lemma_file_count(index, file, n - 1, q);
        lemma_asked_for(index, file, file.symbol_refs@[n - 1], q);
    }
}

proof fn lemma_files_count(index: ProjectIndex, files: Seq<IndexedFile>, n: int, q: QueryV)
    requires
        q.not_child is None,
        0 <= n <= files.len(),
    ensures
        all_component_hits(index, files, n, q).len() == asked_in(index, files, n, q),
    decreases n,
{
    if n > 0 {
        lemma_files_count(index, files, n - 1, q);
        lemma_file_count(index, files[n - 1], files[n - 1].symbol_refs@.len() as int, q);
    }
}

/// Each element that is asked for is reported once.
pub proof fn law_components_counted(index: ProjectIndex, q: QueryV)
    requires
        q.not_child is None,
    ensures
        reported(index, q).len() == asked_in(index, index.files(), index.files().len() as int, q),
{
    lemma_files_count(index, index.files(), index.files().len() as int, q);
}

} // verus!
