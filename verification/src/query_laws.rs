//! What holds of everything that a query reports.

use crate::capabilities::ReferenceLocation;
use crate::incident::IncidentV;
use crate::pattern::regex_accepts;
use crate::project_index::{
    ImportDecl, IndexedFile, JsxProp, ProjectIndex, Span, SymbolRef, TypedObject,
};
use crate::query_eval::{
    all_component_hits, all_import_hits, all_prop_hits, all_ref_hits, component_hits, def_hits,
    element_hits, element_incident, element_prop_hits, import_hits, import_incident,
    local_object_hits, marked_hits, object_hits, prop_hits, prop_incident, prop_value, props_hits,
    query_hits, ref_hits, ref_incident, rendered_in, span_incident, spread_name, spread_names,
    stranger_hits, symbol_hits, symbol_matches, typed_hits, value_fits, wants_file, wants_ref,
    with_module, QueryV,
};
use crate::query_names::{component_of, matches_component, props_annotation, props_text};
use crate::query_parents::children_of;
use vstd::prelude::*;

verus! {

/// Whether an incident gives a text as a variable.
pub open spec fn gives(i: IncidentV, key: Seq<char>) -> bool {
    i.variables.dom().contains(key) && i.variables[key] is Text
}

/// The text that an incident gives as a variable.
pub open spec fn given(i: IncidentV, key: Seq<char>) -> Seq<char> {
    i.variables[key]->Text_0
}

/// Whether an incident is one that a query for props may report: it names a prop that matches.
pub open spec fn is_prop_answer(i: IncidentV, q: QueryV) -> bool {
    gives(i, "propName"@) && regex_accepts(q.pattern, given(i, "propName"@))
}

/// Whether an incident is one that a query for components may report: it names a component that
/// matches.
pub open spec fn is_component_answer(i: IncidentV, q: QueryV) -> bool {
    gives(i, "componentName"@) && matches_component(given(i, "componentName"@), q.pattern)
}

/// Whether an incident is one that a query for types or for calls may report: it names a text that
/// matches.
pub open spec fn is_ref_answer(i: IncidentV, q: QueryV) -> bool {
    gives(i, "matchingText"@) && regex_accepts(q.pattern, given(i, "matchingText"@))
}

/// Whether an incident is one that a query at a location may report. One for imports may name a
/// symbol by another name than the one that matches.
pub open spec fn is_answer(i: IncidentV, location: ReferenceLocation, q: QueryV) -> bool {
    match location {
        ReferenceLocation::Import => gives(i, "matchingText"@) && gives(i, "module"@),
        ReferenceLocation::JsxComponent => is_component_answer(i, q),
        ReferenceLocation::JsxProp => is_prop_answer(i, q),
        ReferenceLocation::FunctionCall | ReferenceLocation::TypeReference => is_ref_answer(i, q),
    }
}

/// Whether an incident stands in a file.
pub open spec fn stands_in(i: IncidentV, file: IndexedFile) -> bool {
    i.file_uri == "file://"@ + file.path@
}

/// Whether all of some incidents stand in a file and are those that a query may report.
pub open spec fn all_answers(
    s: Seq<IncidentV>,
    file: IndexedFile,
    location: ReferenceLocation,
    q: QueryV,
) -> bool {
    forall|k: int|
        0 <= k < s.len() ==> stands_in(#[trigger] s[k], file) && is_answer(s[k], location, q)
}

/// Whether an incident stands in one of some files, of those that the query wants.
pub open spec fn stands_in_one(i: IncidentV, files: Seq<IndexedFile>, q: QueryV) -> bool {
    exists|k: int|
        0 <= k < files.len() && wants_file(files[k].path@, q) && stands_in(
            i,
            #[trigger] files[k],
        )
}

/// Whether all of some incidents stand in files that the query wants and are those that it may
/// report.
pub open spec fn all_in_files(
    s: Seq<IncidentV>,
    files: Seq<IndexedFile>,
    location: ReferenceLocation,
    q: QueryV,
) -> bool {
    forall|k: int|
        0 <= k < s.len() ==> stands_in_one(#[trigger] s[k], files, q) && is_answer(
            s[k],
            location,
            q,
        )
}

proof fn lemma_names()
    ensures
        "propName"@ != "componentName"@,
        "propName"@ != "spreadSource"@,
        "propName"@ != "nestedObjectKey"@,
        "propName"@ != "typedObjectLiteral"@,
        "propName"@ != "propValue"@,
        "propName"@ != "module"@,
        "componentName"@ != "childName"@,
        "componentName"@ != "parentName"@,
        "componentName"@ != "parentFrom"@,
        "componentName"@ != "module"@,
        "matchingText"@ != "module"@,
        "matchingText"@ != "callArgValue"@,
{
    reveal_strlit("propName");
    reveal_strlit("componentName");
    reveal_strlit("spreadSource");
    reveal_strlit("nestedObjectKey");
    reveal_strlit("typedObjectLiteral");
    reveal_strlit("propValue");
    reveal_strlit("module");
    reveal_strlit("childName");
    reveal_strlit("parentName");
    reveal_strlit("parentFrom");
    reveal_strlit("matchingText");
    reveal_strlit("callArgValue");
    assert("propName"@.len() == 8);
    assert("componentName"@.len() == 13);
    assert("spreadSource"@.len() == 12);
    assert("nestedObjectKey"@.len() == 15);
    assert("typedObjectLiteral"@.len() == 18);
    assert("propValue"@.len() == 9);
    assert("module"@.len() == 6);
    assert("childName"@.len() == 9);
    assert("parentName"@.len() == 10);
    assert("parentFrom"@.len() == 10);
    assert("matchingText"@.len() == 12);
    assert("matchingText"@[0] == 'm');
    assert("callArgValue"@[0] == 'c');
}

proof fn lemma_symbols(file: IndexedFile, i: ImportDecl, n: int, q: QueryV)
    ensures
        all_answers(symbol_hits(file, i, n, q), file, ReferenceLocation::Import, q),
    decreases n,
{
    lemma_names();
    if 0 < n <= i.symbols@.len() {
        lemma_symbols(file, i, n - 1, q);
        if symbol_matches(i.symbols@[n - 1], q) {
            let hit = import_incident(file, i, i.symbols@[n - 1]);
            assert(symbol_hits(file, i, n, q) == symbol_hits(file, i, n - 1, q).push(hit));
        }
    }
}

proof fn lemma_imports(file: IndexedFile, n: int, q: QueryV)
    ensures
        all_answers(import_hits(file, n, q), file, ReferenceLocation::Import, q),
    decreases n,
{
    if 0 < n <= file.imports@.len() {
        lemma_imports(file, n - 1, q);
        let i = file.imports@[n - 1];
        lemma_symbols(file, i, i.symbols@.len() as int, q);
        assert(import_hits(file, n, q) == import_hits(file, n - 1, q) || import_hits(file, n, q)
            == import_hits(file, n - 1, q) + symbol_hits(file, i, i.symbols@.len() as int, q));
    }
}

proof fn lemma_marked(
    file: IndexedFile,
    span: Span,
    names: Seq<String>,
    n: int,
    component: Seq<char>,
    mark: Seq<char>,
    module_of: Option<Seq<char>>,
    q: QueryV,
)
    requires
        mark != "propName"@,
    ensures
        all_answers(
            marked_hits(file, span, names, n, component, mark, module_of, q),
            file,
            ReferenceLocation::JsxProp,
            q,
        ),
    decreases n,
{
    lemma_names();
    if 0 < n <= names.len() {
        lemma_marked(file, span, names, n - 1, component, mark, module_of, q);
        let before = marked_hits(file, span, names, n - 1, component, mark, module_of, q);
        if regex_accepts(q.pattern, names[n - 1]@) && value_fits(file, span, names[n - 1]@, q) {
            let i = prop_incident(file, span, names[n - 1]@, component).with_text(mark, "true"@);
            let hit = match module_of {
                Some(name) => with_module(i, "module"@, file, name),
                None => i,
            };
            assert(is_prop_answer(hit, q));
            assert(marked_hits(file, span, names, n, component, mark, module_of, q)
                == before.push(hit));
        }
    }
}

proof fn lemma_prop(
    index: ProjectIndex,
    file: IndexedFile,
    component: Seq<char>,
    p: JsxProp,
    q: QueryV,
)
    ensures
        all_answers(
            prop_hits(index, file, component, p, q),
            file,
            ReferenceLocation::JsxProp,
            q,
        ),
{
    lemma_names();
    let spread = "spreadSource"@;
    let inline = p.spread_properties@;
    lemma_marked(file, p.span, inline, inline.len() as int, component, spread, None, q);
    if let Some(text) = p.expression_text {
        if let Some(names) = spread_names(index, file, spread_name(text@), q) {
            lemma_marked(file, p.span, names, names.len() as int, component, spread, None, q);
        }
    }
    let keys = p.nested_object_keys@;
    lemma_marked(
        file,
        p.span,
        keys,
        keys.len() as int,
        component,
        "nestedObjectKey"@,
        Some(component),
        q,
    );
    if regex_accepts(q.pattern, p.name@) {
        let base = prop_incident(file, p.span, p.name@, component);
        let valued = match prop_value(p) {
            Some(v) => base.with_text("propValue"@, v),
            None => base,
        };
        assert(is_prop_answer(with_module(valued, "module"@, file, component), q));
    }
}

proof fn lemma_props(index: ProjectIndex, file: IndexedFile, r: SymbolRef, n: int, q: QueryV)
    ensures
        all_answers(props_hits(index, file, r, n, q), file, ReferenceLocation::JsxProp, q),
    decreases n,
{
    if 0 < n <= r.jsx_props@.len() {
        lemma_props(index, file, r, n - 1, q);
        lemma_prop(index, file, r.name@, r.jsx_props@[n - 1], q);
        assert(props_hits(index, file, r, n, q) == props_hits(index, file, r, n - 1, q) + prop_hits(
            index,
            file,
            r.name@,
            r.jsx_props@[n - 1],
            q,
        ));
    }
}

proof fn lemma_element_props(index: ProjectIndex, file: IndexedFile, n: int, q: QueryV)
    ensures
        all_answers(element_prop_hits(index, file, n, q), file, ReferenceLocation::JsxProp, q),
    decreases n,
{
    if 0 < n <= file.symbol_refs@.len() {
        lemma_element_props(index, file, n - 1, q);
        let r = file.symbol_refs@[n - 1];
        lemma_props(index, file, r, r.jsx_props@.len() as int, q);
        let before = element_prop_hits(index, file, n - 1, q);
        assert(element_prop_hits(index, file, n, q) == before || element_prop_hits(
            index,
            file,
            n,
            q,
        ) == before + props_hits(index, file, r, r.jsx_props@.len() as int, q));
    }
}

proof fn lemma_typed(
    file: IndexedFile,
    span: Span,
    names: Seq<String>,
    type_text: Option<Seq<char>>,
    q: QueryV,
)
    ensures
        all_answers(
            typed_hits(file, span, names, type_text, q),
            file,
            ReferenceLocation::JsxProp,
            q,
        ),
{
    lemma_names();
    if let Some(name) = type_text {
        lemma_marked(
            file,
            span,
            names,
            names.len() as int,
            component_of(name),
            "typedObjectLiteral"@,
            Some(name),
            q,
        );
    }
}

proof fn lemma_defs(file: IndexedFile, n: int, q: QueryV)
    ensures
        all_answers(def_hits(file, n, q), file, ReferenceLocation::JsxProp, q),
    decreases n,
{
    if 0 < n <= file.symbol_defs@.len() {
        lemma_defs(file, n - 1, q);
        let d = file.symbol_defs@[n - 1];
        let type_text = match d.type_annotation {
            Some(ta) => props_annotation(ta),
            None => None,
        };
        lemma_typed(file, d.span, d.object_properties@, type_text, q);
        assert(def_hits(file, n, q) == def_hits(file, n - 1, q) + typed_hits(
            file,
            d.span,
            d.object_properties@,
            type_text,
            q,
        ));
    }
}

proof fn lemma_objects(file: IndexedFile, objects: Seq<TypedObject>, n: int, q: QueryV)
    ensures
        all_answers(object_hits(file, objects, n, q), file, ReferenceLocation::JsxProp, q),
    decreases n,
{
    if 0 < n <= objects.len() {
        lemma_objects(file, objects, n - 1, q);
        let o = objects[n - 1];
        lemma_typed(file, o.span, o.properties@, props_text(o.type_name_text@), q);
        assert(object_hits(file, objects, n, q) == object_hits(file, objects, n - 1, q)
            + typed_hits(file, o.span, o.properties@, props_text(o.type_name_text@), q));
    }
}

proof fn lemma_local_objects(file: IndexedFile, n: int, q: QueryV)
    ensures
        all_answers(local_object_hits(file, n, q), file, ReferenceLocation::JsxProp, q),
    decreases n,
{
    if 0 < n <= file.symbol_defs@.len() {
        lemma_local_objects(file, n - 1, q);
        let objects = file.symbol_defs@[n - 1].typed_local_objects@;
        lemma_objects(file, objects, objects.len() as int, q);
        assert(local_object_hits(file, n, q) == local_object_hits(file, n - 1, q) + object_hits(
            file,
            objects,
            objects.len() as int,
            q,
        ));
    }
}

proof fn lemma_strangers(
    file: IndexedFile,
    r: SymbolRef,
    names: Seq<Seq<char>>,
    n: int,
    pattern: Seq<char>,
    q: QueryV,
)
    requires
        matches_component(r.name@, q.pattern),
    ensures
        all_answers(
            stranger_hits(file, r, names, n, pattern),
            file,
            ReferenceLocation::JsxComponent,
            q,
        ),
    decreases n,
{
    lemma_names();
    if 0 < n <= names.len() {
        lemma_strangers(file, r, names, n - 1, pattern, q);
        if !regex_accepts(pattern, names[n - 1]) {
            let hit = with_module(
                span_incident(file, r.span).with_text("componentName"@, r.name@).with_text(
                    "childName"@,
                    names[n - 1],
                ),
                "module"@,
                file,
                r.name@,
            );
            assert(is_component_answer(hit, q));
            assert(stranger_hits(file, r, names, n, pattern) == stranger_hits(
                file,
                r,
                names,
                n - 1,
                pattern,
            ).push(hit));
        }
    }
}

proof fn lemma_element(index: ProjectIndex, file: IndexedFile, r: SymbolRef, q: QueryV)
    ensures
        all_answers(element_hits(index, file, r, q), file, ReferenceLocation::JsxComponent, q),
{
    lemma_names();
    if matches_component(r.name@, q.pattern) {
        let names = children_of(file, r);
        if let Some(p) = q.not_child {
            lemma_strangers(file, r, names, names.len() as int, p, q);
        }
        assert(is_component_answer(element_incident(file, r, rendered_in(index, file, r)), q));
    }
}

proof fn lemma_components(index: ProjectIndex, file: IndexedFile, n: int, q: QueryV)
    ensures
        all_answers(component_hits(index, file, n, q), file, ReferenceLocation::JsxComponent, q),
    decreases n,
{
    if 0 < n <= file.symbol_refs@.len() {
        lemma_components(index, file, n - 1, q);
        lemma_element(index, file, file.symbol_refs@[n - 1], q);
        assert(component_hits(index, file, n, q) == component_hits(index, file, n - 1, q)
            + element_hits(index, file, file.symbol_refs@[n - 1], q));
    }
}

proof fn lemma_refs(file: IndexedFile, n: int, types: bool, q: QueryV)
    ensures
        all_answers(ref_hits(file, n, types, q), file, ReferenceLocation::FunctionCall, q),
    decreases n,
{
    lemma_names();
    if 0 < n <= file.symbol_refs@.len() {
        lemma_refs(file, n - 1, types, q);
        let r = file.symbol_refs@[n - 1];
        if wants_ref(file, r, types, q) {
            let hit = ref_incident(file, r, types);
            assert(is_ref_answer(hit, q));
            assert(ref_hits(file, n, types, q) == ref_hits(file, n - 1, types, q).push(hit));
        }
    }
}

/// What stands in the last of some files stands in one of them.
proof fn lemma_step(
    s: Seq<IncidentV>,
    more: Seq<IncidentV>,
    files: Seq<IndexedFile>,
    k: int,
    location: ReferenceLocation,
    q: QueryV,
)
    requires
        0 <= k < files.len(),
        wants_file(files[k].path@, q),
        all_in_files(s, files, location, q),
        all_answers(more, files[k], location, q),
    ensures
        all_in_files(s + more, files, location, q),
{
    assert forall|j: int| 0 <= j < (s + more).len() implies stands_in_one(
        #[trigger] (s + more)[j],
        files,
        q,
    ) && is_answer((s + more)[j], location, q) by {
        if j < s.len() {
            assert((s + more)[j] == s[j]);
        } else {
            assert((s + more)[j] == more[j - s.len()]);
            assert(stands_in((s + more)[j], files[k]));
        }
    }
}

proof fn lemma_all_imports(files: Seq<IndexedFile>, n: int, q: QueryV)
    ensures
        all_in_files(all_import_hits(files, n, q), files, ReferenceLocation::Import, q),
    decreases n,
{
    if 0 < n <= files.len() {
        lemma_all_imports(files, n - 1, q);
        let f = files[n - 1];
        if wants_file(f.path@, q) {
            lemma_imports(f, f.imports@.len() as int, q);
            lemma_step(
                all_import_hits(files, n - 1, q),
                import_hits(f, f.imports@.len() as int, q),
                files,
                n - 1,
                ReferenceLocation::Import,
                q,
            );
        }
    }
}

proof fn lemma_all_components(index: ProjectIndex, files: Seq<IndexedFile>, n: int, q: QueryV)
    ensures
        all_in_files(
            all_component_hits(index, files, n, q),
            files,
            ReferenceLocation::JsxComponent,
            q,
        ),
    decreases n,
{
    if 0 < n <= files.len() {
        lemma_all_components(index, files, n - 1, q);
        let f = files[n - 1];
        if wants_file(f.path@, q) {
            lemma_components(index, f, f.symbol_refs@.len() as int, q);
            lemma_step(
                all_component_hits(index, files, n - 1, q),
                component_hits(index, f, f.symbol_refs@.len() as int, q),
                files,
                n - 1,
                ReferenceLocation::JsxComponent,
                q,
            );
        }
    }
}

proof fn lemma_all_props(index: ProjectIndex, files: Seq<IndexedFile>, n: int, q: QueryV)
    ensures
        all_in_files(all_prop_hits(index, files, n, q), files, ReferenceLocation::JsxProp, q),
    decreases n,
{
    if 0 < n <= files.len() {
        lemma_all_props(index, files, n - 1, q);
        let f = files[n - 1];
        if wants_file(f.path@, q) {
            let at = ReferenceLocation::JsxProp;
            let before = all_prop_hits(index, files, n - 1, q);
            let elements = element_prop_hits(index, f, f.symbol_refs@.len() as int, q);
            let defs = def_hits(f, f.symbol_defs@.len() as int, q);
            lemma_element_props(index, f, f.symbol_refs@.len() as int, q);
            lemma_defs(f, f.symbol_defs@.len() as int, q);
            lemma_local_objects(f, f.symbol_defs@.len() as int, q);
            lemma_step(before, elements, files, n - 1, at, q);
            lemma_step(before + elements, defs, files, n - 1, at, q);
            lemma_step(
                before + elements + defs,
                local_object_hits(f, f.symbol_defs@.len() as int, q),
                files,
                n - 1,
                at,
                q,
            );
        }
    }
}

proof fn lemma_all_refs(files: Seq<IndexedFile>, n: int, types: bool, q: QueryV)
    ensures
        all_in_files(all_ref_hits(files, n, types, q), files, ReferenceLocation::FunctionCall, q),
    decreases n,
{
    if 0 < n <= files.len() {
        lemma_all_refs(files, n - 1, types, q);
        let f = files[n - 1];
        if wants_file(f.path@, q) {
            lemma_refs(f, f.symbol_refs@.len() as int, types, q);
            lemma_step(
                all_ref_hits(files, n - 1, types, q),
                ref_hits(f, f.symbol_refs@.len() as int, types, q),
                files,
                n - 1,
                ReferenceLocation::FunctionCall,
                q,
            );
        }
    }
}

/// Whatever a query at a location reports stands in a file of the index that the file pattern
/// lets through, and names what the pattern accepts: a prop, a component, a type or a function.
pub proof fn law_query_reports(index: ProjectIndex, location: ReferenceLocation, q: QueryV)
    ensures
        all_in_files(query_hits(index, Some(location), q), index.files(), location, q),
{
    let files = index.files();
    let n = files.len() as int;
    lemma_all_imports(files, n, q);
    lemma_all_components(index, files, n, q);
    lemma_all_props(index, files, n, q);
    lemma_all_refs(files, n, true, q);
    lemma_all_refs(files, n, false, q);
}

/// Whether some incidents are those of two others, merged: each comes from exactly one of them, and
/// both keep their order.
pub open spec fn merges(whole: Seq<IncidentV>, a: Seq<IncidentV>, b: Seq<IncidentV>) -> bool
    decreases whole.len(),
{
    if whole.len() == 0 {
        a.len() == 0 && b.len() == 0
    } else {
        ||| a.len() > 0 && a.last() == whole.last() && merges(whole.drop_last(), a.drop_last(), b)
        ||| b.len() > 0 && b.last() == whole.last() && merges(whole.drop_last(), a, b.drop_last())
    }
}

proof fn lemma_merge_one(s: Seq<IncidentV>)
    ensures
        merges(s, s, Seq::empty()),
        merges(s, Seq::empty(), s),
    decreases s.len(),
{
    if s.len() > 0 {
        lemma_merge_one(s.drop_last());
    }
}

proof fn lemma_merge_add(
    w: Seq<IncidentV>,
    a: Seq<IncidentV>,
    b: Seq<IncidentV>,
    x: Seq<IncidentV>,
    c: Seq<IncidentV>,
    d: Seq<IncidentV>,
)
    requires
        merges(w, a, b),
        merges(x, c, d),
    ensures
        merges(w + x, a + c, b + d),
    decreases x.len(),
{
    if x.len() == 0 {
        assert(w + x =~= w);
        assert(a + c =~= a);
        assert(b + d =~= b);
    } else {
        assert((w + x).drop_last() =~= w + x.drop_last());
        if c.len() > 0 && c.last() == x.last() && merges(x.drop_last(), c.drop_last(), d) {
            lemma_merge_add(w, a, b, x.drop_last(), c.drop_last(), d);
            assert((a + c).drop_last() =~= a + c.drop_last());
        } else {
            lemma_merge_add(w, a, b, x.drop_last(), c, d.drop_last());
            assert((b + d).drop_last() =~= b + d.drop_last());
        }
    }
}

proof fn lemma_merge_len(w: Seq<IncidentV>, a: Seq<IncidentV>, b: Seq<IncidentV>)
    requires
        merges(w, a, b),
    ensures
        w.len() == a.len() + b.len(),
    decreases w.len(),
{
    if w.len() > 0 {
        if a.len() > 0 && a.last() == w.last() && merges(w.drop_last(), a.drop_last(), b) {
            lemma_merge_len(w.drop_last(), a.drop_last(), b);
        } else {
            lemma_merge_len(w.drop_last(), a, b.drop_last());
        }
    }
}

/// A query with the condition that a child matches.
pub open spec fn with_child(q: QueryV, pattern: Seq<char>) -> QueryV {
    QueryV { child: Some(pattern), ..q }
}

/// A query with the condition that no child matches.
pub open spec fn without_child(q: QueryV, pattern: Seq<char>) -> QueryV {
    QueryV { requires_child: Some(pattern), ..q }
}

proof fn lemma_child_elements(
    index: ProjectIndex,
    file: IndexedFile,
    n: int,
    q: QueryV,
    pattern: Seq<char>,
)
    requires
        q.child is None,
        q.requires_child is None,
    ensures
        merges(
            component_hits(index, file, n, q),
            component_hits(index, file, n, with_child(q, pattern)),
            component_hits(index, file, n, without_child(q, pattern)),
        ),
    decreases n,
{
    if 0 < n <= file.symbol_refs@.len() {
        lemma_child_elements(index, file, n - 1, q, pattern);
        let r = file.symbol_refs@[n - 1];
        let w = element_hits(index, file, r, q);
        let a = element_hits(index, file, r, with_child(q, pattern));
        let b = element_hits(index, file, r, without_child(q, pattern));
        lemma_merge_one(w);
        let none = Seq::<IncidentV>::empty();
        assert((a == w && b == none) || (a == none && b == w));
        lemma_merge_add(
            component_hits(index, file, n - 1, q),
            component_hits(index, file, n - 1, with_child(q, pattern)),
            component_hits(index, file, n - 1, without_child(q, pattern)),
            w,
            a,
            b,
        );
    }
}

proof fn lemma_child_files(
    index: ProjectIndex,
    files: Seq<IndexedFile>,
    n: int,
    q: QueryV,
    pattern: Seq<char>,
)
    requires
        q.child is None,
        q.requires_child is None,
    ensures
        merges(
            all_component_hits(index, files, n, q),
            all_component_hits(index, files, n, with_child(q, pattern)),
            all_component_hits(index, files, n, without_child(q, pattern)),
        ),
    decreases n,
{
    if 0 < n <= files.len() {
        lemma_child_files(index, files, n - 1, q, pattern);
        let f = files[n - 1];
        if wants_file(f.path@, q) {
            let m = f.symbol_refs@.len() as int;
            lemma_child_elements(index, f, m, q, pattern);
            lemma_merge_add(
                all_component_hits(index, files, n - 1, q),
                all_component_hits(index, files, n - 1, with_child(q, pattern)),
                all_component_hits(index, files, n - 1, without_child(q, pattern)),
                component_hits(index, f, m, q),
                component_hits(index, f, m, with_child(q, pattern)),
                component_hits(index, f, m, without_child(q, pattern)),
            );
        }
    }
}

/// For one pattern, the condition that a child matches and the condition that none does divide
/// what a query for components reports: each incident is reported under exactly one of them, in
/// the same order.
pub proof fn law_child_or_not(index: ProjectIndex, q: QueryV, pattern: Seq<char>)
    requires
        q.child is None,
        q.requires_child is None,
    ensures
        ({
            let at = Some(ReferenceLocation::JsxComponent);
            let whole = query_hits(index, at, q);
            let with = query_hits(index, at, with_child(q, pattern));
            let without = query_hits(index, at, without_child(q, pattern));
            merges(whole, with, without) && whole.len() == with.len() + without.len()
        }),
{
    let files = index.files();
    let n = files.len() as int;
    lemma_child_files(index, files, n, q, pattern);
    lemma_merge_len(
        all_component_hits(index, files, n, q),
        all_component_hits(index, files, n, with_child(q, pattern)),
        all_component_hits(index, files, n, without_child(q, pattern)),
    );
}

} // verus!
