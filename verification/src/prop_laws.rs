//! What a query for JSX props reports: which props, keys and properties, and nothing else.

use crate::capabilities::ReferenceLocation;
use crate::component_laws::{
    comes_from_there, lemma_comes_from_there, lemma_in_either, lemma_named_so, lemma_tells_module,
    named_so, tells_module,
};
use crate::incident::IncidentV;
use crate::pattern::regex_accepts;
use crate::project_index::{
    IndexedFile, JsxProp, ProjectIndex, Span, SymbolDef, SymbolRef, TypedObject,
};
use crate::property_values::property_value;
use crate::query_eval::{
    all_prop_hits, any_name, def_hits, element_from, element_prop_hits, local_object_hits,
    marked_hits, object_hits, prop_hits, prop_incident, prop_value, props_hits, query_hits,
    spread_def, spread_hits, spread_name, spread_names, spread_names_in, typed_hits, wants_file,
    with_module, QueryV,
};
use crate::query_names::{
    component_of, matches_component, package_from, props_annotation, props_text,
};
use crate::reference_laws::{says, stands_at};
use vstd::prelude::*;

verus! {

proof fn lemma_keys()
    ensures
        "propName"@ != "componentName"@,
        "propName"@ != "spreadSource"@,
        "propName"@ != "nestedObjectKey"@,
        "propName"@ != "typedObjectLiteral"@,
        "propName"@ != "propValue"@,
        "propName"@ != "module"@,
        "componentName"@ != "spreadSource"@,
        "componentName"@ != "nestedObjectKey"@,
        "componentName"@ != "typedObjectLiteral"@,
        "componentName"@ != "propValue"@,
        "componentName"@ != "module"@,
        "propValue"@ != "module"@,
        "spreadSource"@ != "module"@,
        "nestedObjectKey"@ != "module"@,
        "typedObjectLiteral"@ != "module"@,
{
    reveal_strlit("propName");
    reveal_strlit("componentName");
    reveal_strlit("spreadSource");
    reveal_strlit("nestedObjectKey");
    reveal_strlit("typedObjectLiteral");
    reveal_strlit("propValue");
    reveal_strlit("module");
    assert("propName"@.len() == 8);
    assert("componentName"@.len() == 13);
    assert("spreadSource"@.len() == 12);
    assert("nestedObjectKey"@.len() == 15);
    assert("typedObjectLiteral"@.len() == 18);
    assert("propValue"@.len() == 9);
    assert("module"@.len() == 6);
}

/// Whether an incident is one for a prop of a component: it stands at a span and names both.
pub open spec fn tells_prop(
    i: IncidentV,
    file: IndexedFile,
    span: Span,
    name: Seq<char>,
    component: Seq<char>,
) -> bool {
    &&& stands_at(i, file, span)
    &&& says(i, "propName"@, name)
    &&& says(i, "componentName"@, component)
}

/// Whether a property of an object literal within a span is one that a query asks for: its name is
/// accepted, and its value meets the condition on the value.
pub open spec fn property_asked_for(
    file: IndexedFile,
    span: Span,
    name: Seq<char>,
    q: QueryV,
) -> bool {
    &&& regex_accepts(q.pattern, name)
    &&& q.value is Some ==> regex_accepts(q.value->0, property_value(file, span, name))
}

/// Whether an incident is the one for a property of an object: it names the property, carries a
/// mark, and tells the module of a name.
pub open spec fn tells_property(
    i: IncidentV,
    file: IndexedFile,
    span: Span,
    name: Seq<char>,
    component: Seq<char>,
    mark: Seq<char>,
    module_of: Option<Seq<char>>,
) -> bool {
    &&& tells_prop(i, file, span, name, component)
    &&& says(i, mark, "true"@)
    &&& module_of is Some ==> tells_module(i, "module"@, file, module_of->0)
}

spec fn marked(
    file: IndexedFile,
    span: Span,
    name: Seq<char>,
    component: Seq<char>,
    mark: Seq<char>,
    module_of: Option<Seq<char>>,
) -> IncidentV {
    let i = prop_incident(file, span, name, component).with_text(mark, "true"@);
    match module_of {
        Some(m) => with_module(i, "module"@, file, m),
        None => i,
    }
}

spec fn is_mark(mark: Seq<char>) -> bool {
    mark == "spreadSource"@ || mark == "nestedObjectKey"@ || mark == "typedObjectLiteral"@
}

proof fn lemma_marked(
    file: IndexedFile,
    span: Span,
    name: Seq<char>,
    component: Seq<char>,
    mark: Seq<char>,
    module_of: Option<Seq<char>>,
)
    requires
        is_mark(mark),
    ensures
        tells_property(
            marked(file, span, name, component, mark, module_of),
            file,
            span,
            name,
            component,
            mark,
            module_of,
        ),
{
    lemma_keys();
    let i = prop_incident(file, span, name, component).with_text(mark, "true"@);
    if let Some(m) = module_of {
        lemma_tells_module(i, "module"@, file, m);
    }
}

/// Whether one of some names is asked for, and an incident is the one for it.
pub open spec fn tells_one(
    i: IncidentV,
    file: IndexedFile,
    span: Span,
    names: Seq<String>,
    component: Seq<char>,
    mark: Seq<char>,
    module_of: Option<Seq<char>>,
    q: QueryV,
) -> bool {
    exists|k: int|
        {
            &&& 0 <= k < names.len()
            &&& property_asked_for(file, span, (#[trigger] names[k])@, q)
            &&& tells_property(i, file, span, names[k]@, component, mark, module_of)
        }
}

proof fn lemma_marked_complete(
    file: IndexedFile,
    span: Span,
    names: Seq<String>,
    n: int,
    component: Seq<char>,
    mark: Seq<char>,
    module_of: Option<Seq<char>>,
    q: QueryV,
    k: int,
)
    requires
        0 <= k < n <= names.len(),
        property_asked_for(file, span, names[k]@, q),
    ensures
        marked_hits(file, span, names, n, component, mark, module_of, q).contains(
            marked(file, span, names[k]@, component, mark, module_of),
        ),
    decreases n,
{
    let before = marked_hits(file, span, names, n - 1, component, mark, module_of, q);
    let now = marked_hits(file, span, names, n, component, mark, module_of, q);
    let hit = marked(file, span, names[k]@, component, mark, module_of);
    if k < n - 1 {
        lemma_marked_complete(file, span, names, n - 1, component, mark, module_of, q, k);
        let j = choose|j: int| 0 <= j < before.len() && before[j] == hit;
        assert(now[j] == before[j]);
    } else {
        assert(now == before.push(hit));
        assert(now[before.len() as int] == hit);
    }
}

proof fn lemma_marked_sound(
    file: IndexedFile,
    span: Span,
    names: Seq<String>,
    n: int,
    component: Seq<char>,
    mark: Seq<char>,
    module_of: Option<Seq<char>>,
    q: QueryV,
    i: IncidentV,
)
    requires
        is_mark(mark),
        0 <= n <= names.len(),
        marked_hits(file, span, names, n, component, mark, module_of, q).contains(i),
    ensures
        tells_one(i, file, span, names, component, mark, module_of, q),
    decreases n,
{
    if n > 0 {
        let before = marked_hits(file, span, names, n - 1, component, mark, module_of, q);
        let now = marked_hits(file, span, names, n, component, mark, module_of, q);
        let j = choose|j: int| 0 <= j < now.len() && now[j] == i;
        if j < before.len() {
            assert(before[j] == i);
            lemma_marked_sound(file, span, names, n - 1, component, mark, module_of, q, i);
        } else {
            assert(property_asked_for(file, span, names[n - 1]@, q));
            assert(i == marked(file, span, names[n - 1]@, component, mark, module_of));
            lemma_marked(file, span, names[n - 1]@, component, mark, module_of);
        }
    }
}

// ---- Props of elements ----

/// Whether a query for props looks at the props of an element: its component is accepted, and so
/// is the module that it comes from.
pub open spec fn looked_at(file: IndexedFile, r: SymbolRef, q: QueryV) -> bool {
    &&& r.is_jsx_component
    &&& q.component is Some ==> named_so(r.name@, q.component->0)
    &&& comes_from_there(file, r.name@, q)
}

/// Whether the value of a prop meets the condition on the value: a string by its text, anything
/// else by its source text, and a prop without a value as an empty text.
pub open spec fn value_accepted(p: JsxProp, q: QueryV) -> bool {
    q.value is Some ==> regex_accepts(
        q.value->0,
        if p.string_value is Some {
            p.string_value->0@
        } else if p.expression_text is Some {
            p.expression_text->0@
        } else {
            ""@
        },
    )
}

/// Whether an incident is the one for a prop of an element.
pub open spec fn tells_element_prop(
    i: IncidentV,
    file: IndexedFile,
    r: SymbolRef,
    p: JsxProp,
) -> bool {
    &&& tells_prop(i, file, p.span, p.name@, r.name@)
    &&& tells_module(i, "module"@, file, r.name@)
    &&& if p.string_value is Some {
        says(i, "propValue"@, p.string_value->0@)
    } else if p.expression_text is Some {
        says(i, "propValue"@, p.expression_text->0@)
    } else {
        !i.variables.dom().contains("propValue"@)
    }
}

/// Whether an incident is one that a query gives for a prop of an element: for the prop itself,
/// for a key of the object that is its value, or for a property that is spread.
pub open spec fn explained(
    i: IncidentV,
    index: ProjectIndex,
    file: IndexedFile,
    r: SymbolRef,
    p: JsxProp,
    q: QueryV,
) -> bool {
    if !p.is_spread && regex_accepts(q.pattern, p.name@) {
        value_accepted(p, q) && tells_element_prop(i, file, r, p)
    } else if !p.is_spread {
        tells_one(
            i,
            file,
            p.span,
            p.nested_object_keys@,
            r.name@,
            "nestedObjectKey"@,
            Some(r.name@),
            q,
        )
    } else {
        &&& q.value is None
        &&& tells_one(
            i,
            file,
            p.span,
            if p.spread_properties@.len() > 0 {
                p.spread_properties@
            } else {
                spread_names(index, file, spread_name(p.expression_text->0@), q)->0
            },
            r.name@,
            "spreadSource"@,
            None,
            q,
        )
    }
}

proof fn lemma_prop_sound(
    i: IncidentV,
    index: ProjectIndex,
    file: IndexedFile,
    r: SymbolRef,
    p: JsxProp,
    q: QueryV,
)
    requires
        prop_hits(index, file, r.name@, p, q).contains(i),
    ensures
        explained(i, index, file, r, p, q),
{
    lemma_keys();
    if p.is_spread {
        if p.spread_properties@.len() > 0 {
            lemma_marked_sound(
                file,
                p.span,
                p.spread_properties@,
                p.spread_properties@.len() as int,
                r.name@,
                "spreadSource"@,
                None,
                q,
                i,
            );
        } else {
            let names = spread_names(index, file, spread_name(p.expression_text->0@), q)->0;
            lemma_marked_sound(
                file,
                p.span,
                names,
                names.len() as int,
                r.name@,
                "spreadSource"@,
                None,
                q,
                i,
            );
        }
    } else if regex_accepts(q.pattern, p.name@) {
        lemma_element_prop(file, r, p);
    } else {
        lemma_marked_sound(
            file,
            p.span,
            p.nested_object_keys@,
            p.nested_object_keys@.len() as int,
            r.name@,
            "nestedObjectKey"@,
            Some(r.name@),
            q,
            i,
        );
    }
}

spec fn element_prop(file: IndexedFile, r: SymbolRef, p: JsxProp) -> IncidentV {
    let base = prop_incident(file, p.span, p.name@, r.name@);
    let valued = match prop_value(p) {
        Some(v) => base.with_text("propValue"@, v),
        None => base,
    };
    with_module(valued, "module"@, file, r.name@)
}

proof fn lemma_element_prop(file: IndexedFile, r: SymbolRef, p: JsxProp)
    ensures
        tells_element_prop(element_prop(file, r, p), file, r, p),
{
    lemma_keys();
    let base = prop_incident(file, p.span, p.name@, r.name@);
    let valued = match prop_value(p) {
        Some(v) => base.with_text("propValue"@, v),
        None => base,
    };
    lemma_tells_module(valued, "module"@, file, r.name@);
}

spec fn from_prop(
    index: ProjectIndex,
    file: IndexedFile,
    r: SymbolRef,
    n: int,
    q: QueryV,
    i: IncidentV,
) -> bool {
    exists|k: int|
        0 <= k < n && prop_hits(index, file, r.name@, #[trigger] r.jsx_props@[k], q).contains(i)
}

proof fn lemma_props(
    index: ProjectIndex,
    file: IndexedFile,
    r: SymbolRef,
    n: int,
    q: QueryV,
    i: IncidentV,
)
    requires
        0 <= n <= r.jsx_props@.len(),
    ensures
        props_hits(index, file, r, n, q).contains(i) == from_prop(index, file, r, n, q, i),
    decreases n,
{
    if n > 0 {
        lemma_props(index, file, r, n - 1, q, i);
        let before = props_hits(index, file, r, n - 1, q);
        let more = prop_hits(index, file, r.name@, r.jsx_props@[n - 1], q);
        assert(props_hits(index, file, r, n, q) == before + more);
        lemma_in_either(before, more, i);
        if from_prop(index, file, r, n - 1, q, i) {
            let k = choose|k: int|
                0 <= k < n - 1 && prop_hits(
                    index,
                    file,
                    r.name@,
                    #[trigger] r.jsx_props@[k],
                    q,
                ).contains(i);
            assert(prop_hits(index, file, r.name@, r.jsx_props@[k], q).contains(i));
        }
    }
}

spec fn from_element(
    index: ProjectIndex,
    file: IndexedFile,
    n: int,
    q: QueryV,
    i: IncidentV,
) -> bool {
    exists|k: int|
        {
            &&& 0 <= k < n
            &&& looked_at(file, #[trigger] file.symbol_refs@[k], q)
            &&& from_prop(
                index,
                file,
                file.symbol_refs@[k],
                file.symbol_refs@[k].jsx_props@.len() as int,
                q,
                i,
            )
        }
}

proof fn lemma_looked_at(file: IndexedFile, r: SymbolRef, q: QueryV)
    ensures
        looked_at(file, r, q) == (r.is_jsx_component && (q.component matches Some(p)
            ==> matches_component(r.name@, p)) && element_from(file, r.name@, q)),
{
    lemma_comes_from_there(file, r.name@, q);
    if let Some(p) = q.component {
        lemma_named_so(r.name@, p);
    }
}

proof fn lemma_elements(index: ProjectIndex, file: IndexedFile, n: int, q: QueryV, i: IncidentV)
    requires
        0 <= n <= file.symbol_refs@.len(),
    ensures
        element_prop_hits(index, file, n, q).contains(i) == from_element(index, file, n, q, i),
    decreases n,
{
    if n > 0 {
        lemma_elements(index, file, n - 1, q, i);
        let r = file.symbol_refs@[n - 1];
        let before = element_prop_hits(index, file, n - 1, q);
        let more = props_hits(index, file, r, r.jsx_props@.len() as int, q);
        lemma_props(index, file, r, r.jsx_props@.len() as int, q, i);
        lemma_looked_at(file, r, q);
        if looked_at(file, r, q) {
            assert(element_prop_hits(index, file, n, q) == before + more);
            lemma_in_either(before, more, i);
        } else {
            assert(element_prop_hits(index, file, n, q) == before);
        }
        if from_element(index, file, n - 1, q, i) {
            let k = choose|k: int|
                {
                    &&& 0 <= k < n - 1
                    &&& looked_at(file, #[trigger] file.symbol_refs@[k], q)
                    &&& from_prop(
                        index,
                        file,
                        file.symbol_refs@[k],
                        file.symbol_refs@[k].jsx_props@.len() as int,
                        q,
                        i,
                    )
                };
            assert(looked_at(file, file.symbol_refs@[k], q));
        }
    }
}

// ---- Objects with a props type ----

/// Whether a query for props looks at an object with a type: the type is one of props, and the
/// component that it belongs to is accepted. Without a condition on the component none is looked
/// at.
pub open spec fn type_looked_at(type_text: Option<Seq<char>>, q: QueryV) -> bool {
    &&& type_text is Some
    &&& q.component is Some
    &&& "Props"@.is_suffix_of(type_text->0)
    &&& regex_accepts(q.component->0, type_text->0.take(type_text->0.len() - 5))
}

/// Whether an incident is one that a query gives for a property of an object with a type.
pub open spec fn explained_by_type(
    i: IncidentV,
    file: IndexedFile,
    span: Span,
    names: Seq<String>,
    type_text: Option<Seq<char>>,
    q: QueryV,
) -> bool {
    &&& type_looked_at(type_text, q)
    &&& tells_one(
        i,
        file,
        span,
        names,
        type_text->0.take(type_text->0.len() - 5),
        "typedObjectLiteral"@,
        type_text,
        q,
    )
}

proof fn lemma_typed_sound(
    i: IncidentV,
    file: IndexedFile,
    span: Span,
    names: Seq<String>,
    type_text: Option<Seq<char>>,
    q: QueryV,
)
    requires
        typed_hits(file, span, names, type_text, q).contains(i),
    ensures
        explained_by_type(i, file, span, names, type_text, q),
{
    assert(type_looked_at(type_text, q));
    lemma_marked_sound(
        file,
        span,
        names,
        names.len() as int,
        component_of(type_text->0),
        "typedObjectLiteral"@,
        type_text,
        q,
        i,
    );
}

/// The type of a definition, as far as a query for props reads it.
pub open spec fn type_of(d: SymbolDef) -> Option<Seq<char>> {
    match d.type_annotation {
        Some(ta) => props_annotation(ta),
        None => None,
    }
}

spec fn def_has(file: IndexedFile, d: SymbolDef, q: QueryV, i: IncidentV) -> bool {
    typed_hits(file, d.span, d.object_properties@, type_of(d), q).contains(i)
}

spec fn from_def(file: IndexedFile, n: int, q: QueryV, i: IncidentV) -> bool {
    exists|k: int| 0 <= k < n && def_has(file, #[trigger] file.symbol_defs@[k], q, i)
}

proof fn lemma_defs(file: IndexedFile, n: int, q: QueryV, i: IncidentV)
    requires
        0 <= n <= file.symbol_defs@.len(),
    ensures
        def_hits(file, n, q).contains(i) == from_def(file, n, q, i),
    decreases n,
{
    if n > 0 {
        lemma_defs(file, n - 1, q, i);
        let d = file.symbol_defs@[n - 1];
        let before = def_hits(file, n - 1, q);
        let more = typed_hits(file, d.span, d.object_properties@, type_of(d), q);
        assert(def_hits(file, n, q) == before + more);
        lemma_in_either(before, more, i);
        if from_def(file, n - 1, q, i) {
            let k = choose|k: int|
                0 <= k < n - 1 && def_has(file, #[trigger] file.symbol_defs@[k], q, i);
            assert(def_has(file, file.symbol_defs@[k], q, i));
        }
    }
}

spec fn object_has(file: IndexedFile, o: TypedObject, q: QueryV, i: IncidentV) -> bool {
    typed_hits(file, o.span, o.properties@, props_text(o.type_name_text@), q).contains(i)
}

spec fn from_object(
    file: IndexedFile,
    objects: Seq<TypedObject>,
    n: int,
    q: QueryV,
    i: IncidentV,
) -> bool {
    exists|k: int| 0 <= k < n && object_has(file, #[trigger] objects[k], q, i)
}

proof fn lemma_objects(
    file: IndexedFile,
    objects: Seq<TypedObject>,
    n: int,
    q: QueryV,
    i: IncidentV,
)
    requires
        0 <= n <= objects.len(),
    ensures
        object_hits(file, objects, n, q).contains(i) == from_object(file, objects, n, q, i),
    decreases n,
{
    if n > 0 {
        lemma_objects(file, objects, n - 1, q, i);
        let o = objects[n - 1];
        let before = object_hits(file, objects, n - 1, q);
        let more = typed_hits(file, o.span, o.properties@, props_text(o.type_name_text@), q);
        assert(object_hits(file, objects, n, q) == before + more);
        lemma_in_either(before, more, i);
        if from_object(file, objects, n - 1, q, i) {
            let k = choose|k: int|
                0 <= k < n - 1 && object_has(file, #[trigger] objects[k], q, i);
            assert(object_has(file, objects[k], q, i));
        }
    }
}

spec fn from_local(file: IndexedFile, n: int, q: QueryV, i: IncidentV) -> bool {
    exists|k: int|
        0 <= k < n && from_object(
            file,
            (#[trigger] file.symbol_defs@[k]).typed_local_objects@,
            file.symbol_defs@[k].typed_local_objects@.len() as int,
            q,
            i,
        )
}

proof fn lemma_locals(file: IndexedFile, n: int, q: QueryV, i: IncidentV)
    requires
        0 <= n <= file.symbol_defs@.len(),
    ensures
        local_object_hits(file, n, q).contains(i) == from_local(file, n, q, i),
    decreases n,
{
    if n > 0 {
        lemma_locals(file, n - 1, q, i);
        let objects = file.symbol_defs@[n - 1].typed_local_objects@;
        let before = local_object_hits(file, n - 1, q);
        let more = object_hits(file, objects, objects.len() as int, q);
        lemma_objects(file, objects, objects.len() as int, q, i);
        assert(local_object_hits(file, n, q) == before + more);
        lemma_in_either(before, more, i);
        if from_local(file, n - 1, q, i) {
            let k = choose|k: int|
                0 <= k < n - 1 && from_object(
                    file,
                    (#[trigger] file.symbol_defs@[k]).typed_local_objects@,
                    file.symbol_defs@[k].typed_local_objects@.len() as int,
                    q,
                    i,
                );
            assert(file.symbol_defs@[k] == file.symbol_defs@[k]);
        }
    }
}

// ---- Files ----

spec fn from_one(index: ProjectIndex, f: IndexedFile, q: QueryV, i: IncidentV) -> bool {
    ||| from_element(index, f, f.symbol_refs@.len() as int, q, i)
    ||| from_def(f, f.symbol_defs@.len() as int, q, i)
    ||| from_local(f, f.symbol_defs@.len() as int, q, i)
}

spec fn from_file(
    index: ProjectIndex,
    files: Seq<IndexedFile>,
    n: int,
    q: QueryV,
    i: IncidentV,
) -> bool {
    exists|f: int|
        0 <= f < n && wants_file((#[trigger] files[f]).path@, q) && from_one(index, files[f], q, i)
}

proof fn lemma_files(
    index: ProjectIndex,
    files: Seq<IndexedFile>,
    n: int,
    q: QueryV,
    i: IncidentV,
)
    requires
        0 <= n <= files.len(),
    ensures
        all_prop_hits(index, files, n, q).contains(i) == from_file(index, files, n, q, i),
    decreases n,
{
    if n > 0 {
        lemma_files(index, files, n - 1, q, i);
        let f = files[n - 1];
        let before = all_prop_hits(index, files, n - 1, q);
        let a = element_prop_hits(index, f, f.symbol_refs@.len() as int, q);
        let b = def_hits(f, f.symbol_defs@.len() as int, q);
        let c = local_object_hits(f, f.symbol_defs@.len() as int, q);
        lemma_elements(index, f, f.symbol_refs@.len() as int, q, i);
        lemma_defs(f, f.symbol_defs@.len() as int, q, i);
        lemma_locals(f, f.symbol_defs@.len() as int, q, i);
        if wants_file(f.path@, q) {
            assert(all_prop_hits(index, files, n, q) == before + a + b + c);
            lemma_in_either(before, a, i);
            lemma_in_either(before + a, b, i);
            lemma_in_either(before + a + b, c, i);
        } else {
            assert(all_prop_hits(index, files, n, q) == before);
        }
        if from_file(index, files, n - 1, q, i) {
            let k = choose|k: int|
                0 <= k < n - 1 && wants_file((#[trigger] files[k]).path@, q) && from_one(
                    index,
                    files[k],
                    q,
                    i,
                );
            assert(wants_file(files[k].path@, q));
        }
    }
}

/// The incidents of a query for props.
pub open spec fn props_reported(index: ProjectIndex, q: QueryV) -> Seq<IncidentV> {
    query_hits(index, Some(ReferenceLocation::JsxProp), q)
}

proof fn lemma_reported(index: ProjectIndex, q: QueryV, f: int, i: IncidentV)
    requires
        0 <= f < index.files().len(),
        wants_file(index.files()[f].path@, q),
        from_one(index, index.files()[f], q, i),
    ensures
        props_reported(index, q).contains(i),
{
    let files = index.files();
    assert(wants_file(files[f].path@, q));
    lemma_files(index, files, files.len() as int, q, i);
    assert(from_file(index, files, files.len() as int, q, i));
}

proof fn lemma_prop_reported(
    index: ProjectIndex,
    q: QueryV,
    f: int,
    k: int,
    p: int,
    i: IncidentV,
)
    requires
        0 <= f < index.files().len(),
        0 <= k < index.files()[f].symbol_refs@.len(),
        0 <= p < index.files()[f].symbol_refs@[k].jsx_props@.len(),
        wants_file(index.files()[f].path@, q),
        looked_at(index.files()[f], index.files()[f].symbol_refs@[k], q),
        prop_hits(
            index,
            index.files()[f],
            index.files()[f].symbol_refs@[k].name@,
            index.files()[f].symbol_refs@[k].jsx_props@[p],
            q,
        ).contains(i),
    ensures
        props_reported(index, q).contains(i),
{
    let file = index.files()[f];
    let r = file.symbol_refs@[k];
    assert(prop_hits(index, file, r.name@, r.jsx_props@[p], q).contains(i));
    assert(from_prop(index, file, r, r.jsx_props@.len() as int, q, i));
    assert(looked_at(file, file.symbol_refs@[k], q));
    assert(from_element(index, file, file.symbol_refs@.len() as int, q, i));
    lemma_reported(index, q, f, i);
}

/// Every prop, of an element that a query for props looks at, whose name is accepted and whose
/// value is, is reported.
pub proof fn law_prop_reported(index: ProjectIndex, q: QueryV, f: int, k: int, p: int)
    requires
        0 <= f < index.files().len(),
        0 <= k < index.files()[f].symbol_refs@.len(),
        0 <= p < index.files()[f].symbol_refs@[k].jsx_props@.len(),
        !index.files()[f].symbol_refs@[k].jsx_props@[p].is_spread,
    ensures
        ({
            let file = index.files()[f];
            let r = file.symbol_refs@[k];
            let prop = r.jsx_props@[p];
            wants_file(file.path@, q) && looked_at(file, r, q) && regex_accepts(
                q.pattern,
                prop.name@,
            ) && value_accepted(prop, q) ==> exists|i: IncidentV| #[trigger]
                props_reported(index, q).contains(i) && tells_element_prop(i, file, r, prop)
        }),
{
    let file = index.files()[f];
    let r = file.symbol_refs@[k];
    let prop = r.jsx_props@[p];
    if wants_file(file.path@, q) && looked_at(file, r, q) && regex_accepts(q.pattern, prop.name@)
        && value_accepted(prop, q) {
        let hit = element_prop(file, r, prop);
        lemma_element_prop(file, r, prop);
        assert(prop_hits(index, file, r.name@, prop, q) == seq![hit]);
        assert(seq![hit][0] == hit);
        lemma_prop_reported(index, q, f, k, p, hit);
        assert(props_reported(index, q).contains(hit));
    }
}

/// Where the name of a prop is not accepted, every key of the object that is its value and that is
/// asked for is reported.
pub proof fn law_key_reported(index: ProjectIndex, q: QueryV, f: int, k: int, p: int, j: int)
    requires
        0 <= f < index.files().len(),
        0 <= k < index.files()[f].symbol_refs@.len(),
        0 <= p < index.files()[f].symbol_refs@[k].jsx_props@.len(),
        !index.files()[f].symbol_refs@[k].jsx_props@[p].is_spread,
        0 <= j < index.files()[f].symbol_refs@[k].jsx_props@[p].nested_object_keys@.len(),
    ensures
        ({
            let file = index.files()[f];
            let r = file.symbol_refs@[k];
            let prop = r.jsx_props@[p];
            let key = prop.nested_object_keys@[j]@;
            wants_file(file.path@, q) && looked_at(file, r, q) && !regex_accepts(
                q.pattern,
                prop.name@,
            ) && property_asked_for(file, prop.span, key, q) ==> exists|i: IncidentV| #[trigger]
                props_reported(index, q).contains(i) && tells_property(
                    i,
                    file,
                    prop.span,
                    key,
                    r.name@,
                    "nestedObjectKey"@,
                    Some(r.name@),
                )
        }),
{
    let file = index.files()[f];
    let r = file.symbol_refs@[k];
    let prop = r.jsx_props@[p];
    let keys = prop.nested_object_keys@;
    let mark = "nestedObjectKey"@;
    if wants_file(file.path@, q) && looked_at(file, r, q) && !regex_accepts(q.pattern, prop.name@)
        && property_asked_for(file, prop.span, keys[j]@, q) {
        let hit = marked(file, prop.span, keys[j]@, r.name@, mark, Some(r.name@));
        lemma_marked(file, prop.span, keys[j]@, r.name@, mark, Some(r.name@));
        lemma_marked_complete(
            file,
            prop.span,
            keys,
            keys.len() as int,
            r.name@,
            mark,
            Some(r.name@),
            q,
            j,
        );
        lemma_prop_reported(index, q, f, k, p, hit);
        assert(props_reported(index, q).contains(hit));
    }
}

/// The names that a spread attribute gives: those of the object that is spread, or else those of
/// the definition of what is spread.
pub open spec fn spread_by(index: ProjectIndex, file: IndexedFile, p: JsxProp, q: QueryV) -> Seq<
    String,
> {
    if p.spread_properties@.len() > 0 {
        p.spread_properties@
    } else if p.expression_text is Some && spread_names(
        index,
        file,
        spread_name(p.expression_text->0@),
        q,
    ) is Some {
        spread_names(index, file, spread_name(p.expression_text->0@), q)->0
    } else {
        Seq::empty()
    }
}

/// Without a condition on the value, every property that a spread attribute gives and whose name
/// is accepted is reported.
pub proof fn law_spread_reported(index: ProjectIndex, q: QueryV, f: int, k: int, p: int, j: int)
    requires
        0 <= f < index.files().len(),
        0 <= k < index.files()[f].symbol_refs@.len(),
        0 <= p < index.files()[f].symbol_refs@[k].jsx_props@.len(),
        index.files()[f].symbol_refs@[k].jsx_props@[p].is_spread,
        0 <= j < spread_by(
            index,
            index.files()[f],
            index.files()[f].symbol_refs@[k].jsx_props@[p],
            q,
        ).len(),
        q.value is None,
    ensures
        ({
            let file = index.files()[f];
            let r = file.symbol_refs@[k];
            let prop = r.jsx_props@[p];
            let name = spread_by(index, file, prop, q)[j]@;
            wants_file(file.path@, q) && looked_at(file, r, q) && regex_accepts(q.pattern, name)
                ==> exists|i: IncidentV| #[trigger]
                props_reported(index, q).contains(i) && tells_property(
                    i,
                    file,
                    prop.span,
                    name,
                    r.name@,
                    "spreadSource"@,
                    None,
                )
        }),
{
    let file = index.files()[f];
    let r = file.symbol_refs@[k];
    let prop = r.jsx_props@[p];
    let names = spread_by(index, file, prop, q);
    let mark = "spreadSource"@;
    if wants_file(file.path@, q) && looked_at(file, r, q) && regex_accepts(q.pattern, names[j]@) {
        let hit = marked(file, prop.span, names[j]@, r.name@, mark, None);
        lemma_marked(file, prop.span, names[j]@, r.name@, mark, None);
        lemma_marked_complete(
            file,
            prop.span,
            names,
            names.len() as int,
            r.name@,
            mark,
            None,
            q,
            j,
        );
        assert(spread_hits(index, file, r.name@, prop, q).contains(hit));
        lemma_prop_reported(index, q, f, k, p, hit);
        assert(props_reported(index, q).contains(hit));
    }
}

/// Every property that is asked for of a definition with a props type is reported.
pub proof fn law_typed_reported(index: ProjectIndex, q: QueryV, f: int, d: int, j: int)
    requires
        0 <= f < index.files().len(),
        0 <= d < index.files()[f].symbol_defs@.len(),
        0 <= j < index.files()[f].symbol_defs@[d].object_properties@.len(),
    ensures
        ({
            let file = index.files()[f];
            let def = file.symbol_defs@[d];
            let name = def.object_properties@[j]@;
            wants_file(file.path@, q) && type_looked_at(type_of(def), q) && property_asked_for(
                file,
                def.span,
                name,
                q,
            ) ==> exists|i: IncidentV| #[trigger]
                props_reported(index, q).contains(i) && tells_property(
                    i,
                    file,
                    def.span,
                    name,
                    component_of(type_of(def)->0),
                    "typedObjectLiteral"@,
                    type_of(def),
                )
        }),
{
    let file = index.files()[f];
    let def = file.symbol_defs@[d];
    let names = def.object_properties@;
    let mark = "typedObjectLiteral"@;
    if wants_file(file.path@, q) && type_looked_at(type_of(def), q) && property_asked_for(
        file,
        def.span,
        names[j]@,
        q,
    ) {
        let component = component_of(type_of(def)->0);
        let hit = marked(file, def.span, names[j]@, component, mark, type_of(def));
        lemma_marked(file, def.span, names[j]@, component, mark, type_of(def));
        lemma_marked_complete(
            file,
            def.span,
            names,
            names.len() as int,
            component,
            mark,
            type_of(def),
            q,
            j,
        );
        assert(def_has(file, file.symbol_defs@[d], q, hit));
        assert(from_def(file, file.symbol_defs@.len() as int, q, hit));
        lemma_reported(index, q, f, hit);
        assert(props_reported(index, q).contains(hit));
    }
}

/// Every property that is asked for of an object with a props type inside a definition is
/// reported.
pub proof fn law_local_reported(index: ProjectIndex, q: QueryV, f: int, d: int, o: int, j: int)
    requires
        0 <= f < index.files().len(),
        0 <= d < index.files()[f].symbol_defs@.len(),
        0 <= o < index.files()[f].symbol_defs@[d].typed_local_objects@.len(),
        0 <= j < index.files()[f].symbol_defs@[d].typed_local_objects@[o].properties@.len(),
    ensures
        ({
            let file = index.files()[f];
            let object = file.symbol_defs@[d].typed_local_objects@[o];
            let name = object.properties@[j]@;
            let type_text = props_text(object.type_name_text@);
            wants_file(file.path@, q) && type_looked_at(type_text, q) && property_asked_for(
                file,
                object.span,
                name,
                q,
            ) ==> exists|i: IncidentV| #[trigger]
                props_reported(index, q).contains(i) && tells_property(
                    i,
                    file,
                    object.span,
                    name,
                    component_of(type_text->0),
                    "typedObjectLiteral"@,
                    type_text,
                )
        }),
{
    let file = index.files()[f];
    let objects = file.symbol_defs@[d].typed_local_objects@;
    let object = objects[o];
    let names = object.properties@;
    let type_text = props_text(object.type_name_text@);
    let mark = "typedObjectLiteral"@;
    if wants_file(file.path@, q) && type_looked_at(type_text, q) && property_asked_for(
        file,
        object.span,
        names[j]@,
        q,
    ) {
        let component = component_of(type_text->0);
        let hit = marked(file, object.span, names[j]@, component, mark, type_text);
        lemma_marked(file, object.span, names[j]@, component, mark, type_text);
        lemma_marked_complete(
            file,
            object.span,
            names,
            names.len() as int,
            component,
            mark,
            type_text,
            q,
            j,
        );
        assert(object_has(file, objects[o], q, hit));
        assert(from_object(file, objects, objects.len() as int, q, hit));
        assert(file.symbol_defs@[d].typed_local_objects@ == objects);
        assert(from_local(file, file.symbol_defs@.len() as int, q, hit));
        lemma_reported(index, q, f, hit);
        assert(props_reported(index, q).contains(hit));
    }
}

/// Whether a file gives a query for props a reason for an incident.
pub open spec fn has_reason(
    i: IncidentV,
    index: ProjectIndex,
    file: IndexedFile,
    q: QueryV,
) -> bool {
    ||| exists|k: int, p: int|
        {
            &&& 0 <= k < file.symbol_refs@.len()
            &&& 0 <= p < file.symbol_refs@[k].jsx_props@.len()
            &&& looked_at(file, file.symbol_refs@[k], q)
            &&& explained(
                i,
                index,
                file,
                file.symbol_refs@[k],
                #[trigger] file.symbol_refs@[k].jsx_props@[p],
                q,
            )
        }
    ||| exists|d: int|
        0 <= d < file.symbol_defs@.len() && explained_by_type(
            i,
            file,
            (#[trigger] file.symbol_defs@[d]).span,
            file.symbol_defs@[d].object_properties@,
            type_of(file.symbol_defs@[d]),
            q,
        )
    ||| exists|d: int, o: int|
        {
            &&& 0 <= d < file.symbol_defs@.len()
            &&& 0 <= o < file.symbol_defs@[d].typed_local_objects@.len()
            &&& explained_by_type(
                i,
                file,
                (#[trigger] file.symbol_defs@[d].typed_local_objects@[o]).span,
                file.symbol_defs@[d].typed_local_objects@[o].properties@,
                props_text(file.symbol_defs@[d].typed_local_objects@[o].type_name_text@),
                q,
            )
        }
}

/// Everything that a query for props reports is a prop, a key or a property that it asks for.
pub proof fn law_prop_asked_for(index: ProjectIndex, q: QueryV, n: int)
    requires
        0 <= n < props_reported(index, q).len(),
    ensures
        exists|f: int|
            0 <= f < index.files().len() && wants_file(
                (#[trigger] index.files()[f]).path@,
                q,
            ) && has_reason(props_reported(index, q)[n], index, index.files()[f], q),
{
    let files = index.files();
    let i = props_reported(index, q)[n];
    assert(props_reported(index, q).contains(i));
    lemma_files(index, files, files.len() as int, q, i);
    let f = choose|f: int|
        0 <= f < files.len() && wants_file((#[trigger] files[f]).path@, q) && from_one(
            index,
            files[f],
            q,
            i,
        );
    lemma_reason(i, index, files[f], q);
    assert(wants_file(index.files()[f].path@, q));
}

proof fn lemma_reason(i: IncidentV, index: ProjectIndex, file: IndexedFile, q: QueryV)
    requires
        from_one(index, file, q, i),
    ensures
        has_reason(i, index, file, q),
{
    if from_element(index, file, file.symbol_refs@.len() as int, q, i) {
        let k = choose|k: int|
            {
                &&& 0 <= k < file.symbol_refs@.len()
                &&& looked_at(file, #[trigger] file.symbol_refs@[k], q)
                &&& from_prop(
                    index,
                    file,
                    file.symbol_refs@[k],
                    file.symbol_refs@[k].jsx_props@.len() as int,
                    q,
                    i,
                )
            };
        let r = file.symbol_refs@[k];
        let p = choose|p: int|
            0 <= p < r.jsx_props@.len() && prop_hits(
                index,
                file,
                r.name@,
                #[trigger] r.jsx_props@[p],
                q,
            ).contains(i);
        lemma_prop_sound(i, index, file, r, r.jsx_props@[p], q);
        assert(explained(
            i,
            index,
            file,
            file.symbol_refs@[k],
            file.symbol_refs@[k].jsx_props@[p],
            q,
        ));
    } else if from_def(file, file.symbol_defs@.len() as int, q, i) {
        let d = choose|d: int|
            0 <= d < file.symbol_defs@.len() && def_has(
                file,
                #[trigger] file.symbol_defs@[d],
                q,
                i,
            );
        let def = file.symbol_defs@[d];
        lemma_typed_sound(i, file, def.span, def.object_properties@, type_of(def), q);
    } else {
        let d = choose|d: int|
            0 <= d < file.symbol_defs@.len() && from_object(
                file,
                (#[trigger] file.symbol_defs@[d]).typed_local_objects@,
                file.symbol_defs@[d].typed_local_objects@.len() as int,
                q,
                i,
            );
        let objects = file.symbol_defs@[d].typed_local_objects@;
        let o = choose|o: int|
            0 <= o < objects.len() && object_has(file, #[trigger] objects[o], q, i);
        lemma_typed_sound(
            i,
            file,
            objects[o].span,
            objects[o].properties@,
            props_text(objects[o].type_name_text@),
            q,
        );
        assert(file.symbol_defs@[d].typed_local_objects@[o] == objects[o]);
    }
}

// ---- What is spread ----

proof fn lemma_any_name(names: Seq<String>, n: int, q: QueryV)
    requires
        0 <= n <= names.len(),
    ensures
        any_name(names, n, q) <==> exists|k: int|
            0 <= k < n && regex_accepts(q.pattern, (#[trigger] names[k])@),
    decreases n,
{
    if n > 0 {
        lemma_any_name(names, n - 1, q);
    }
}

/// Whether a definition gives a name an object with a property whose name is accepted.
pub open spec fn defines(d: SymbolDef, name: Seq<char>, q: QueryV) -> bool {
    d.name@ == name && exists|k: int|
        0 <= k < d.object_properties@.len() && regex_accepts(
            q.pattern,
            (#[trigger] d.object_properties@[k])@,
        )
}

proof fn lemma_spread_def(
    defs: Seq<SymbolDef>,
    from: int,
    name: Seq<char>,
    exported: bool,
    q: QueryV,
)
    requires
        0 <= from <= defs.len(),
    ensures
        match spread_def(defs, from, name, exported, q) {
            Some(k) => {
                &&& from <= k < defs.len()
                &&& defines(defs[k], name, q)
                &&& exported ==> defs[k].exported
                &&& forall|j: int|
                    from <= j < k ==> !(defines(#[trigger] defs[j], name, q) && (exported
                        ==> defs[j].exported))
            },
            None => forall|j: int|
                from <= j < defs.len() ==> !(defines(#[trigger] defs[j], name, q) && (exported
                    ==> defs[j].exported)),
        },
    decreases defs.len() - from,
{
    if from < defs.len() {
        let names = defs[from].object_properties@;
        lemma_any_name(names, names.len() as int, q);
        lemma_spread_def(defs, from + 1, name, exported, q);
    }
}

/// What is spread is looked up in the file first: the first definition there with a property whose
/// name is accepted gives the names.
pub proof fn law_spread_in_file(
    index: ProjectIndex,
    file: IndexedFile,
    name: Seq<char>,
    q: QueryV,
    k: int,
)
    requires
        0 <= k < file.symbol_defs@.len(),
    ensures
        defines(file.symbol_defs@[k], name, q) && (forall|j: int|
            0 <= j < k ==> !defines(#[trigger] file.symbol_defs@[j], name, q)) ==> spread_names(
            index,
            file,
            name,
            q,
        ) == Some(file.symbol_defs@[k].object_properties@),
{
    lemma_spread_def(file.symbol_defs@, 0, name, false, q);
}

proof fn lemma_spread_in(files: Seq<IndexedFile>, from: int, name: Seq<char>, q: QueryV, f: int, k: int)
    requires
        0 <= from <= f < files.len(),
        0 <= k < files[f].symbol_defs@.len(),
        files[f].symbol_defs@[k].exported && defines(files[f].symbol_defs@[k], name, q),
        forall|j: int|
            0 <= j < k ==> !(defines(#[trigger] files[f].symbol_defs@[j], name, q)
                && files[f].symbol_defs@[j].exported),
        forall|g: int, j: int|
            from <= g < f && 0 <= j < files[g].symbol_defs@.len() ==> !(defines(
                #[trigger] files[g].symbol_defs@[j],
                name,
                q,
            ) && files[g].symbol_defs@[j].exported),
    ensures
        spread_names_in(files, from, name, q) == Some(files[f].symbol_defs@[k].object_properties@),
    decreases f - from,
{
    lemma_spread_def(files[from].symbol_defs@, 0, name, true, q);
    if from < f {
        lemma_spread_in(files, from + 1, name, q, f, k);
    }
}

/// What is spread and has no such definition in the file is looked up in the package that it is
/// imported from: the first exported definition there with a property whose name is accepted gives
/// the names.
pub proof fn law_spread_in_package(
    index: ProjectIndex,
    file: IndexedFile,
    name: Seq<char>,
    q: QueryV,
    f: int,
    k: int,
)
    requires
        package_from(file.imports@, 0, name) is Some,
        index.package(package_from(file.imports@, 0, name)->0) is Some,
        0 <= f < index.package(package_from(file.imports@, 0, name)->0)->0.len(),
        0 <= k < index.package(
            package_from(file.imports@, 0, name)->0,
        )->0[f].symbol_defs@.len(),
    ensures
        ({
            let files = index.package(package_from(file.imports@, 0, name)->0)->0;
            let def = files[f].symbol_defs@[k];
            &&& def.exported
            &&& defines(def, name, q)
            &&& forall|j: int|
                0 <= j < k ==> !(defines(#[trigger] files[f].symbol_defs@[j], name, q)
                    && files[f].symbol_defs@[j].exported)
            &&& forall|g: int, j: int|
                0 <= g < f && 0 <= j < files[g].symbol_defs@.len() ==> !(defines(
                    #[trigger] files[g].symbol_defs@[j],
                    name,
                    q,
                ) && files[g].symbol_defs@[j].exported)
            &&& forall|j: int|
                0 <= j < file.symbol_defs@.len() ==> !defines(
                    #[trigger] file.symbol_defs@[j],
                    name,
                    q,
                )
        }) ==> spread_names(index, file, name, q) == Some(
            index.package(
                package_from(file.imports@, 0, name)->0,
            )->0[f].symbol_defs@[k].object_properties@,
        ),
{
    let files = index.package(package_from(file.imports@, 0, name)->0)->0;
    let def = files[f].symbol_defs@[k];
    if {
        &&& def.exported
        &&& defines(def, name, q)
        &&& forall|j: int|
            0 <= j < k ==> !(defines(#[trigger] files[f].symbol_defs@[j], name, q)
                && files[f].symbol_defs@[j].exported)
        &&& forall|g: int, j: int|
            0 <= g < f && 0 <= j < files[g].symbol_defs@.len() ==> !(defines(
                #[trigger] files[g].symbol_defs@[j],
                name,
                q,
            ) && files[g].symbol_defs@[j].exported)
        &&& forall|j: int|
            0 <= j < file.symbol_defs@.len() ==> !defines(
                #[trigger] file.symbol_defs@[j],
                name,
                q,
            )
    } {
        lemma_spread_def(file.symbol_defs@, 0, name, false, q);
        lemma_spread_in(files, 0, name, q, f, k);
    }
}

/// A call stands for its function where something is spread.
pub proof fn law_spread_call(name: Seq<char>)
    ensures
        spread_name(name + "()"@) == name,
{
    reveal_strlit("()");
    assert("()"@.is_suffix_of(name + "()"@)) by {
        assert((name + "()"@).subrange(
            (name + "()"@).len() - "()"@.len(),
            (name + "()"@).len() as int,
        ) =~= "()"@);
    }
    assert((name + "()"@).take(name.len() as int) =~= name);
}

} // verus!
