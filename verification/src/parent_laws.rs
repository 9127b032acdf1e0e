//! Which component an element counts as rendered in, and which props type a type stands for.

use crate::incident::opt_view;
use crate::index_lookup::symbol_named;
use crate::paths::components;
use crate::project_index::{
    local_name, ImportDecl, ImportedSymbol, IndexedFile, JsxProp, ProjectIndex, Span, SymbolDef,
    SymbolRef, TypeAnnotation,
};
use crate::query_eval::rendered_in;
use crate::query_names::{
    argument_end, index_or_end, is_props_name, is_wrapper, package_from, props_annotation,
    props_component, props_text,
};
use crate::query_parents::{
    call_parent, call_site_parent, def_around, def_at, def_transparency, element_around, element_of,
    exports_name, files_transparency, function_at, has_value, is_transparent, opaque_ancestor,
    package_transparency, parent_of, reexport_transparency, use_elsewhere, use_in, value_parent,
};
use crate::text::trimmed;
use vstd::prelude::*;

verus! {

// ---- Imports ----

proof fn lemma_symbol(symbols: Seq<ImportedSymbol>, name: Seq<char>, from: int)
    requires
        0 <= from <= symbols.len(),
    ensures
        symbol_named(symbols, name, from) is Some <==> exists|k: int|
            from <= k < symbols.len() && known_as(#[trigger] symbols[k], name),
    decreases symbols.len() - from,
{
    if from < symbols.len() {
        lemma_symbol(symbols, name, from + 1);
        assert(known_as(symbols[from], name) == (local_name(symbols[from])
            == name));
        if exists|k: int| from + 1 <= k < symbols.len() && known_as(#[trigger] symbols[k], name) {
            let k = choose|k: int|
                from + 1 <= k < symbols.len() && known_as(#[trigger] symbols[k], name);
            assert(known_as(symbols[k], name));
        }
    }
}

/// Whether a symbol is known under a name in the file that imports it.
pub open spec fn known_as(s: ImportedSymbol, name: Seq<char>) -> bool {
    if s.alias is Some {
        s.alias->0@ == name
    } else {
        s.name@ == name
    }
}

/// Whether an import makes a name known in its file.
pub open spec fn makes_known(i: ImportDecl, name: Seq<char>) -> bool {
    exists|k: int| 0 <= k < i.symbols@.len() && known_as(#[trigger] i.symbols@[k], name)
}

/// The package of a name is that of the first import that makes it known.
pub proof fn law_package_of_name(imports: Seq<ImportDecl>, from: int, name: Seq<char>, k: int)
    requires
        0 <= from <= k < imports.len(),
        makes_known(imports[k], name),
        forall|j: int| from <= j < k ==> !makes_known(#[trigger] imports[j], name),
    ensures
        package_from(imports, from, name) == Some(imports[k].source@),
    decreases k - from,
{
    lemma_symbol(imports[from].symbols@, name, 0);
    if from < k {
        assert(!makes_known(imports[from], name));
        law_package_of_name(imports, from + 1, name, k);
    }
}

/// A name that no import makes known has no package.
pub proof fn law_no_package(imports: Seq<ImportDecl>, from: int, name: Seq<char>)
    requires
        0 <= from <= imports.len(),
        forall|j: int| from <= j < imports.len() ==> !makes_known(#[trigger] imports[j], name),
    ensures
        package_from(imports, from, name) is None,
    decreases imports.len() - from,
{
    if from < imports.len() {
        lemma_symbol(imports[from].symbols@, name, 0);
        assert(!makes_known(imports[from], name));
        law_no_package(imports, from + 1, name);
    }
}

// ---- Transparency ----

/// Whether a definition exports a name and knows of its transparency.
pub open spec fn tells_transparency(d: SymbolDef, name: Seq<char>) -> bool {
    d.exported && d.name@ == name && d.transparency is Some
}

/// Of the definitions of a file the first that exports a name and knows of it tells.
pub proof fn law_first_definition_tells(
    defs: Seq<SymbolDef>,
    from: int,
    name: Seq<char>,
    k: int,
)
    requires
        0 <= from <= k < defs.len(),
        tells_transparency(defs[k], name),
        forall|j: int| from <= j < k ==> !tells_transparency(#[trigger] defs[j], name),
    ensures
        def_transparency(defs, from, name) == Some(defs[k].transparency->0.is_transparent),
    decreases k - from,
{
    if from < k {
        assert(!tells_transparency(defs[from], name));
        law_first_definition_tells(defs, from + 1, name, k);
    }
}

/// The first file of a package that tells of a name, by what it defines or by what it re-exports,
/// counts; what a file defines goes before what it re-exports.
pub proof fn law_first_file_tells(
    index: ProjectIndex,
    files: Seq<IndexedFile>,
    from: int,
    name: Seq<char>,
    k: int,
)
    requires
        0 <= from <= k < files.len(),
        forall|j: int|
            from <= j < k ==> def_transparency((#[trigger] files[j]).symbol_defs@, 0, name) is None
                && reexport_transparency(index, files[j].imports@, 0, name) is None,
        def_transparency(files[k].symbol_defs@, 0, name) is Some || reexport_transparency(
            index,
            files[k].imports@,
            0,
            name,
        ) is Some,
    ensures
        package_transparency(index, files, from, name) == if def_transparency(
            files[k].symbol_defs@,
            0,
            name,
        ) is Some {
            def_transparency(files[k].symbol_defs@, 0, name)
        } else {
            reexport_transparency(index, files[k].imports@, 0, name)
        },
    decreases k - from,
{
    if from < k {
        assert(def_transparency(files[from].symbol_defs@, 0, name) is None);
        law_first_file_tells(index, files, from + 1, name, k);
    }
}

/// A re-export of a name, or of everything, leads to what the files of its package define.
pub proof fn law_reexport_tells(
    index: ProjectIndex,
    imports: Seq<ImportDecl>,
    i: int,
    name: Seq<char>,
    files: Seq<IndexedFile>,
)
    requires
        0 <= i < imports.len(),
        imports[i].is_reexport,
        makes_known(imports[i], name) || imports[i].symbols@.len() == 0,
        index.package(imports[i].source@) == Some(files),
        files_transparency(files, 0, name) is Some,
    ensures
        reexport_transparency(index, imports, i, name) == files_transparency(files, 0, name),
{
    lemma_symbol(imports[i].symbols@, name, 0);
}

/// A component that the file does not import is never transparent.
pub proof fn law_own_component_opaque(index: ProjectIndex, file: IndexedFile, name: Seq<char>)
    requires
        forall|j: int|
            0 <= j < file.imports@.len() ==> !makes_known(#[trigger] file.imports@[j], name),
    ensures
        !is_transparent(index, file, name),
{
    law_no_package(file.imports@, 0, name);
}

// ---- The parent of an element ----

/// A parent that is not transparent is what an element is rendered in.
pub proof fn law_opaque_parent(
    index: ProjectIndex,
    file: IndexedFile,
    r: SymbolRef,
    p: Seq<char>,
)
    requires
        opt_view(r.parent_component) == Some(p),
        !is_transparent(index, file, p),
    ensures
        rendered_in(index, file, r) == Some(p),
{
}

/// A transparent parent is looked through: what it stands in counts in its place.
pub proof fn law_transparent_parent(
    index: ProjectIndex,
    file: IndexedFile,
    r: SymbolRef,
    p: Seq<char>,
    g: Seq<char>,
)
    requires
        opt_view(r.parent_component) == Some(p),
        is_transparent(index, file, p),
        parent_of(file.symbol_refs@, p) == Some(g),
        !is_transparent(index, file, g),
    ensures
        rendered_in(index, file, r) == Some(g),
{
    let none = Seq::<Seq<char>>::empty();
    assert(!none.contains(p));
    assert(opaque_ancestor(index, file, g, none.push(p)) == Some(g));
    assert(opaque_ancestor(index, file, p, none) == opaque_ancestor(index, file, g, none.push(p)));
}

/// Where no component that is not transparent stands around an element, the place counts where the
/// function around it is called.
pub proof fn law_called_parent(index: ProjectIndex, file: IndexedFile, r: SymbolRef, span: Span)
    requires
        r.parent_component is None || (is_transparent(
            index,
            file,
            r.parent_component->0@,
        ) && parent_of(file.symbol_refs@, r.parent_component->0@) is None),
        r.enclosing_function_span == Some(span),
    ensures
        rendered_in(index, file, r) == call_site_parent(index, file, span),
{
    if r.parent_component is Some {
        let p = r.parent_component->0@;
        let none = Seq::<Seq<char>>::empty();
        assert(!none.contains(p));
        assert(opaque_ancestor(index, file, p, none) is None);
    }
}

/// An element without a parent and without a function around it is rendered in nothing.
pub proof fn law_no_parent(index: ProjectIndex, file: IndexedFile, r: SymbolRef)
    requires
        r.parent_component is None,
        r.enclosing_function_span is None,
    ensures
        rendered_in(index, file, r) is None,
{
}

/// The parent of a component is that of its first element in the file.
pub proof fn law_first_element(refs: Seq<SymbolRef>, name: Seq<char>, from: int, k: int)
    requires
        0 <= from <= k < refs.len(),
        refs[k].is_jsx_component && refs[k].name@ == name,
        forall|j: int|
            from <= j < k ==> !((#[trigger] refs[j]).is_jsx_component && refs[j].name@ == name),
    ensures
        element_of(refs, name, from) == Some(k),
        from == 0 ==> parent_of(refs, name) == opt_view(refs[k].parent_component),
    decreases k - from,
{
    if from < k {
        assert(!(refs[from].is_jsx_component && refs[from].name@ == name));
        law_first_element(refs, name, from + 1, k);
    }
}

// ---- The place of a call ----

/// Whether a span lies within another.
pub open spec fn lies_in(inner: Span, outer: Span) -> bool {
    outer.start <= inner.start && inner.end <= outer.end
}

/// The definition around a span is the smallest that it lies within.
pub proof fn law_smallest_definition(defs: Seq<SymbolDef>, span: Span, n: int)
    requires
        0 <= n <= defs.len(),
    ensures
        match def_around(defs, span, n) {
            Some(k) => {
                &&& 0 <= k < n
                &&& lies_in(span, defs[k].span)
                &&& forall|j: int|
                    0 <= j < n && lies_in(span, (#[trigger] defs[j]).span) ==> defs[k].span.end
                        - defs[k].span.start <= defs[j].span.end - defs[j].span.start
            },
            None => forall|j: int| 0 <= j < n ==> !lies_in(span, (#[trigger] defs[j]).span),
        },
    decreases n,
{
    if n > 0 {
        law_smallest_definition(defs, span, n - 1);
    }
}

/// A definition that has the span itself goes before those around it.
pub proof fn law_definition_at(defs: Seq<SymbolDef>, span: Span, from: int, k: int)
    requires
        0 <= from <= k < defs.len(),
        defs[k].span == span,
        forall|j: int| from <= j < k ==> (#[trigger] defs[j]).span != span,
    ensures
        def_at(defs, span, from) == Some(k),
        from == 0 ==> function_at(defs, span) == Some(defs[k].name@),
    decreases k - from,
{
    if from < k {
        assert(defs[from].span != span);
        law_definition_at(defs, span, from + 1, k);
    }
}

/// Whether an element of a file stands around a span.
pub open spec fn stands_around(r: SymbolRef, span: Span) -> bool {
    r.is_jsx_component && r.jsx_element_span is Some && lies_in(span, r.jsx_element_span->0)
}

/// The element around a span is the innermost one.
pub proof fn law_innermost_element(refs: Seq<SymbolRef>, span: Span, n: int)
    requires
        0 <= n <= refs.len(),
    ensures
        match element_around(refs, span, n) {
            Some(k) => {
                &&& 0 <= k < n
                &&& stands_around(refs[k], span)
                &&& forall|j: int|
                    0 <= j < n && stands_around(#[trigger] refs[j], span)
                        ==> refs[k].jsx_element_span->0.end - refs[k].jsx_element_span->0.start
                        <= refs[j].jsx_element_span->0.end - refs[j].jsx_element_span->0.start
            },
            None => forall|j: int| 0 <= j < n ==> !stands_around(#[trigger] refs[j], span),
        },
    decreases n,
{
    if n > 0 {
        law_innermost_element(refs, span, n - 1);
    }
}

/// Whether a reference is a call of a function inside of an element.
pub open spec fn called_inside(refs: Seq<SymbolRef>, j: int, name: Seq<char>) -> bool {
    &&& refs[j].name@ == name
    &&& !refs[j].is_jsx_component
    &&& element_around(refs, refs[j].span, refs.len() as int) is Some
}

/// The parent of a call is the element around the first call inside of one.
pub proof fn law_first_call(refs: Seq<SymbolRef>, name: Seq<char>, from: int, k: int)
    requires
        0 <= from <= k < refs.len(),
        called_inside(refs, k, name),
        forall|j: int| from <= j < k ==> !#[trigger] called_inside(refs, j, name),
    ensures
        call_parent(refs, name, from) == Some(
            refs[element_around(refs, refs[k].span, refs.len() as int)->0].name@,
        ),
    decreases k - from,
{
    if from < k {
        assert(!called_inside(refs, from, name));
        law_first_call(refs, name, from + 1, k);
    }
}

/// Whether a prop has a name as its value.
pub open spec fn is_value(p: JsxProp, name: Seq<char>) -> bool {
    p.expression_text is Some && trimmed(p.expression_text->0@) == name
}

proof fn lemma_has_value(props: Seq<JsxProp>, name: Seq<char>, n: int)
    requires
        0 <= n <= props.len(),
    ensures
        has_value(props, name, n) <==> exists|k: int|
            0 <= k < n && is_value(#[trigger] props[k], name),
    decreases n,
{
    if n > 0 {
        lemma_has_value(props, name, n - 1);
    }
}

/// Whether an element has a name as the value of one of its props.
pub open spec fn takes(r: SymbolRef, name: Seq<char>) -> bool {
    r.is_jsx_component && exists|k: int|
        0 <= k < r.jsx_props@.len() && is_value(#[trigger] r.jsx_props@[k], name)
}

/// A function that is handed to elements as a prop is used in the first of them.
pub proof fn law_first_taker(refs: Seq<SymbolRef>, name: Seq<char>, from: int, k: int)
    requires
        0 <= from <= k < refs.len(),
        takes(refs[k], name),
        forall|j: int| from <= j < k ==> !takes(#[trigger] refs[j], name),
    ensures
        value_parent(refs, name, from) == Some(refs[k].name@),
    decreases k - from,
{
    let props = refs[from].jsx_props@;
    lemma_has_value(props, name, props.len() as int);
    if from < k {
        assert(!takes(refs[from], name));
        law_first_taker(refs, name, from + 1, k);
    }
}

proof fn lemma_exports_name(defs: Seq<SymbolDef>, name: Seq<char>, n: int)
    requires
        0 <= n <= defs.len(),
    ensures
        exports_name(defs, name, n) <==> exists|k: int|
            0 <= k < n && (#[trigger] defs[k]).name@ == name && defs[k].exported,
    decreases n,
{
    if n > 0 {
        lemma_exports_name(defs, name, n - 1);
    }
}

/// Where a function is called inside of an element of its own file, that element counts. Where it
/// is not, and it is exported, the other files are searched; where it is not exported, none is.
pub proof fn law_call_site(
    index: ProjectIndex,
    file: IndexedFile,
    span: Span,
    name: Seq<char>,
)
    requires
        function_at(file.symbol_defs@, span) == Some(name),
    ensures
        ({
            let own = call_parent(file.symbol_refs@, name, 0);
            let exported = exists|k: int|
                0 <= k < file.symbol_defs@.len() && (#[trigger] file.symbol_defs@[k]).name@ == name
                    && file.symbol_defs@[k].exported;
            &&& own is Some ==> call_site_parent(index, file, span) == own
            &&& own is None && exported ==> call_site_parent(index, file, span) == use_elsewhere(
                index.files(),
                file.path@,
                name,
                0,
            )
            &&& own is None && !exported ==> call_site_parent(index, file, span) is None
        }),
{
    lemma_exports_name(file.symbol_defs@, name, file.symbol_defs@.len() as int);
}

/// The first other file that uses a function tells where.
pub proof fn law_first_use(
    files: Seq<IndexedFile>,
    path: Seq<char>,
    name: Seq<char>,
    from: int,
    k: int,
)
    requires
        0 <= from <= k < files.len(),
        components(files[k].path@) != components(path),
        use_in(files[k], name) is Some,
        forall|j: int|
            from <= j < k ==> components((#[trigger] files[j]).path@)
                == components(path) || use_in(files[j], name) is None,
    ensures
        use_elsewhere(files, path, name, from) == use_in(files[k], name),
    decreases k - from,
{
    if from < k {
        assert(components(files[from].path@) == components(path)
            || use_in(files[from], name) is None);
        law_first_use(files, path, name, from + 1, k);
    }
}

// ---- Props types ----

/// A name that ends in `Props` is a props type by itself.
pub proof fn law_props_by_name(ta: TypeAnnotation, name: Seq<char>)
    requires
        opt_view(ta.name) == Some(name),
        "Props"@.is_suffix_of(name),
    ensures
        props_annotation(ta) == Some(name),
{
}

/// The type wrappers.
pub proof fn law_wrappers(name: Seq<char>)
    ensures
        is_wrapper(name) <==> name == "Partial"@ || name == "Required"@ || name == "Readonly"@
            || name == "Omit"@ || name == "Pick"@,
{
}

/// A wrapper stands for its first argument.
pub proof fn law_props_in_wrapper(ta: TypeAnnotation, name: Seq<char>)
    requires
        opt_view(ta.name) == Some(name),
        is_wrapper(name),
        !"Props"@.is_suffix_of(name),
        ta.type_arguments@.len() > 0,
    ensures
        props_annotation(ta) == props_annotation(ta.type_arguments@[0]),
{
}

/// Any other type stands for the first of its members that stands for a props type.
pub proof fn law_props_among_members(ta: TypeAnnotation, from: int, k: int)
    requires
        0 <= from <= k < ta.components@.len(),
        props_annotation(ta.components@[k]) is Some,
        forall|j: int| from <= j < k ==> props_annotation(#[trigger] ta.components@[j]) is None,
    ensures
        props_component(ta, from) == props_annotation(ta.components@[k]),
    decreases k - from,
{
    if from < k {
        assert(props_annotation(ta.components@[from]) is None);
        law_props_among_members(ta, from + 1, k);
    }
}

/// That is where members are looked at: where the type has no name of its own that tells.
pub proof fn law_members_looked_at(ta: TypeAnnotation)
    requires
        ta.name is None || (!"Props"@.is_suffix_of(ta.name->0@) && (!is_wrapper(ta.name->0@)
            || ta.type_arguments@.len() == 0)),
    ensures
        props_annotation(ta) == props_component(ta, 0),
{
}

/// A type without members that tell stands for none.
pub proof fn law_no_props_among_members(ta: TypeAnnotation, from: int)
    requires
        0 <= from <= ta.components@.len(),
        forall|j: int|
            from <= j < ta.components@.len() ==> props_annotation(
                #[trigger] ta.components@[j],
            ) is None,
    ensures
        props_component(ta, from) is None,
    decreases ta.components@.len() - from,
{
    if from < ta.components@.len() {
        assert(props_annotation(ta.components@[from]) is None);
        law_no_props_among_members(ta, from + 1);
    }
}

/// A props type that is written down inside of a wrapper is the first argument of the wrapper.
pub proof fn law_props_text_in_wrapper(wrapper: Seq<char>, name: Seq<char>, rest: Seq<char>)
    requires
        is_wrapper(wrapper),
        !wrapper.contains('<'),
        !name.contains(',') && !name.contains('>'),
        rest.len() > 0 && (rest[0] == ',' || rest[0] == '>'),
        is_props_name(trimmed(name)),
    ensures
        props_text(wrapper + seq!['<'] + name + rest) == Some(trimmed(name)),
{
    let raw = wrapper + seq!['<'] + name + rest;
    let p = wrapper.len() as int;
    assert(raw.take(p) =~= wrapper);
    lemma_bracket_at(raw, wrapper, 0);
    assert(raw.subrange(p + 1, p + 1 + name.len()) =~= name);
    lemma_argument_end(raw, p + 1, name, p + 1);
}

proof fn lemma_bracket_at(raw: Seq<char>, wrapper: Seq<char>, i: int)
    requires
        !wrapper.contains('<'),
        wrapper.len() < raw.len(),
        raw.take(wrapper.len() as int) == wrapper,
        raw[wrapper.len() as int] == '<',
        0 <= i <= wrapper.len(),
    ensures
        index_or_end(raw, '<', i) == wrapper.len(),
    decreases wrapper.len() - i,
{
    if i < wrapper.len() {
        assert(raw[i] == wrapper[i]) by {
            assert(raw.take(wrapper.len() as int)[i] == raw[i]);
        }
        assert(raw[i] != '<') by {
            if raw[i] == '<' {
                assert(wrapper.contains('<'));
            }
        }
        lemma_bracket_at(raw, wrapper, i + 1);
    }
}

proof fn lemma_argument_end(raw: Seq<char>, start: int, name: Seq<char>, i: int)
    requires
        0 <= start <= i <= start + name.len() < raw.len(),
        raw.subrange(start, start + name.len()) == name,
        !name.contains(',') && !name.contains('>'),
        raw[start + name.len()] == ',' || raw[start + name.len()] == '>',
    ensures
        argument_end(raw, i) == start + name.len(),
    decreases start + name.len() - i,
{
    if i < start + name.len() {
        assert(raw.subrange(start, start + name.len())[i - start] == raw[i]);
        assert(name[i - start] == raw[i]);
        assert(name.contains(raw[i]));
        lemma_argument_end(raw, start, name, i + 1);
    }
}

/// A props type that is written down without brackets is the name itself.
pub proof fn law_props_text(raw: Seq<char>)
    requires
        !raw.contains('<'),
    ensures
        props_text(raw) == if is_props_name(raw) {
            Some(raw)
        } else {
            None
        },
{
    lemma_no_bracket(raw, 0);
}

proof fn lemma_no_bracket(raw: Seq<char>, i: int)
    requires
        !raw.contains('<'),
        0 <= i <= raw.len(),
    ensures
        index_or_end(raw, '<', i) == raw.len(),
    decreases raw.len() - i,
{
    if i < raw.len() {
        assert(raw[i] != '<') by {
            if raw[i] == '<' {
                assert(raw.contains('<'));
            }
        }
        lemma_no_bracket(raw, i + 1);
    }
}

} // verus!
