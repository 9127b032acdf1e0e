//! Query-based condition evaluation using a project index.
//!
//! Each condition on references is translated into one or more passes over the index: imports,
//! JSX components, JSX props, type references and function calls.

use crate::capabilities::{ReferenceLocation, ReferencedCondition};
use crate::incident::{
    append_incidents, incident_models, opt_view, push_incident, Incident, IncidentV,
};
use crate::json::Json;
use crate::paths::{below, strip_dir};
use crate::pattern::{compile_opt, opt_source, opt_valid, regex_accepts, regex_source, regex_valid};
use crate::project_index::{
    file_models, local_name, specifier, ImportDecl, ImportedSymbol, IndexedFile, JsxProp,
    ProjectIndex, Span, SymbolDef, SymbolRef, TypedObject,
};
use crate::property_values::{file_tree, parse_file, property_value, read_value, tree_view};
use crate::query_names::{
    component_matches, component_of, extract_props_type_name, extract_props_type_name_from_raw,
    find_import_module, find_import_package, first_part, get_first_part, import_matches_from,
    imported_from, is_props_name, matches_component, module_from, package_from, props_annotation,
    props_text, strip_props,
};
use crate::query_parents::{
    call_site_parent, children_of, effective_parent, find_jsx_children, resolve_effective_parent,
    resolve_fn_call_site_parent,
};
use crate::scanner::{
    capped, code_snip, code_snip_text, incident_at, line_at, line_start, make_incident, newlines,
};
use crate::text::{chars_of, concat, ends_with, same, text_of};
use vstd::prelude::*;

verus! {

/// The patterns of a query.
pub ghost struct QueryV {
    pub root: Seq<char>,
    pub pattern: Seq<char>,
    pub file_pattern: Option<Seq<char>>,
    pub from: Option<Seq<char>>,
    pub component: Option<Seq<char>>,
    pub value: Option<Seq<char>>,
    pub parent: Option<Seq<char>>,
    pub not_parent: Option<Seq<char>>,
    pub parent_from: Option<Seq<char>>,
    pub child: Option<Seq<char>>,
    pub not_child: Option<Seq<char>>,
    pub requires_child: Option<Seq<char>>,
}

/// The query that a condition makes.
pub open spec fn query_of(c: ReferencedCondition, root: Seq<char>) -> QueryV {
    QueryV {
        root,
        pattern: c.pattern@,
        file_pattern: opt_view(c.file_pattern),
        from: opt_view(c.from),
        component: opt_view(c.component),
        value: opt_view(c.value),
        parent: opt_view(c.parent),
        not_parent: opt_view(c.not_parent),
        parent_from: opt_view(c.parent_from),
        child: opt_view(c.child),
        not_child: opt_view(c.not_child),
        requires_child: opt_view(c.requires_child),
    }
}

/// Whether a pattern, where there is one, matches a text.
pub open spec fn passes(pattern: Option<Seq<char>>, text: Seq<char>) -> bool {
    pattern matches Some(p) ==> regex_accepts(p, text)
}

fn check_passes(pattern: &Option<regex::Regex>, text: &str) -> (r: bool)
    ensures
        r == passes(opt_source(*pattern), text@),
{
    match pattern {
        Some(p) => p.is_match(text),
        None => true,
    }
}

/// Whether a file is looked at: whether its path below the root matches.
pub open spec fn wants_file(path: Seq<char>, q: QueryV) -> bool {
    passes(
        q.file_pattern,
        match below(path, q.root) {
            Some(relative) => relative,
            None => path,
        },
    )
}

/// Check whether a file path matches the optional file pattern.
pub fn file_matches(root: &str, file_path: &str, file_pattern: &Option<regex::Regex>) -> (r: bool)
    ensures
        r == passes(
            opt_source(*file_pattern),
            match below(file_path@, root@) {
                Some(relative) => relative,
                None => file_path@,
            },
        ),
{
    match file_pattern {
        Some(p) => match strip_dir(file_path, root) {
            Some(relative) => p.is_match(relative.as_str()),
            None => p.is_match(file_path),
        },
        None => true,
    }
}

/// An offset, or the end of a text where the offset lies beyond it.
pub open spec fn clamp(bytes: Seq<u8>, offset: int) -> int {
    if offset <= bytes.len() {
        offset
    } else {
        bytes.len() as int
    }
}

/// Convert a byte offset to (0-indexed line, 0-indexed column).
pub fn offset_to_line_col(source: &str, offset: usize) -> (r: (usize, usize))
    ensures
        ({
            let bytes = vstd::utf8::encode_utf8(source@);
            let n = clamp(bytes, offset as int);
            r.0 == newlines(bytes, n) && r.1 == n - line_start(bytes, n)
        }),
{
    let bytes = source.as_bytes();
    let n: usize = if offset <= bytes.len() {
        offset
    } else {
        bytes.len()
    };
    let mut line: usize = 0;
    let mut i: usize = 0;
    while i < n
        invariant
            i <= n <= bytes@.len(),
            line == newlines(bytes@, i as int),
            line <= i,
        decreases n - i,
    {
        if bytes[i] == 10u8 {
            line = line + 1;
        }
        i = i + 1;
    }
    let mut start: usize = n;
    while start > 0 && bytes[start - 1] != 10u8
        invariant
            start <= n <= bytes@.len(),
            line_start(bytes@, n as int) == line_start(bytes@, start as int),
        decreases start,
    {
        start = start - 1;
    }
    (line, n - start)
}

/// The incident at a span of a file, with two lines of the file before and after it.
pub open spec fn span_incident(file: IndexedFile, span: Span) -> IncidentV {
    let base = incident_at(file.source_text@, "file://"@ + file.path@, span.start, span.end);
    let line = capped(line_at(file.source_text@, span.start));
    if line <= u32::MAX - 2 {
        IncidentV { code_snip: Some(code_snip_text(file.source_text@, line, 2)), ..base }
    } else {
        base
    }
}

/// Create an incident from an index span, computing line and column from the source.
pub fn make_incident_from_span(file: &IndexedFile, span: Span) -> (r: Incident)
    ensures
        r@ == span_incident(*file, span),
{
    let uri = concat("file://", file.path.as_str());
    let source = file.source_text.as_str();
    let mut incident = make_incident(source, uri.as_str(), span.start, span.end);
    let line = crate::scanner::line_number_from_offset(source, span.start);
    if line <= u32::MAX - 2 {
        incident.code_snip = Some(code_snip(source, line, 2));
    }
    incident
}

/// The incident, with the module that a name is imported from.
pub open spec fn with_module(
    i: IncidentV,
    key: Seq<char>,
    file: IndexedFile,
    name: Seq<char>,
) -> IncidentV {
    match module_from(file.imports@, 0, name) {
        Some(module) => i.with_text(key, module),
        None => i,
    }
}

fn set_module(incident: &mut Incident, key: &str, file: &IndexedFile, name: &str)
    ensures
        final(incident)@ == with_module(old(incident)@, key@, *file, name@),
{
    if let Some(module) = find_import_module(file, name) {
        incident.set_text(key, module);
    }
}

/// The compiled patterns of a query.
struct Query<'a> {
    root: &'a str,
    pattern: &'a regex::Regex,
    file_pattern: &'a Option<regex::Regex>,
    from: Option<regex::Regex>,
    component: Option<regex::Regex>,
    value: Option<regex::Regex>,
    parent: Option<regex::Regex>,
    not_parent: Option<regex::Regex>,
    parent_from: Option<regex::Regex>,
    child: Option<regex::Regex>,
    not_child: Option<regex::Regex>,
    requires_child: Option<regex::Regex>,
}

impl<'a> Query<'a> {
    /// Whether the patterns that every query has are those of a query.
    spec fn is_for(self, q: QueryV) -> bool {
        &&& self.root@ == q.root
        &&& regex_source(*self.pattern) == q.pattern
        &&& opt_source(*self.file_pattern) == q.file_pattern
        &&& opt_source(self.from) == q.from
    }

    /// Whether the patterns of a query for props are those of a query.
    spec fn is_for_props(self, q: QueryV) -> bool {
        &&& self.is_for(q)
        &&& opt_source(self.component) == q.component
        &&& opt_source(self.value) == q.value
    }

    /// Whether the patterns of a query for components are those of a query.
    spec fn is_for_components(self, q: QueryV) -> bool {
        &&& self.is_for(q)
        &&& opt_source(self.parent) == q.parent
        &&& opt_source(self.not_parent) == q.not_parent
        &&& opt_source(self.parent_from) == q.parent_from
        &&& opt_source(self.child) == q.child
        &&& opt_source(self.not_child) == q.not_child
        &&& opt_source(self.requires_child) == q.requires_child
    }

    fn wants(&self, file: &IndexedFile, Ghost(q): Ghost<QueryV>) -> (r: bool)
        requires
            self.is_for(q),
        ensures
            r == wants_file(file.path@, q),
    {
        file_matches(self.root, file.path.as_str(), self.file_pattern)
    }
}

// ---- Imports ----

/// Whether a symbol is imported under a name that only counts locally: a default or a namespace
/// import.
pub open spec fn is_anonymous(s: ImportedSymbol) -> bool {
    s.name@ == "default"@ || s.name@ == "*"@
}

/// Whether an imported symbol matches, by its own name or its local one.
pub open spec fn symbol_matches(s: ImportedSymbol, q: QueryV) -> bool {
    regex_accepts(q.pattern, local_name(s)) || (!is_anonymous(s) && regex_accepts(
        q.pattern,
        s.name@,
    ))
}

/// The incident for an imported symbol.
pub open spec fn import_incident(file: IndexedFile, i: ImportDecl, s: ImportedSymbol) -> IncidentV {
    span_incident(file, s.span).with_text(
        "matchingText"@,
        if is_anonymous(s) {
            local_name(s)
        } else {
            s.name@
        },
    ).with_text("module"@, specifier(i))
}

/// The incidents for the first `n` symbols of an import.
pub open spec fn symbol_hits(file: IndexedFile, i: ImportDecl, n: int, q: QueryV) -> Seq<IncidentV>
    decreases n,
{
    if n <= 0 || n > i.symbols@.len() {
        Seq::empty()
    } else if symbol_matches(i.symbols@[n - 1], q) {
        symbol_hits(file, i, n - 1, q).push(import_incident(file, i, i.symbols@[n - 1]))
    } else {
        symbol_hits(file, i, n - 1, q)
    }
}

/// Whether the module of an import matches, as it is written or by its package.
pub open spec fn module_matches(i: ImportDecl, q: QueryV) -> bool {
    passes(q.from, specifier(i)) || passes(q.from, i.source@)
}

/// The incidents for the first `n` imports of a file.
pub open spec fn import_hits(file: IndexedFile, n: int, q: QueryV) -> Seq<IncidentV>
    decreases n,
{
    if n <= 0 || n > file.imports@.len() {
        Seq::empty()
    } else {
        let i = file.imports@[n - 1];
        if module_matches(i, q) {
            import_hits(file, n - 1, q) + symbol_hits(file, i, i.symbols@.len() as int, q)
        } else {
            import_hits(file, n - 1, q)
        }
    }
}

/// The incidents for the imports of the first `n` files.
pub open spec fn all_import_hits(files: Seq<IndexedFile>, n: int, q: QueryV) -> Seq<IncidentV>
    decreases n,
{
    if n <= 0 || n > files.len() {
        Seq::empty()
    } else if wants_file(files[n - 1].path@, q) {
        all_import_hits(files, n - 1, q) + import_hits(
            files[n - 1],
            files[n - 1].imports@.len() as int,
            q,
        )
    } else {
        all_import_hits(files, n - 1, q)
    }
}

fn add_symbols(
    file: &IndexedFile,
    import: &ImportDecl,
    query: &Query<'_>,
    Ghost(q): Ghost<QueryV>,
    out: &mut Vec<Incident>,
)
    requires
        query.is_for(q),
    ensures
        incident_models(final(out)@) == incident_models(old(out)@) + symbol_hits(
            *file,
            *import,
            import.symbols@.len() as int,
            q,
        ),
{
    let ghost before = incident_models(out@);
    let mut i: usize = 0;
    assert(before + symbol_hits(*file, *import, 0, q) =~= before);
    while i < import.symbols.len()
        invariant
            i <= import.symbols@.len(),
            query.is_for(q),
            incident_models(out@) == before + symbol_hits(*file, *import, i as int, q),
        decreases import.symbols.len() - i,
    {
        let s = &import.symbols[i];
        let local = s.get_local_name();
        let anonymous = same(s.name.as_str(), "default") || same(s.name.as_str(), "*");
        if query.pattern.is_match(local) || (!anonymous && query.pattern.is_match(
            s.name.as_str(),
        )) {
            let mut incident = make_incident_from_span(file, s.span);
            incident.set_text(
                "matchingText",
                if anonymous {
                    local
                } else {
                    s.name.as_str()
                },
            );
            incident.set_text("module", import.get_specifier());
            push_incident(out, incident);
        }
        i = i + 1;
        assert(incident_models(out@) =~= before + symbol_hits(*file, *import, i as int, q));
    }
}

fn add_imports(
    file: &IndexedFile,
    query: &Query<'_>,
    Ghost(q): Ghost<QueryV>,
    out: &mut Vec<Incident>,
)
    requires
        query.is_for(q),
    ensures
        incident_models(final(out)@) == incident_models(old(out)@) + import_hits(
            *file,
            file.imports@.len() as int,
            q,
        ),
{
    let ghost before = incident_models(out@);
    let mut i: usize = 0;
    assert(before + import_hits(*file, 0, q) =~= before);
    while i < file.imports.len()
        invariant
            i <= file.imports@.len(),
            query.is_for(q),
            incident_models(out@) == before + import_hits(*file, i as int, q),
        decreases file.imports.len() - i,
    {
        let import = &file.imports[i];
        if check_passes(&query.from, import.get_specifier()) || check_passes(
            &query.from,
            import.source.as_str(),
        ) {
            add_symbols(file, import, query, Ghost(q), out);
        }
        i = i + 1;
        assert(incident_models(out@) =~= before + import_hits(*file, i as int, q));
    }
}

/// The imports of symbols whose name matches.
fn eval_import(index: &ProjectIndex, query: &Query<'_>, Ghost(q): Ghost<QueryV>) -> (out: Vec<
    Incident,
>)
    requires
        query.is_for(q),
    ensures
        incident_models(out@) == all_import_hits(index.files(), index.files().len() as int, q),
{
    let files = index.list_files();
    let ghost all = index.files();
    let mut out: Vec<Incident> = Vec::new();
    assert(incident_models(out@) =~= all_import_hits(all, 0, q));
    let mut i: usize = 0;
    while i < files.len()
        invariant
            i <= files@.len(),
            all == file_models(files@),
            query.is_for(q),
            incident_models(out@) == all_import_hits(all, i as int, q),
        decreases files.len() - i,
    {
        assert(all[i as int] == *files@[i as int]);
        if query.wants(files[i], Ghost(q)) {
            add_imports(files[i], query, Ghost(q), &mut out);
        }
        i = i + 1;
    }
    out
}

// ---- Props ----

/// The incident for a prop of a component.
pub open spec fn prop_incident(
    file: IndexedFile,
    span: Span,
    name: Seq<char>,
    component: Seq<char>,
) -> IncidentV {
    span_incident(file, span).with_text("propName"@, name).with_text("componentName"@, component)
}

/// Whether the value that an object literal within a span gives to a name meets the condition on
/// the value.
pub open spec fn value_fits(file: IndexedFile, span: Span, name: Seq<char>, q: QueryV) -> bool {
    passes(q.value, property_value(file, span, name))
}

/// The incidents for those of the first `n` names that match, and whose value does, each marked.
pub open spec fn marked_hits(
    file: IndexedFile,
    span: Span,
    names: Seq<String>,
    n: int,
    component: Seq<char>,
    mark: Seq<char>,
    module_of: Option<Seq<char>>,
    q: QueryV,
) -> Seq<IncidentV>
    decreases n,
{
    if n <= 0 || n > names.len() {
        Seq::empty()
    } else {
        let before = marked_hits(file, span, names, n - 1, component, mark, module_of, q);
        if regex_accepts(q.pattern, names[n - 1]@) && value_fits(file, span, names[n - 1]@, q) {
            let i = prop_incident(file, span, names[n - 1]@, component).with_text(mark, "true"@);
            before.push(
                match module_of {
                    Some(name) => with_module(i, "module"@, file, name),
                    None => i,
                },
            )
        } else {
            before
        }
    }
}

/// Whether one of the first `n` names matches.
pub open spec fn any_name(names: Seq<String>, n: int, q: QueryV) -> bool
    decreases n,
{
    if n <= 0 || n > names.len() {
        false
    } else {
        any_name(names, n - 1, q) || regex_accepts(q.pattern, names[n - 1]@)
    }
}

/// The index of the first definition, from index `i` on, of a name, that has a property that
/// matches; exported ones only, if so asked.
pub open spec fn spread_def(
    defs: Seq<SymbolDef>,
    i: int,
    name: Seq<char>,
    exported: bool,
    q: QueryV,
) -> Option<int>
    decreases defs.len() - i,
{
    if i < 0 || i >= defs.len() {
        None
    } else if defs[i].name@ == name && (exported ==> defs[i].exported) && any_name(
        defs[i].object_properties@,
        defs[i].object_properties@.len() as int,
        q,
    ) {
        Some(i)
    } else {
        spread_def(defs, i + 1, name, exported, q)
    }
}

/// The property names that the first of the files, from index `i` on, with an exported definition
/// that matches gives to a name.
pub open spec fn spread_names_in(files: Seq<IndexedFile>, i: int, name: Seq<char>, q: QueryV) -> Option<
    Seq<String>,
>
    decreases files.len() - i,
{
    if i < 0 || i >= files.len() {
        None
    } else {
        match spread_def(files[i].symbol_defs@, 0, name, true, q) {
            Some(k) => Some(files[i].symbol_defs@[k].object_properties@),
            None => spread_names_in(files, i + 1, name, q),
        }
    }
}

/// The name of what a spread expression spreads: a function call stands for its function.
pub open spec fn spread_name(text: Seq<char>) -> Seq<char> {
    if "()"@.is_suffix_of(text) {
        text.take(text.len() - 2)
    } else {
        text
    }
}

/// The property names of what a spread expression spreads, by its definition in the file or in
/// the package that it is imported from.
pub open spec fn spread_names(
    index: ProjectIndex,
    file: IndexedFile,
    name: Seq<char>,
    q: QueryV,
) -> Option<Seq<String>> {
    match spread_def(file.symbol_defs@, 0, name, false, q) {
        Some(k) => Some(file.symbol_defs@[k].object_properties@),
        None => match package_from(file.imports@, 0, name) {
            Some(source) => match index.package(source) {
                Some(files) => spread_names_in(files, 0, name, q),
                None => None,
            },
            None => None,
        },
    }
}

/// The incidents for a spread attribute. A condition on the value rules them all out.
pub open spec fn spread_hits(
    index: ProjectIndex,
    file: IndexedFile,
    component: Seq<char>,
    p: JsxProp,
    q: QueryV,
) -> Seq<IncidentV> {
    let mark = "spreadSource"@;
    if q.value is Some {
        Seq::empty()
    } else if p.spread_properties@.len() > 0 {
        marked_hits(
            file,
            p.span,
            p.spread_properties@,
            p.spread_properties@.len() as int,
            component,
            mark,
            None,
            q,
        )
    } else {
        match p.expression_text {
            Some(text) => match spread_names(index, file, spread_name(text@), q) {
                Some(names) => marked_hits(
                    file,
                    p.span,
                    names,
                    names.len() as int,
                    component,
                    mark,
                    None,
                    q,
                ),
                None => Seq::empty(),
            },
            None => Seq::empty(),
        }
    }
}

/// The value of a prop: the string, or else the source text of the expression.
pub open spec fn prop_value(p: JsxProp) -> Option<Seq<char>> {
    match p.string_value {
        Some(s) => Some(s@),
        None => opt_view(p.expression_text),
    }
}

/// The incidents for a prop of an element: the prop itself where its name matches, or else the
/// keys of the object that is its value.
pub open spec fn prop_hits(
    index: ProjectIndex,
    file: IndexedFile,
    component: Seq<char>,
    p: JsxProp,
    q: QueryV,
) -> Seq<IncidentV> {
    if p.is_spread {
        spread_hits(index, file, component, p, q)
    } else if !regex_accepts(q.pattern, p.name@) {
        marked_hits(
            file,
            p.span,
            p.nested_object_keys@,
            p.nested_object_keys@.len() as int,
            component,
            "nestedObjectKey"@,
            Some(component),
            q,
        )
    } else if !passes(
        q.value,
        match prop_value(p) {
            Some(v) => v,
            None => ""@,
        },
    ) {
        Seq::empty()
    } else {
        let base = prop_incident(file, p.span, p.name@, component);
        let valued = match prop_value(p) {
            Some(v) => base.with_text("propValue"@, v),
            None => base,
        };
        seq![with_module(valued, "module"@, file, component)]
    }
}

/// The incidents for the first `n` props of an element.
pub open spec fn props_hits(
    index: ProjectIndex,
    file: IndexedFile,
    r: SymbolRef,
    n: int,
    q: QueryV,
) -> Seq<IncidentV>
    decreases n,
{
    if n <= 0 || n > r.jsx_props@.len() {
        Seq::empty()
    } else {
        props_hits(index, file, r, n - 1, q) + prop_hits(
            index,
            file,
            r.name@,
            r.jsx_props@[n - 1],
            q,
        )
    }
}

/// Whether the component of an element is imported from a module that matches.
pub open spec fn element_from(file: IndexedFile, name: Seq<char>, q: QueryV) -> bool {
    q.from matches Some(p) ==> imported_from(file.imports@, first_part(name), p)
}

/// The incidents for the props of the first `n` elements of a file.
pub open spec fn element_prop_hits(index: ProjectIndex, file: IndexedFile, n: int, q: QueryV) -> Seq<
    IncidentV,
>
    decreases n,
{
    if n <= 0 || n > file.symbol_refs@.len() {
        Seq::empty()
    } else {
        let r = file.symbol_refs@[n - 1];
        if r.is_jsx_component && (q.component matches Some(p) ==> matches_component(r.name@, p))
            && element_from(file, r.name@, q) {
            element_prop_hits(index, file, n - 1, q) + props_hits(
                index,
                file,
                r,
                r.jsx_props@.len() as int,
                q,
            )
        } else {
            element_prop_hits(index, file, n - 1, q)
        }
    }
}

/// The incidents for an object whose type is named.
pub open spec fn typed_hits(
    file: IndexedFile,
    span: Span,
    names: Seq<String>,
    type_text: Option<Seq<char>>,
    q: QueryV,
) -> Seq<IncidentV> {
    match (type_text, q.component) {
        (Some(name), Some(p)) => if is_props_name(name) && regex_accepts(p, component_of(name)) {
            marked_hits(
                file,
                span,
                names,
                names.len() as int,
                component_of(name),
                "typedObjectLiteral"@,
                Some(name),
                q,
            )
        } else {
            Seq::empty()
        },
        _ => Seq::empty(),
    }
}

/// The incidents for the first `n` definitions that are objects with a props type.
pub open spec fn def_hits(file: IndexedFile, n: int, q: QueryV) -> Seq<IncidentV>
    decreases n,
{
    if n <= 0 || n > file.symbol_defs@.len() {
        Seq::empty()
    } else {
        let d = file.symbol_defs@[n - 1];
        def_hits(file, n - 1, q) + typed_hits(
            file,
            d.span,
            d.object_properties@,
            match d.type_annotation {
                Some(ta) => props_annotation(ta),
                None => None,
            },
            q,
        )
    }
}

/// The incidents for the first `n` objects with a props type inside a function.
pub open spec fn object_hits(file: IndexedFile, objects: Seq<TypedObject>, n: int, q: QueryV) -> Seq<
    IncidentV,
>
    decreases n,
{
    if n <= 0 || n > objects.len() {
        Seq::empty()
    } else {
        let o = objects[n - 1];
        object_hits(file, objects, n - 1, q) + typed_hits(
            file,
            o.span,
            o.properties@,
            props_text(o.type_name_text@),
            q,
        )
    }
}

/// The incidents for the objects with a props type inside the first `n` definitions.
pub open spec fn local_object_hits(file: IndexedFile, n: int, q: QueryV) -> Seq<IncidentV>
    decreases n,
{
    if n <= 0 || n > file.symbol_defs@.len() {
        Seq::empty()
    } else {
        let objects = file.symbol_defs@[n - 1].typed_local_objects@;
        local_object_hits(file, n - 1, q) + object_hits(file, objects, objects.len() as int, q)
    }
}

/// The incidents for the props in the first `n` files: those of elements, then those of objects
/// with a props type.
pub open spec fn all_prop_hits(index: ProjectIndex, files: Seq<IndexedFile>, n: int, q: QueryV) -> Seq<
    IncidentV,
>
    decreases n,
{
    if n <= 0 || n > files.len() {
        Seq::empty()
    } else {
        let f = files[n - 1];
        if wants_file(f.path@, q) {
            all_prop_hits(index, files, n - 1, q) + element_prop_hits(
                index,
                f,
                f.symbol_refs@.len() as int,
                q,
            ) + def_hits(f, f.symbol_defs@.len() as int, q) + local_object_hits(
                f,
                f.symbol_defs@.len() as int,
                q,
            )
        } else {
            all_prop_hits(index, files, n - 1, q)
        }
    }
}

/// Whether a tree is that of a file, as far as a query looks into it: only where there is a
/// condition on the value.
spec fn tree_for(tree: Option<Json>, file: IndexedFile, q: QueryV) -> bool {
    q.value is Some ==> tree_view(tree) == file_tree(file)
}

fn check_value(
    file: &IndexedFile,
    tree: &Option<Json>,
    span: Span,
    name: &str,
    query: &Query<'_>,
    Ghost(q): Ghost<QueryV>,
) -> (r: bool)
    requires
        query.is_for_props(q),
        tree_for(*tree, *file, q),
    ensures
        r == value_fits(*file, span, name@, q),
{
    match &query.value {
        Some(p) => {
            let value = read_value(file, tree, span, name);
            p.is_match(value.as_str())
        },
        None => true,
    }
}

fn add_marked(
    file: &IndexedFile,
    tree: &Option<Json>,
    span: Span,
    names: &Vec<String>,
    component: &str,
    mark: &str,
    module_of: Option<&str>,
    query: &Query<'_>,
    Ghost(q): Ghost<QueryV>,
    out: &mut Vec<Incident>,
)
    requires
        query.is_for_props(q),
        tree_for(*tree, *file, q),
    ensures
        incident_models(final(out)@) == incident_models(old(out)@) + marked_hits(
            *file,
            span,
            names@,
            names@.len() as int,
            component@,
            mark@,
            crate::jsx_context::parent_view(module_of),
            q,
        ),
{
    let ghost before = incident_models(out@);
    let ghost m = crate::jsx_context::parent_view(module_of);
    let mut i: usize = 0;
    assert(before + marked_hits(*file, span, names@, 0, component@, mark@, m, q) =~= before);
    while i < names.len()
        invariant
            i <= names@.len(),
            query.is_for_props(q),
            tree_for(*tree, *file, q),
            m == crate::jsx_context::parent_view(module_of),
            incident_models(out@) == before + marked_hits(
                *file,
                span,
                names@,
                i as int,
                component@,
                mark@,
                m,
                q,
            ),
        decreases names.len() - i,
    {
        if query.pattern.is_match(names[i].as_str()) && check_value(
            file,
            tree,
            span,
            names[i].as_str(),
            query,
            Ghost(q),
        ) {
            let mut incident = make_incident_from_span(file, span);
            incident.set_text("propName", names[i].as_str());
            incident.set_text("componentName", component);
            incident.set_text(mark, "true");
            if let Some(name) = module_of {
                set_module(&mut incident, "module", file, name);
            }
            push_incident(out, incident);
        }
        i = i + 1;
        assert(incident_models(out@) =~= before + marked_hits(
            *file,
            span,
            names@,
            i as int,
            component@,
            mark@,
            m,
            q,
        ));
    }
}

fn check_any_name(names: &Vec<String>, query: &Query<'_>, Ghost(q): Ghost<QueryV>) -> (r: bool)
    requires
        query.is_for(q),
    ensures
        r == any_name(names@, names@.len() as int, q),
{
    let mut found = false;
    let mut i: usize = 0;
    while i < names.len()
        invariant
            i <= names@.len(),
            query.is_for(q),
            found == any_name(names@, i as int, q),
        decreases names.len() - i,
    {
        if query.pattern.is_match(names[i].as_str()) {
            found = true;
        }
        i = i + 1;
    }
    found
}

fn find_spread_def<'a>(
    defs: &'a Vec<SymbolDef>,
    name: &str,
    exported: bool,
    query: &Query<'_>,
    Ghost(q): Ghost<QueryV>,
) -> (r: Option<&'a Vec<String>>)
    requires
        query.is_for(q),
    ensures
        match r {
            Some(v) => spread_def(defs@, 0, name@, exported, q) matches Some(k) && v@
                == defs@[k].object_properties@,
            None => spread_def(defs@, 0, name@, exported, q) is None,
        },
{
    let mut i: usize = 0;
    while i < defs.len()
        invariant
            i <= defs@.len(),
            query.is_for(q),
            spread_def(defs@, 0, name@, exported, q) == spread_def(
                defs@,
                i as int,
                name@,
                exported,
                q,
            ),
        decreases defs.len() - i,
    {
        let d = &defs[i];
        if same(d.name.as_str(), name) && (!exported || d.exported) && check_any_name(
            &d.object_properties,
            query,
            Ghost(q),
        ) {
            return Some(&d.object_properties);
        }
        i = i + 1;
    }
    None
}

fn find_spread_names<'a>(
    index: &'a ProjectIndex,
    file: &'a IndexedFile,
    name: &str,
    query: &Query<'_>,
    Ghost(q): Ghost<QueryV>,
) -> (r: Option<&'a Vec<String>>)
    requires
        query.is_for(q),
    ensures
        (match r {
            Some(v) => Some(v@),
            None => None,
        }) == spread_names(*index, *file, name@, q),
{
    if let Some(names) = find_spread_def(&file.symbol_defs, name, false, query, Ghost(q)) {
        return Some(names);
    }
    let source = match find_import_package(file, name) {
        Some(s) => s,
        None => return None,
    };
    let files = match index.find_package(source) {
        Some(f) => f,
        None => return None,
    };
    let mut i: usize = 0;
    while i < files.len()
        invariant
            i <= files@.len(),
            query.is_for(q),
            spread_names(*index, *file, name@, q) == spread_names_in(files@, 0, name@, q),
            spread_names_in(files@, 0, name@, q) == spread_names_in(files@, i as int, name@, q),
        decreases files.len() - i,
    {
        if let Some(names) = find_spread_def(&files[i].symbol_defs, name, true, query, Ghost(q)) {
            return Some(names);
        }
        i = i + 1;
    }
    None
}

fn get_spread_name(text: &str) -> (r: String)
    ensures
        r@ == spread_name(text@),
{
    proof {
        reveal_strlit("()");
    }
    if ends_with(text, "()") {
        let c = chars_of(text);
        let r = text_of(&c, 0, c.len() - 2);
        assert(r@ =~= text@.take(text@.len() - 2));
        r
    } else {
        text.to_owned()
    }
}

/// Check if a spread attribute contains a prop matching the pattern: among the properties that
/// stand there, or by the definition of what is spread.
fn check_spread_prop(
    index: &ProjectIndex,
    file: &IndexedFile,
    tree: &Option<Json>,
    component: &str,
    p: &JsxProp,
    query: &Query<'_>,
    Ghost(q): Ghost<QueryV>,
    out: &mut Vec<Incident>,
)
    requires
        query.is_for_props(q),
        tree_for(*tree, *file, q),
    ensures
        incident_models(final(out)@) == incident_models(old(out)@) + spread_hits(
            *index,
            *file,
            component@,
            *p,
            q,
        ),
{
    let ghost before = incident_models(out@);
    assert(before + Seq::<IncidentV>::empty() =~= before);
    if query.value.is_some() {
        return;
    }
    if p.spread_properties.len() > 0 {
        add_marked(
            file,
            tree,
            p.span,
            &p.spread_properties,
            component,
            "spreadSource",
            None,
            query,
            Ghost(q),
            out,
        );
        return;
    }
    if let Some(text) = &p.expression_text {
        let name = get_spread_name(text.as_str());
        if let Some(names) = find_spread_names(index, file, name.as_str(), query, Ghost(q)) {
            add_marked(
                file,
                tree,
                p.span,
                names,
                component,
                "spreadSource",
                None,
                query,
                Ghost(q),
                out,
            );
        }
    }
}

fn get_prop_value(p: &JsxProp) -> (r: Option<&str>)
    ensures
        match r {
            Some(v) => prop_value(*p) == Some(v@),
            None => prop_value(*p) is None,
        },
{
    match &p.string_value {
        Some(s) => Some(s.as_str()),
        None => match &p.expression_text {
            Some(t) => Some(t.as_str()),
            None => None,
        },
    }
}

fn add_prop(
    index: &ProjectIndex,
    file: &IndexedFile,
    tree: &Option<Json>,
    component: &str,
    p: &JsxProp,
    query: &Query<'_>,
    Ghost(q): Ghost<QueryV>,
    out: &mut Vec<Incident>,
)
    requires
        query.is_for_props(q),
        tree_for(*tree, *file, q),
    ensures
        incident_models(final(out)@) == incident_models(old(out)@) + prop_hits(
            *index,
            *file,
            component@,
            *p,
            q,
        ),
{
    let ghost before = incident_models(out@);
    assert(before + Seq::<IncidentV>::empty() =~= before);
    if p.is_spread {
        check_spread_prop(index, file, tree, component, p, query, Ghost(q), out);
        return;
    }
    if !query.pattern.is_match(p.name.as_str()) {
        add_marked(
            file,
            tree,
            p.span,
            &p.nested_object_keys,
            component,
            "nestedObjectKey",
            Some(component),
            query,
            Ghost(q),
            out,
        );
        return;
    }
    let value = get_prop_value(p);
    let shown = match value {
        Some(v) => v,
        None => "",
    };
    if !check_passes(&query.value, shown) {
        return;
    }
    let mut incident = make_incident_from_span(file, p.span);
    incident.set_text("propName", p.name.as_str());
    incident.set_text("componentName", component);
    if let Some(v) = value {
        incident.set_text("propValue", v);
    }
    set_module(&mut incident, "module", file, component);
    push_incident(out, incident);
    assert(incident_models(out@) =~= before + prop_hits(*index, *file, component@, *p, q));
}

fn add_props(
    index: &ProjectIndex,
    file: &IndexedFile,
    tree: &Option<Json>,
    r: &SymbolRef,
    query: &Query<'_>,
    Ghost(q): Ghost<QueryV>,
    out: &mut Vec<Incident>,
)
    requires
        query.is_for_props(q),
        tree_for(*tree, *file, q),
    ensures
        incident_models(final(out)@) == incident_models(old(out)@) + props_hits(
            *index,
            *file,
            *r,
            r.jsx_props@.len() as int,
            q,
        ),
{
    let ghost before = incident_models(out@);
    let mut i: usize = 0;
    assert(before + props_hits(*index, *file, *r, 0, q) =~= before);
    while i < r.jsx_props.len()
        invariant
            i <= r.jsx_props@.len(),
            query.is_for_props(q),
            tree_for(*tree, *file, q),
            incident_models(out@) == before + props_hits(*index, *file, *r, i as int, q),
        decreases r.jsx_props.len() - i,
    {
        add_prop(index, file, tree, r.name.as_str(), &r.jsx_props[i], query, Ghost(q), out);
        i = i + 1;
        assert(incident_models(out@) =~= before + props_hits(*index, *file, *r, i as int, q));
    }
}

fn check_element_from(
    file: &IndexedFile,
    name: &str,
    query: &Query<'_>,
    Ghost(q): Ghost<QueryV>,
) -> (r: bool)
    requires
        query.is_for(q),
    ensures
        r == element_from(*file, name@, q),
{
    match &query.from {
        Some(p) => {
            let first = get_first_part(name);
            import_matches_from(file, first.as_str(), p)
        },
        None => true,
    }
}

fn add_element_props(
    index: &ProjectIndex,
    file: &IndexedFile,
    tree: &Option<Json>,
    query: &Query<'_>,
    Ghost(q): Ghost<QueryV>,
    out: &mut Vec<Incident>,
)
    requires
        query.is_for_props(q),
        tree_for(*tree, *file, q),
    ensures
        incident_models(final(out)@) == incident_models(old(out)@) + element_prop_hits(
            *index,
            *file,
            file.symbol_refs@.len() as int,
            q,
        ),
{
    let ghost before = incident_models(out@);
    let mut i: usize = 0;
    assert(before + element_prop_hits(*index, *file, 0, q) =~= before);
    while i < file.symbol_refs.len()
        invariant
            i <= file.symbol_refs@.len(),
            query.is_for_props(q),
            tree_for(*tree, *file, q),
            incident_models(out@) == before + element_prop_hits(*index, *file, i as int, q),
        decreases file.symbol_refs.len() - i,
    {
        let r = &file.symbol_refs[i];
        if r.is_jsx_component {
            let named = match &query.component {
                Some(p) => component_matches(r.name.as_str(), p),
                None => true,
            };
            if named && check_element_from(file, r.name.as_str(), query, Ghost(q)) {
                add_props(index, file, tree, r, query, Ghost(q), out);
            }
        }
        i = i + 1;
        assert(incident_models(out@) =~= before + element_prop_hits(*index, *file, i as int, q));
    }
}

fn add_typed(
    file: &IndexedFile,
    tree: &Option<Json>,
    span: Span,
    names: &Vec<String>,
    type_text: Option<String>,
    query: &Query<'_>,
    Ghost(q): Ghost<QueryV>,
    out: &mut Vec<Incident>,
)
    requires
        query.is_for_props(q),
        tree_for(*tree, *file, q),
    ensures
        incident_models(final(out)@) == incident_models(old(out)@) + typed_hits(
            *file,
            span,
            names@,
            opt_view(type_text),
            q,
        ),
{
    let ghost before = incident_models(out@);
    assert(before + Seq::<IncidentV>::empty() =~= before);
    if let (Some(name), Some(p)) = (&type_text, &query.component) {
        if ends_with(name.as_str(), "Props") {
            let component = strip_props(name.as_str());
            if p.is_match(component.as_str()) {
                add_marked(
                    file,
                    tree,
                    span,
                    names,
                    component.as_str(),
                    "typedObjectLiteral",
                    Some(name.as_str()),
                    query,
                    Ghost(q),
                    out,
                );
            }
        }
    }
}

fn add_defs(
    file: &IndexedFile,
    tree: &Option<Json>,
    query: &Query<'_>,
    Ghost(q): Ghost<QueryV>,
    out: &mut Vec<Incident>,
)
    requires
        query.is_for_props(q),
        tree_for(*tree, *file, q),
    ensures
        incident_models(final(out)@) == incident_models(old(out)@) + def_hits(
            *file,
            file.symbol_defs@.len() as int,
            q,
        ),
{
    let ghost before = incident_models(out@);
    let mut i: usize = 0;
    assert(before + def_hits(*file, 0, q) =~= before);
    while i < file.symbol_defs.len()
        invariant
            i <= file.symbol_defs@.len(),
            query.is_for_props(q),
            tree_for(*tree, *file, q),
            incident_models(out@) == before + def_hits(*file, i as int, q),
        decreases file.symbol_defs.len() - i,
    {
        let d = &file.symbol_defs[i];
        let type_text = match &d.type_annotation {
            Some(ta) => extract_props_type_name(ta),
            None => None,
        };
        add_typed(file, tree, d.span, &d.object_properties, type_text, query, Ghost(q), out);
        i = i + 1;
        assert(incident_models(out@) =~= before + def_hits(*file, i as int, q));
    }
}

fn add_objects(
    file: &IndexedFile,
    tree: &Option<Json>,
    objects: &Vec<TypedObject>,
    query: &Query<'_>,
    Ghost(q): Ghost<QueryV>,
    out: &mut Vec<Incident>,
)
    requires
        query.is_for_props(q),
        tree_for(*tree, *file, q),
    ensures
        incident_models(final(out)@) == incident_models(old(out)@) + object_hits(
            *file,
            objects@,
            objects@.len() as int,
            q,
        ),
{
    let ghost before = incident_models(out@);
    let mut i: usize = 0;
    assert(before + object_hits(*file, objects@, 0, q) =~= before);
    while i < objects.len()
        invariant
            i <= objects@.len(),
            query.is_for_props(q),
            tree_for(*tree, *file, q),
            incident_models(out@) == before + object_hits(*file, objects@, i as int, q),
        decreases objects.len() - i,
    {
        let o = &objects[i];
        let type_text = extract_props_type_name_from_raw(o.type_name_text.as_str());
        add_typed(file, tree, o.span, &o.properties, type_text, query, Ghost(q), out);
        i = i + 1;
        assert(incident_models(out@) =~= before + object_hits(*file, objects@, i as int, q));
    }
}

fn add_local_objects(
    file: &IndexedFile,
    tree: &Option<Json>,
    query: &Query<'_>,
    Ghost(q): Ghost<QueryV>,
    out: &mut Vec<Incident>,
)
    requires
        query.is_for_props(q),
        tree_for(*tree, *file, q),
    ensures
        incident_models(final(out)@) == incident_models(old(out)@) + local_object_hits(
            *file,
            file.symbol_defs@.len() as int,
            q,
        ),
{
    let ghost before = incident_models(out@);
    let mut i: usize = 0;
    assert(before + local_object_hits(*file, 0, q) =~= before);
    while i < file.symbol_defs.len()
        invariant
            i <= file.symbol_defs@.len(),
            query.is_for_props(q),
            tree_for(*tree, *file, q),
            incident_models(out@) == before + local_object_hits(*file, i as int, q),
        decreases file.symbol_defs.len() - i,
    {
        add_objects(file, tree, &file.symbol_defs[i].typed_local_objects, query, Ghost(q), out);
        i = i + 1;
        assert(incident_models(out@) =~= before + local_object_hits(*file, i as int, q));
    }
}

/// The props whose name matches.
fn eval_jsx_prop(index: &ProjectIndex, query: &Query<'_>, Ghost(q): Ghost<QueryV>) -> (out: Vec<
    Incident,
>)
    requires
        query.is_for_props(q),
    ensures
        incident_models(out@) == all_prop_hits(
            *index,
            index.files(),
            index.files().len() as int,
            q,
        ),
{
    let files = index.list_files();
    let ghost all = index.files();
    let mut out: Vec<Incident> = Vec::new();
    assert(incident_models(out@) =~= all_prop_hits(*index, all, 0, q));
    let mut i: usize = 0;
    while i < files.len()
        invariant
            i <= files@.len(),
            all == file_models(files@),
            query.is_for_props(q),
            incident_models(out@) == all_prop_hits(*index, all, i as int, q),
        decreases files.len() - i,
    {
        assert(all[i as int] == *files@[i as int]);
        if query.wants(files[i], Ghost(q)) {
            let tree = if query.value.is_some() {
                parse_file(files[i])
            } else {
                None
            };
            add_element_props(index, files[i], &tree, query, Ghost(q), &mut out);
            add_defs(files[i], &tree, query, Ghost(q), &mut out);
            add_local_objects(files[i], &tree, query, Ghost(q), &mut out);
        }
        i = i + 1;
    }
    out
}

// ---- Components ----

/// The component that an element is rendered in: transparent wrappers are looked through, and an
/// element without a parent has that of the place where the function around it is called.
pub open spec fn rendered_in(index: ProjectIndex, file: IndexedFile, r: SymbolRef) -> Option<
    Seq<char>,
> {
    match effective_parent(index, file, opt_view(r.parent_component)) {
        Some(p) => Some(p),
        None => match r.enclosing_function_span {
            Some(span) => call_site_parent(index, file, span),
            None => None,
        },
    }
}

/// Whether an element meets the conditions on its parent. One that has none meets no condition
/// on its parent, whether the parent is to match or not.
pub open spec fn parent_fits(file: IndexedFile, parent: Option<Seq<char>>, q: QueryV) -> bool {
    &&& q.parent matches Some(p) ==> parent is Some && regex_accepts(p, parent->0)
    &&& q.not_parent matches Some(p) ==> parent is Some && !regex_accepts(p, parent->0)
    &&& q.parent_from matches Some(p) ==> parent is Some && imported_from(
        file.imports@,
        parent->0,
        p,
    )
}

/// Whether one of the first `n` names matches.
pub open spec fn any_child(names: Seq<Seq<char>>, n: int, pattern: Seq<char>) -> bool
    decreases n,
{
    if n <= 0 || n > names.len() {
        false
    } else {
        any_child(names, n - 1, pattern) || regex_accepts(pattern, names[n - 1])
    }
}

/// Whether an element meets the conditions that one of its children matches, or none does.
pub open spec fn children_fit(names: Seq<Seq<char>>, q: QueryV) -> bool {
    &&& q.child matches Some(p) ==> any_child(names, names.len() as int, p)
    &&& q.requires_child matches Some(p) ==> !any_child(names, names.len() as int, p)
}

/// The incidents for those of the first `n` children of an element that do not match.
pub open spec fn stranger_hits(
    file: IndexedFile,
    r: SymbolRef,
    names: Seq<Seq<char>>,
    n: int,
    pattern: Seq<char>,
) -> Seq<IncidentV>
    decreases n,
{
    if n <= 0 || n > names.len() {
        Seq::empty()
    } else {
        let before = stranger_hits(file, r, names, n - 1, pattern);
        if regex_accepts(pattern, names[n - 1]) {
            before
        } else {
            before.push(
                with_module(
                    span_incident(file, r.span).with_text("componentName"@, r.name@).with_text(
                        "childName"@,
                        names[n - 1],
                    ),
                    "module"@,
                    file,
                    r.name@,
                ),
            )
        }
    }
}

/// The incident for an element.
pub open spec fn element_incident(file: IndexedFile, r: SymbolRef, parent: Option<Seq<char>>) -> IncidentV {
    let base = span_incident(file, r.span).with_text("componentName"@, r.name@);
    match parent {
        Some(p) => with_module(
            with_module(base.with_text("parentName"@, p), "module"@, file, r.name@),
            "parentFrom"@,
            file,
            p,
        ),
        None => with_module(base, "module"@, file, r.name@),
    }
}

/// The incidents for an element.
pub open spec fn element_hits(index: ProjectIndex, file: IndexedFile, r: SymbolRef, q: QueryV) -> Seq<
    IncidentV,
> {
    let parent = rendered_in(index, file, r);
    let names = children_of(file, r);
    if !r.is_jsx_component || !matches_component(r.name@, q.pattern) || !element_from(
        file,
        r.name@,
        q,
    ) || !parent_fits(file, parent, q) || !children_fit(names, q) {
        Seq::empty()
    } else {
        match q.not_child {
            Some(p) => stranger_hits(file, r, names, names.len() as int, p),
            None => seq![element_incident(file, r, parent)],
        }
    }
}

/// The incidents for the first `n` elements of a file.
pub open spec fn component_hits(index: ProjectIndex, file: IndexedFile, n: int, q: QueryV) -> Seq<
    IncidentV,
>
    decreases n,
{
    if n <= 0 || n > file.symbol_refs@.len() {
        Seq::empty()
    } else {
        component_hits(index, file, n - 1, q) + element_hits(
            index,
            file,
            file.symbol_refs@[n - 1],
            q,
        )
    }
}

/// The incidents for the elements of the first `n` files.
pub open spec fn all_component_hits(
    index: ProjectIndex,
    files: Seq<IndexedFile>,
    n: int,
    q: QueryV,
) -> Seq<IncidentV>
    decreases n,
{
    if n <= 0 || n > files.len() {
        Seq::empty()
    } else {
        let f = files[n - 1];
        if wants_file(f.path@, q) {
            all_component_hits(index, files, n - 1, q) + component_hits(
                index,
                f,
                f.symbol_refs@.len() as int,
                q,
            )
        } else {
            all_component_hits(index, files, n - 1, q)
        }
    }
}

fn find_rendered_in(index: &ProjectIndex, file: &IndexedFile, r: &SymbolRef) -> (p: Option<String>)
    ensures
        opt_view(p) == rendered_in(*index, *file, *r),
{
    match resolve_effective_parent(index, file, &r.parent_component) {
        Some(p) => Some(p),
        None => match r.enclosing_function_span {
            Some(span) => resolve_fn_call_site_parent(index, file, span),
            None => None,
        },
    }
}

fn check_parent(
    file: &IndexedFile,
    parent: &Option<String>,
    query: &Query<'_>,
    Ghost(q): Ghost<QueryV>,
) -> (r: bool)
    requires
        query.is_for_components(q),
    ensures
        r == parent_fits(*file, opt_view(*parent), q),
{
    if let Some(p) = &query.parent {
        match parent {
            Some(name) => if !p.is_match(name.as_str()) {
                return false;
            },
            None => return false,
        }
    }
    if let Some(p) = &query.not_parent {
        match parent {
            Some(name) => if p.is_match(name.as_str()) {
                return false;
            },
            None => return false,
        }
    }
    if let Some(p) = &query.parent_from {
        match parent {
            Some(name) => if !import_matches_from(file, name.as_str(), p) {
                return false;
            },
            None => return false,
        }
    }
    true
}

/// The names that are referred to.
spec fn name_models(s: Seq<&str>) -> Seq<Seq<char>> {
    s.map_values(|n: &str| n@)
}

fn check_any_child(names: &Vec<&str>, pattern: &regex::Regex) -> (r: bool)
    ensures
        r == any_child(name_models(names@), names@.len() as int, regex_source(*pattern)),
{
    let ghost all = name_models(names@);
    let ghost p = regex_source(*pattern);
    let mut found = false;
    let mut i: usize = 0;
    while i < names.len()
        invariant
            i <= names@.len(),
            all == name_models(names@),
            p == regex_source(*pattern),
            found == any_child(all, i as int, p),
        decreases names.len() - i,
    {
        assert(all[i as int] == names@[i as int]@);
        if pattern.is_match(names[i]) {
            found = true;
        }
        i = i + 1;
    }
    found
}

fn check_children(names: &Vec<&str>, query: &Query<'_>, Ghost(q): Ghost<QueryV>) -> (r: bool)
    requires
        query.is_for_components(q),
    ensures
        r == children_fit(name_models(names@), q),
{
    if let Some(p) = &query.child {
        if !check_any_child(names, p) {
            return false;
        }
    }
    if let Some(p) = &query.requires_child {
        if check_any_child(names, p) {
            return false;
        }
    }
    true
}

fn add_strangers(
    file: &IndexedFile,
    r: &SymbolRef,
    names: &Vec<&str>,
    pattern: &regex::Regex,
    out: &mut Vec<Incident>,
)
    ensures
        incident_models(final(out)@) == incident_models(old(out)@) + stranger_hits(
            *file,
            *r,
            name_models(names@),
            names@.len() as int,
            regex_source(*pattern),
        ),
{
    let ghost all = name_models(names@);
    let ghost p = regex_source(*pattern);
    let ghost before = incident_models(out@);
    let mut i: usize = 0;
    assert(before + stranger_hits(*file, *r, all, 0, p) =~= before);
    while i < names.len()
        invariant
            i <= names@.len(),
            all == name_models(names@),
            p == regex_source(*pattern),
            incident_models(out@) == before + stranger_hits(*file, *r, all, i as int, p),
        decreases names.len() - i,
    {
        assert(all[i as int] == names@[i as int]@);
        if !pattern.is_match(names[i]) {
            let mut incident = make_incident_from_span(file, r.span);
            incident.set_text("componentName", r.name.as_str());
            incident.set_text("childName", names[i]);
            set_module(&mut incident, "module", file, r.name.as_str());
            push_incident(out, incident);
        }
        i = i + 1;
        assert(incident_models(out@) =~= before + stranger_hits(*file, *r, all, i as int, p));
    }
}

fn add_element(
    index: &ProjectIndex,
    file: &IndexedFile,
    r: &SymbolRef,
    query: &Query<'_>,
    Ghost(q): Ghost<QueryV>,
    out: &mut Vec<Incident>,
)
    requires
        query.is_for_components(q),
    ensures
        incident_models(final(out)@) == incident_models(old(out)@) + element_hits(
            *index,
            *file,
            *r,
            q,
        ),
{
    let ghost before = incident_models(out@);
    assert(before + Seq::<IncidentV>::empty() =~= before);
    if !r.is_jsx_component || !component_matches(r.name.as_str(), query.pattern)
        || !check_element_from(file, r.name.as_str(), query, Ghost(q)) {
        return;
    }
    let parent = find_rendered_in(index, file, r);
    if !check_parent(file, &parent, query, Ghost(q)) {
        return;
    }
    let names = find_jsx_children(file, r);
    assert(name_models(names@) =~= children_of(*file, *r));
    if !check_children(&names, query, Ghost(q)) {
        return;
    }
    if let Some(p) = &query.not_child {
        add_strangers(file, r, &names, p, out);
        return;
    }
    let mut incident = make_incident_from_span(file, r.span);
    incident.set_text("componentName", r.name.as_str());
    if let Some(p) = &parent {
        incident.set_text("parentName", p.as_str());
    }
    set_module(&mut incident, "module", file, r.name.as_str());
    if let Some(p) = &parent {
        set_module(&mut incident, "parentFrom", file, p.as_str());
    }
    push_incident(out, incident);
    assert(incident_models(out@) =~= before + element_hits(*index, *file, *r, q));
}

fn add_elements(
    index: &ProjectIndex,
    file: &IndexedFile,
    query: &Query<'_>,
    Ghost(q): Ghost<QueryV>,
    out: &mut Vec<Incident>,
)
    requires
        query.is_for_components(q),
    ensures
        incident_models(final(out)@) == incident_models(old(out)@) + component_hits(
            *index,
            *file,
            file.symbol_refs@.len() as int,
            q,
        ),
{
    let ghost before = incident_models(out@);
    let mut i: usize = 0;
    assert(before + component_hits(*index, *file, 0, q) =~= before);
    while i < file.symbol_refs.len()
        invariant
            i <= file.symbol_refs@.len(),
            query.is_for_components(q),
            incident_models(out@) == before + component_hits(*index, *file, i as int, q),
        decreases file.symbol_refs.len() - i,
    {
        add_element(index, file, &file.symbol_refs[i], query, Ghost(q), out);
        i = i + 1;
        assert(incident_models(out@) =~= before + component_hits(*index, *file, i as int, q));
    }
}

/// The elements whose component name matches.
fn eval_jsx_component(index: &ProjectIndex, query: &Query<'_>, Ghost(q): Ghost<QueryV>) -> (out:
    Vec<Incident>)
    requires
        query.is_for_components(q),
    ensures
        incident_models(out@) == all_component_hits(
            *index,
            index.files(),
            index.files().len() as int,
            q,
        ),
{
    let files = index.list_files();
    let ghost all = index.files();
    let mut out: Vec<Incident> = Vec::new();
    assert(incident_models(out@) =~= all_component_hits(*index, all, 0, q));
    let mut i: usize = 0;
    while i < files.len()
        invariant
            i <= files@.len(),
            all == file_models(files@),
            query.is_for_components(q),
            incident_models(out@) == all_component_hits(*index, all, i as int, q),
        decreases files.len() - i,
    {
        assert(all[i as int] == *files@[i as int]);
        if query.wants(files[i], Ghost(q)) {
            add_elements(index, files[i], query, Ghost(q), &mut out);
        }
        i = i + 1;
    }
    out
}

// ---- Types and calls ----

/// Whether a reference stands in the position that is asked for: in a type, or, for calls, neither
/// in a type nor as a JSX component.
pub open spec fn in_position(r: SymbolRef, types: bool) -> bool {
    if types {
        r.is_type_position
    } else {
        !r.is_jsx_component && !r.is_type_position
    }
}

/// The incident for a reference. That of a call has the first argument, where it is known.
pub open spec fn ref_incident(file: IndexedFile, r: SymbolRef, types: bool) -> IncidentV {
    let base = with_module(
        span_incident(file, r.span).with_text("matchingText"@, r.name@),
        "module"@,
        file,
        r.name@,
    );
    match r.call_arg_value {
        Some(v) if !types => base.with_text("callArgValue"@, v@),
        _ => base,
    }
}

/// Whether a reference is asked for.
pub open spec fn wants_ref(file: IndexedFile, r: SymbolRef, types: bool, q: QueryV) -> bool {
    in_position(r, types) && regex_accepts(q.pattern, r.name@) && (q.from matches Some(p)
        ==> imported_from(file.imports@, r.name@, p))
}

/// The incidents for the first `n` references of a file.
pub open spec fn ref_hits(file: IndexedFile, n: int, types: bool, q: QueryV) -> Seq<IncidentV>
    decreases n,
{
    if n <= 0 || n > file.symbol_refs@.len() {
        Seq::empty()
    } else if wants_ref(file, file.symbol_refs@[n - 1], types, q) {
        ref_hits(file, n - 1, types, q).push(ref_incident(file, file.symbol_refs@[n - 1], types))
    } else {
        ref_hits(file, n - 1, types, q)
    }
}

/// The incidents for the references of the first `n` files.
pub open spec fn all_ref_hits(files: Seq<IndexedFile>, n: int, types: bool, q: QueryV) -> Seq<
    IncidentV,
>
    decreases n,
{
    if n <= 0 || n > files.len() {
        Seq::empty()
    } else {
        let f = files[n - 1];
        if wants_file(f.path@, q) {
            all_ref_hits(files, n - 1, types, q) + ref_hits(
                f,
                f.symbol_refs@.len() as int,
                types,
                q,
            )
        } else {
            all_ref_hits(files, n - 1, types, q)
        }
    }
}

fn check_ref(
    file: &IndexedFile,
    r: &SymbolRef,
    types: bool,
    query: &Query<'_>,
    Ghost(q): Ghost<QueryV>,
) -> (b: bool)
    requires
        query.is_for(q),
    ensures
        b == wants_ref(*file, *r, types, q),
{
    let placed = if types {
        r.is_type_position
    } else {
        !r.is_jsx_component && !r.is_type_position
    };
    placed && query.pattern.is_match(r.name.as_str()) && (match &query.from {
        Some(p) => import_matches_from(file, r.name.as_str(), p),
        None => true,
    })
}

fn add_refs(
    file: &IndexedFile,
    types: bool,
    query: &Query<'_>,
    Ghost(q): Ghost<QueryV>,
    out: &mut Vec<Incident>,
)
    requires
        query.is_for(q),
    ensures
        incident_models(final(out)@) == incident_models(old(out)@) + ref_hits(
            *file,
            file.symbol_refs@.len() as int,
            types,
            q,
        ),
{
    let ghost before = incident_models(out@);
    let mut i: usize = 0;
    assert(before + ref_hits(*file, 0, types, q) =~= before);
    while i < file.symbol_refs.len()
        invariant
            i <= file.symbol_refs@.len(),
            query.is_for(q),
            incident_models(out@) == before + ref_hits(*file, i as int, types, q),
        decreases file.symbol_refs.len() - i,
    {
        let r = &file.symbol_refs[i];
        if check_ref(file, r, types, query, Ghost(q)) {
            let mut incident = make_incident_from_span(file, r.span);
            incident.set_text("matchingText", r.name.as_str());
            set_module(&mut incident, "module", file, r.name.as_str());
            if !types {
                if let Some(v) = &r.call_arg_value {
                    incident.set_text("callArgValue", v.as_str());
                }
            }
            push_incident(out, incident);
        }
        i = i + 1;
        assert(incident_models(out@) =~= before + ref_hits(*file, i as int, types, q));
    }
}

/// The references in types, or those that are calls, whose name matches.
fn eval_refs(index: &ProjectIndex, types: bool, query: &Query<'_>, Ghost(q): Ghost<QueryV>) -> (out:
    Vec<Incident>)
    requires
        query.is_for(q),
    ensures
        incident_models(out@) == all_ref_hits(
            index.files(),
            index.files().len() as int,
            types,
            q,
        ),
{
    let files = index.list_files();
    let ghost all = index.files();
    let mut out: Vec<Incident> = Vec::new();
    assert(incident_models(out@) =~= all_ref_hits(all, 0, types, q));
    let mut i: usize = 0;
    while i < files.len()
        invariant
            i <= files@.len(),
            all == file_models(files@),
            query.is_for(q),
            incident_models(out@) == all_ref_hits(all, i as int, types, q),
        decreases files.len() - i,
    {
        assert(all[i as int] == *files@[i as int]);
        if query.wants(files[i], Ghost(q)) {
            add_refs(files[i], types, query, Ghost(q), &mut out);
        }
        i = i + 1;
    }
    out
}

// ---- All of them ----

/// Whether components are looked for.
pub open spec fn wants_components(location: Option<ReferenceLocation>) -> bool {
    location is None || location == Some(ReferenceLocation::JsxComponent)
}

/// Whether props are looked for.
pub open spec fn wants_props(location: Option<ReferenceLocation>) -> bool {
    location is None || location == Some(ReferenceLocation::JsxProp)
}

/// Whether the patterns that a condition needs are regular expressions.
pub open spec fn patterns_valid(location: Option<ReferenceLocation>, q: QueryV) -> bool {
    &&& opt_valid(q.file_pattern)
    &&& regex_valid(q.pattern)
    &&& opt_valid(q.from)
    &&& wants_props(location) ==> opt_valid(q.component) && opt_valid(q.value)
    &&& wants_components(location) ==> opt_valid(q.parent) && opt_valid(q.not_parent) && opt_valid(
        q.parent_from,
    ) && opt_valid(q.child) && opt_valid(q.not_child) && opt_valid(q.requires_child)
}

/// The incidents that a condition finds in an index: those at its location, or, without one, those
/// at all of them in turn.
pub open spec fn query_hits(
    index: ProjectIndex,
    location: Option<ReferenceLocation>,
    q: QueryV,
) -> Seq<IncidentV> {
    let files = index.files();
    let n = files.len() as int;
    match location {
        Some(ReferenceLocation::Import) => all_import_hits(files, n, q),
        Some(ReferenceLocation::JsxComponent) => all_component_hits(index, files, n, q),
        Some(ReferenceLocation::JsxProp) => all_prop_hits(index, files, n, q),
        Some(ReferenceLocation::TypeReference) => all_ref_hits(files, n, true, q),
        Some(ReferenceLocation::FunctionCall) => all_ref_hits(files, n, false, q),
        None => all_import_hits(files, n, q) + all_component_hits(index, files, n, q)
            + all_prop_hits(index, files, n, q) + all_ref_hits(files, n, true, q) + all_ref_hits(
            files,
            n,
            false,
            q,
        ),
    }
}

/// A pattern that is compiled only where it is needed.
fn compile_if(needed: bool, pattern: &Option<String>) -> (r: Result<
    Option<regex::Regex>,
    regex::Error,
>)
    ensures
        match r {
            Ok(re) => needed ==> opt_valid(opt_view(*pattern)) && opt_source(re) == opt_view(
                *pattern,
            ),
            Err(_) => needed && !opt_valid(opt_view(*pattern)),
        },
{
    if needed {
        compile_opt(pattern)
    } else {
        Ok(None)
    }
}

fn eval_any(
    index: &ProjectIndex,
    location: Option<ReferenceLocation>,
    query: &Query<'_>,
    Ghost(q): Ghost<QueryV>,
) -> (out: Vec<Incident>)
    requires
        query.is_for(q),
        wants_props(location) ==> query.is_for_props(q),
        wants_components(location) ==> query.is_for_components(q),
    ensures
        incident_models(out@) == query_hits(*index, location, q),
{
    match location {
        Some(ReferenceLocation::Import) => eval_import(index, query, Ghost(q)),
        Some(ReferenceLocation::JsxComponent) => eval_jsx_component(index, query, Ghost(q)),
        Some(ReferenceLocation::JsxProp) => eval_jsx_prop(index, query, Ghost(q)),
        Some(ReferenceLocation::TypeReference) => eval_refs(index, true, query, Ghost(q)),
        Some(ReferenceLocation::FunctionCall) => eval_refs(index, false, query, Ghost(q)),
        None => {
            let mut all = eval_import(index, query, Ghost(q));
            let mut components = eval_jsx_component(index, query, Ghost(q));
            let mut props = eval_jsx_prop(index, query, Ghost(q));
            let mut types = eval_refs(index, true, query, Ghost(q));
            let mut calls = eval_refs(index, false, query, Ghost(q));
            append_incidents(&mut all, &mut components);
            append_incidents(&mut all, &mut props);
            append_incidents(&mut all, &mut types);
            append_incidents(&mut all, &mut calls);
            all
        },
    }
}

/// Evaluate a condition on references against the index and return incidents.
///
/// Without a location all kinds of references count. An error means that one of the patterns that
/// the location needs is no regular expression.
pub fn evaluate_referenced(condition: &ReferencedCondition, index: &ProjectIndex, root: &str) -> (r:
    Result<Vec<Incident>, regex::Error>)
    ensures
        ({
            let q = query_of(*condition, root@);
            match r {
                Ok(v) => patterns_valid(condition.location, q) && incident_models(v@) == query_hits(
                    *index,
                    condition.location,
                    q,
                ),
                Err(_) => !patterns_valid(condition.location, q),
            }
        }),
{
    let ghost q = query_of(*condition, root@);
    let file_pattern = match compile_opt(&condition.file_pattern) {
        Ok(re) => re,
        Err(e) => return Err(e),
    };
    let pattern = match regex::Regex::new(condition.pattern.as_str()) {
        Ok(re) => re,
        Err(e) => return Err(e),
    };
    let (props, components) = match condition.location {
        None => (true, true),
        Some(ReferenceLocation::JsxProp) => (true, false),
        Some(ReferenceLocation::JsxComponent) => (false, true),
        _ => (false, false),
    };
    let component = match compile_if(props, &condition.component) {
        Ok(re) => re,
        Err(e) => return Err(e),
    };
    let value = match compile_if(props, &condition.value) {
        Ok(re) => re,
        Err(e) => return Err(e),
    };
    let parent = match compile_if(components, &condition.parent) {
        Ok(re) => re,
        Err(e) => return Err(e),
    };
    let not_parent = match compile_if(components, &condition.not_parent) {
        Ok(re) => re,
        Err(e) => return Err(e),
    };
    let from = match compile_opt(&condition.from) {
        Ok(re) => re,
        Err(e) => return Err(e),
    };
    let parent_from = match compile_if(components, &condition.parent_from) {
        Ok(re) => re,
        Err(e) => return Err(e),
    };
    let child = match compile_if(components, &condition.child) {
        Ok(re) => re,
        Err(e) => return Err(e),
    };
    let not_child = match compile_if(components, &condition.not_child) {
        Ok(re) => re,
        Err(e) => return Err(e),
    };
    let requires_child = match compile_if(components, &condition.requires_child) {
        Ok(re) => re,
        Err(e) => return Err(e),
    };
    let query = Query {
        root,
        pattern: &pattern,
        file_pattern: &file_pattern,
        from,
        component,
        value,
        parent,
        not_parent,
        parent_from,
        child,
        not_child,
        requires_child,
    };
    Ok(eval_any(index, condition.location, &query, Ghost(q)))
}

/// Without a location a condition finds what it finds at each of the locations, one after the
/// other.
pub proof fn law_no_location_is_all(index: ProjectIndex, q: QueryV)
    ensures
        query_hits(index, None, q) == query_hits(index, Some(ReferenceLocation::Import), q)
            + query_hits(index, Some(ReferenceLocation::JsxComponent), q) + query_hits(
            index,
            Some(ReferenceLocation::JsxProp),
            q,
        ) + query_hits(index, Some(ReferenceLocation::TypeReference), q) + query_hits(
            index,
            Some(ReferenceLocation::FunctionCall),
            q,
        ),
{
}

/// An element without a parent is reported under no condition on its parent.
pub proof fn law_no_parent_no_hit(
    index: ProjectIndex,
    file: IndexedFile,
    r: SymbolRef,
    q: QueryV,
)
    requires
        rendered_in(index, file, r) is None,
        q.parent is Some || q.not_parent is Some || q.parent_from is Some,
    ensures
        element_hits(index, file, r, q) == Seq::<IncidentV>::empty(),
{
}

/// No element is reported both with a condition that its parent matches and with the condition
/// that it does not.
pub proof fn law_parent_or_not(
    index: ProjectIndex,
    file: IndexedFile,
    r: SymbolRef,
    q: QueryV,
    pattern: Seq<char>,
)
    ensures
        element_hits(index, file, r, (QueryV { parent: Some(pattern), ..q })).len() == 0
            || element_hits(index, file, r, (QueryV { not_parent: Some(pattern), ..q })).len() == 0,
{
}

} // verus!
