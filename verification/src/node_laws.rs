//! How single nodes, names, paths and lines are read.

use crate::capabilities::{capability_named, Capability};
use crate::code_snip::{numbered, numbered_lines, snip, snip_start};
use crate::edit_laws::law_parts_lack_separator;
use crate::element_laws::has_key;
use crate::estree::{
    child, children, flag, identifier, is_class_declaration, is_computed_member, is_directive,
    is_function_declaration, is_static_member, number_field, quasi_end, quasi_start, raw_quasi,
    string_literal, text_field, type_is,
};
use crate::function_calls::callee_name;
use crate::incident::IncidentV;
use crate::json::{field, json_size, lookup, JsonV};
use crate::jsx_children::element_name;
use crate::jsx_context::{
    annotation, component_type, declarator_parent, function_parent, is_hook, is_utility_type,
    first_props, props_name, props_type, reference_name, typed_object_hits, typed_prop, typed_props,
    JsxV, COMPONENT_RETURN_SENTINEL, HOOK_RETURN_SENTINEL,
};
use crate::lookup::named;
use crate::object_props::{key_name, key_prop, PropV};
use crate::pattern::regex_accepts;
use crate::plan_laws::lemma_pushed;
use crate::project_index::Span;
use crate::property_values::{given_value, own_value, value_text};
use crate::reference_laws::says;
use crate::spans::text_within;
use crate::text::{
    contains, decimal, extension_of, file_name_of, has_at, joined, last_index, lemma_split_len,
    lines_of, split, trimmed,
};
use crate::type_names::lemma_type_names;
use vstd::prelude::*;

verus! {

// ---- Nodes ----

/// Of the entries of an object under a key the first counts.
pub proof fn law_first_entry(s: Seq<(Seq<char>, JsonV)>, key: Seq<char>, k: int)
    requires
        0 <= k < s.len(),
        s[k].0 == key,
        forall|j: int| 0 <= j < k ==> (#[trigger] s[j]).0 != key,
    ensures
        lookup(s, key) == Some(s[k].1),
        field(JsonV::Object(s), key) == Some(s[k].1),
    decreases s.len(),
{
    if k > 0 {
        assert(s[0].0 != key);
        let tail = s.skip(1);
        assert(tail[k - 1] == s[k]);
        assert forall|j: int| 0 <= j < k - 1 implies (#[trigger] tail[j]).0 != key by {
            assert(tail[j] == s[j + 1]);
        }
        law_first_entry(tail, key, k - 1);
    }
}

/// An identifier has a name, and a literal may be a string; nothing else is either.
pub proof fn law_names_and_strings(v: JsonV, s: Seq<char>)
    ensures
        identifier(v) == Some(s) <==> field(v, "type"@) == Some(JsonV::Text("Identifier"@))
            && field(v, "name"@) == Some(JsonV::Text(s)),
        string_literal(v) == Some(s) <==> field(v, "type"@) == Some(JsonV::Text("Literal"@))
            && field(v, "value"@) == Some(JsonV::Text(s)),
{
}

/// What counts as a declaration of a function or of a class, and as a directive.
pub proof fn law_declarations(v: JsonV)
    ensures
        is_function_declaration(v) <==> type_is(v, "FunctionDeclaration"@) || type_is(
            v,
            "TSDeclareFunction"@,
        ),
        is_class_declaration(v) <==> type_is(v, "ClassDeclaration"@),
        is_directive(v) <==> type_is(v, "ExpressionStatement"@) && text_field(
            v,
            "directive"@,
        ) is Some,
{
}

/// A member is read by a plain name or by a computed one, never both; a private name is neither.
pub proof fn law_members(v: JsonV)
    ensures
        is_static_member(v) ==> type_is(v, "MemberExpression"@) && !is_computed_member(v),
        is_computed_member(v) <==> type_is(v, "MemberExpression"@) && flag(v, "computed"@),
        type_is(v, "MemberExpression"@) && !is_computed_member(v) && !is_static_member(v)
            ==> type_is(child(v, "property"@), "PrivateIdentifier"@),
        type_is(child(v, "property"@), "PrivateIdentifier"@) ==> !is_static_member(v),
{
}

/// The text of a template element leaves out the character before it, and what follows it: one
/// character at the end of the template, two before an expression.
pub proof fn law_quasi(v: JsonV)
    requires
        number_field(v, "start"@) < u32::MAX,
        number_field(v, "end"@) >= 2,
    ensures
        quasi_start(v) == number_field(v, "start"@) + 1,
        flag(v, "tail"@) ==> quasi_end(v) == number_field(v, "end"@) - 1,
        !flag(v, "tail"@) ==> quasi_end(v) == number_field(v, "end"@) - 2,
        raw_quasi(v) == text_field(child(v, "value"@), "raw"@),
{
}

/// The name of what is called: that of an identifier, or that of an object and a property of it
/// with a dot between them.
pub proof fn law_callee(v: JsonV)
    ensures
        identifier(v) is Some ==> callee_name(v) == identifier(v),
        is_static_member(v) && field(v, "object"@) is Some && callee_name(child(v, "object"@)) is Some
            && text_field(child(v, "property"@), "name"@) is Some ==> callee_name(v) == Some(
            callee_name(child(v, "object"@))->0 + seq!['.'] + text_field(
                child(v, "property"@),
                "name"@,
            )->0,
        ),
        !type_is(v, "Identifier"@) && !is_static_member(v) ==> callee_name(v) is None,
{
    reveal_strlit(".");
    assert("."@ =~= seq!['.']);
    reveal_strlit("Identifier");
    reveal_strlit("MemberExpression");
    assert("Identifier"@.len() == 10);
    assert("MemberExpression"@.len() == 16);
}

/// The name of an element: a plain one, one of a namespace, or one of a member.
pub proof fn law_element_name(v: JsonV, a: Seq<char>, b: Seq<char>)
    ensures
        type_is(v, "JSXIdentifier"@) && text_field(v, "name"@) == Some(a) ==> element_name(v) == a,
        type_is(v, "JSXNamespacedName"@) && text_field(child(v, "namespace"@), "name"@) == Some(a)
            && text_field(child(v, "name"@), "name"@) == Some(b) ==> element_name(v) == a
            + seq![':'] + b,
        type_is(v, "JSXMemberExpression"@) && field(v, "object"@) is Some && text_field(
            child(v, "property"@),
            "name"@,
        ) == Some(b) ==> element_name(v) == element_name(child(v, "object"@)) + seq!['.'] + b,
{
    reveal_strlit(".");
    reveal_strlit(":");
    assert("."@ =~= seq!['.']);
    assert(":"@ =~= seq![':']);
    reveal_strlit("JSXIdentifier");
    reveal_strlit("JSXNamespacedName");
    reveal_strlit("JSXMemberExpression");
    assert("JSXIdentifier"@.len() == 13);
    assert("JSXNamespacedName"@.len() == 17);
    assert("JSXMemberExpression"@.len() == 19);
}

// ---- Values of properties ----

/// Of the properties of an object with a name the last gives the value.
pub proof fn law_last_property(properties: Seq<JsonV>, n: int, name: Seq<char>, k: int)
    requires
        0 <= k < n <= properties.len(),
        key_name(properties[k]) == Some(name),
        forall|j: int| k < j < n ==> key_name(#[trigger] properties[j]) != Some(name),
    ensures
        given_value(properties, n, name) == field(properties[k], "value"@),
    decreases n,
{
    if k < n - 1 {
        assert(key_name(properties[n - 1]) != Some(name));
        law_last_property(properties, n - 1, name, k);
    }
}

/// Only an object within the span gives a value.
pub proof fn law_object_within(v: JsonV, span: Span, name: Seq<char>)
    ensures
        own_value(v, span, name) is Some ==> type_is(v, "ObjectExpression"@) && span.start
            <= number_field(v, "start"@) && number_field(v, "end"@) <= span.end,
{
}

/// The text of a value is the string that it is, or else its source.
pub proof fn law_value_text(v: JsonV, source: Seq<char>, s: Seq<char>)
    ensures
        string_literal(v) == Some(s) ==> value_text(v, source) == s,
        string_literal(v) is None ==> value_text(v, source) == text_within(
            source,
            number_field(v, "start"@) as int,
            number_field(v, "end"@) as int,
        ),
{
}

// ---- Components and hooks ----

/// A hook is named `use` and an upper-case letter behind it.
pub proof fn law_hook(rest: Seq<char>)
    ensures
        is_hook(seq!['u', 's', 'e'] + rest) <==> rest.len() > 0 && 'A' <= rest[0] <= 'Z',
{
    let name = seq!['u', 's', 'e'] + rest;
    if rest.len() > 0 {
        assert(name[3] == rest[0]);
    }
}

/// Whatever does not begin with `use` is no hook.
pub proof fn law_no_hook(name: Seq<char>)
    requires
        name.len() < 3 || name.take(3) != seq!['u', 's', 'e'],
    ensures
        !is_hook(name),
{
    if is_hook(name) {
        assert(name.take(3) =~= seq!['u', 's', 'e']);
    }
}

/// The types of React components.
pub proof fn law_component_types(v: JsonV, source: Seq<char>)
    ensures
        component_type(v, source) <==> type_is(v, "TSTypeReference"@) && (reference_name(v, source)
            == "React.FC"@ || reference_name(v, source) == "React.FunctionComponent"@
            || reference_name(v, source) == "React.ComponentType"@ || reference_name(v, source)
            == "FC"@ || reference_name(v, source) == "FunctionComponent"@),
{
}

/// What a variable is initialised with is rendered where the component is used, if the variable is
/// typed as one; where the hook is called, if it is named like one; and else where it stands.
pub proof fn law_declared_parent(
    d: JsonV,
    source: Seq<char>,
    parent: Option<Seq<char>>,
    name: Seq<char>,
)
    requires
        identifier(child(d, "id"@)) == Some(name),
    ensures
        component_type(annotation(d), source) ==> declarator_parent(d, source, parent) == Some(
            COMPONENT_RETURN_SENTINEL@,
        ),
        !component_type(annotation(d), source) && is_hook(name) ==> declarator_parent(
            d,
            source,
            parent,
        ) == Some(HOOK_RETURN_SENTINEL@),
        !component_type(annotation(d), source) && !is_hook(name) ==> declarator_parent(
            d,
            source,
            parent,
        ) == parent,
        is_hook(name) ==> function_parent(d, parent) == Some(HOOK_RETURN_SENTINEL@),
        !is_hook(name) ==> function_parent(d, parent) == parent,
{
}

// ---- Objects with a props type ----

/// An imported name that ends in `Props`, with something before that, stands for a component and
/// its module.
pub proof fn law_props_name(
    component: Seq<char>,
    imports: Seq<(Seq<char>, Seq<char>)>,
    module: Seq<char>,
)
    requires
        component.len() > 0,
        named(imports, component + "Props"@) == Some(module),
    ensures
        props_name(component + "Props"@, imports) == Some((component, module)),
{
    reveal_strlit("Props");
    let name = component + "Props"@;
    assert(name.subrange(name.len() - 5, name.len() as int) =~= "Props"@);
    assert(name.take(name.len() - 5) =~= component);
}

/// A name that is not imported stands for nothing.
pub proof fn law_no_props_name(name: Seq<char>, imports: Seq<(Seq<char>, Seq<char>)>)
    requires
        named(imports, name) is None || !"Props"@.is_suffix_of(name),
    ensures
        props_name(name, imports) is None,
{
}

/// A type stands for what its name does, or, if it is a utility type, for what its first argument
/// does.
pub proof fn law_props_type(
    v: JsonV,
    source: Seq<char>,
    imports: Seq<(Seq<char>, Seq<char>)>,
)
    requires
        type_is(v, "TSTypeReference"@),
    ensures
        props_name(reference_name(v, source), imports) is Some ==> props_type(v, source, imports)
            == props_name(reference_name(v, source), imports),
        props_name(reference_name(v, source), imports) is None && is_utility_type(
            reference_name(v, source),
        ) && children(child(v, "typeArguments"@), "params"@).len() > 0 ==> props_type(
            v,
            source,
            imports,
        ) == props_type(
            children(child(v, "typeArguments"@), "params"@)[0],
            source,
            imports,
        ),
        is_utility_type(reference_name(v, source)) <==> reference_name(v, source) == "Partial"@
            || reference_name(v, source) == "Required"@ || reference_name(v, source) == "Readonly"@
            || reference_name(v, source) == "Pick"@ || reference_name(v, source) == "Omit"@,
{
    lemma_type_names();
}

/// An intersection stands for what the first of its types does that stands for anything.
pub proof fn law_props_intersection(
    v: JsonV,
    list: Seq<JsonV>,
    from: int,
    source: Seq<char>,
    imports: Seq<(Seq<char>, Seq<char>)>,
    k: int,
)
    requires
        0 <= from <= k < list.len(),
        forall|j: int|
            from <= j <= k ==> json_size(#[trigger] list[j]) < json_size(
                v,
            ),
        props_type(list[k], source, imports) is Some,
        forall|j: int| from <= j < k ==> props_type(#[trigger] list[j], source, imports) is None,
    ensures
        first_props(v, list, from, source, imports) == props_type(list[k], source, imports),
    decreases k - from,
{
    assert(json_size(list[from]) < json_size(v));
    if from < k {
        assert(props_type(list[from], source, imports) is None);
        law_props_intersection(v, list, from + 1, source, imports, k);
    }
}

proof fn lemma_typed_complete(
    properties: Seq<JsonV>,
    n: int,
    component: Seq<char>,
    module: Seq<char>,
    jsx: JsxV,
    k: int,
    key: PropV,
)
    requires
        0 <= k < n <= properties.len(),
        has_key(properties[k], key),
        regex_accepts(jsx.pattern, key.name),
    ensures
        typed_props(properties, n, component, module, jsx).contains(
            typed_prop(properties[k], key, component, module, jsx),
        ),
    decreases n,
{
    let before = typed_props(properties, n - 1, component, module, jsx);
    let hit = typed_prop(properties[k], key, component, module, jsx);
    if k < n - 1 {
        lemma_typed_complete(properties, n - 1, component, module, jsx, k, key);
        if let Some(p) = key_prop(properties[n - 1]) {
            lemma_pushed(
                before,
                typed_prop(properties[n - 1], p, component, module, jsx),
                hit,
            );
        }
    } else {
        assert(key_prop(properties[k]) == Some(key));
        lemma_pushed(before, hit, hit);
    }
}

/// Where props are looked for, every property whose name is accepted of an object with a props type
/// is reported, as a prop of the component that the type stands for.
pub proof fn law_typed_property_reported(
    d: JsonV,
    jsx: JsxV,
    component: Seq<char>,
    module: Seq<char>,
    k: int,
    key: PropV,
)
    requires
        jsx.wants_props(),
        props_type(annotation(d), jsx.source, jsx.scope.imports) == Some((component, module)),
        type_is(child(d, "init"@), "ObjectExpression"@),
        0 <= k < children(child(d, "init"@), "properties"@).len(),
        has_key(children(child(d, "init"@), "properties"@)[k], key),
    ensures
        regex_accepts(jsx.pattern, key.name) ==> exists|i: IncidentV|
            {
                &&& #[trigger] typed_object_hits(d, jsx).contains(i)
                &&& says(i, "propName"@, key.name)
                &&& says(i, "componentName"@, component)
                &&& says(i, "module"@, module)
                &&& i.file_uri == jsx.file_uri
                &&& says(
                    i,
                    "propValue"@,
                    match string_literal(
                        child(children(child(d, "init"@), "properties"@)[k], "value"@),
                    ) {
                        Some(text) => text,
                        None => trimmed(
                            text_within(
                                jsx.source,
                                number_field(
                                    child(
                                        children(child(d, "init"@), "properties"@)[k],
                                        "value"@,
                                    ),
                                    "start"@,
                                ) as int,
                                number_field(
                                    child(
                                        children(child(d, "init"@), "properties"@)[k],
                                        "value"@,
                                    ),
                                    "end"@,
                                ) as int,
                            ),
                        ),
                    },
                )
            },
{
    let properties = children(child(d, "init"@), "properties"@);
    if regex_accepts(jsx.pattern, key.name) {
        lemma_typed_complete(
            properties,
            properties.len() as int,
            component,
            module,
            jsx,
            k,
            key,
        );
        let hit = typed_prop(properties[k], key, component, module, jsx);
        lemma_prop_keys();
        assert(typed_object_hits(d, jsx).contains(hit));
    }
}

proof fn lemma_prop_keys()
    ensures
        "propName"@ != "componentName"@,
        "propName"@ != "module"@,
        "propName"@ != "propValue"@,
        "propName"@ != "propObjectValues"@,
        "componentName"@ != "module"@,
        "componentName"@ != "propValue"@,
        "componentName"@ != "propObjectValues"@,
        "module"@ != "propValue"@,
        "module"@ != "propObjectValues"@,
{
    reveal_strlit("propName");
    reveal_strlit("componentName");
    reveal_strlit("module");
    reveal_strlit("propValue");
    reveal_strlit("propObjectValues");
    assert("propName"@.len() == 8);
    assert("componentName"@.len() == 13);
    assert("module"@.len() == 6);
    assert("propValue"@.len() == 9);
    assert("propObjectValues"@.len() == 16);
}

/// Without a props type, without an object or without a search for props, nothing is reported.
pub proof fn law_untyped_object(d: JsonV, jsx: JsxV)
    requires
        !jsx.wants_props() || !type_is(child(d, "init"@), "ObjectExpression"@) || props_type(
            annotation(d),
            jsx.source,
            jsx.scope.imports,
        ) is None,
    ensures
        typed_object_hits(d, jsx).len() == 0,
{
}

// ---- Capabilities ----

/// The capabilities, by their names.
pub proof fn law_capabilities(name: Seq<char>)
    ensures
        name == "referenced"@ ==> capability_named(name) == Some(Capability::Referenced),
        name == "cssclass"@ ==> capability_named(name) == Some(Capability::CssClass),
        name == "cssvar"@ ==> capability_named(name) == Some(Capability::CssVar),
        name == "dependency"@ ==> capability_named(name) == Some(Capability::Dependency),
        capability_named(name) is Some ==> name == "referenced"@ || name == "cssclass"@ || name
            == "cssvar"@ || name == "dependency"@,
{
    reveal_strlit("referenced");
    reveal_strlit("cssclass");
    reveal_strlit("cssvar");
    reveal_strlit("dependency");
    assert("referenced"@.len() == 10);
    assert("cssclass"@.len() == 8);
    assert("cssvar"@.len() == 6);
    assert("dependency"@.len() == 10);
    assert("referenced"@[0] == 'r');
    assert("dependency"@[0] == 'd');
}

// ---- Paths ----

proof fn lemma_last_part(dir: Seq<char>, name: Seq<char>, c: char)
    requires
        !name.contains(c),
    ensures
        split(dir + seq![c] + name, c).len() >= 2,
        split(dir + seq![c] + name, c).last() == name,
    decreases name.len(),
{
    let all = dir + seq![c] + name;
    lemma_split_len(dir, c);
    if name.len() == 0 {
        assert(all =~= dir.push(c));
        assert(all.drop_last() =~= dir);
        assert(name =~= Seq::<char>::empty());
    } else {
        let front = name.drop_last();
        assert forall|k: int| 0 <= k < front.len() implies front[k] != c by {
            assert(name[k] == front[k]);
        }
        lemma_last_part(dir, front, c);
        assert(all.drop_last() =~= dir + seq![c] + front);
        assert(all.last() == name.last());
        assert(name.last() != c) by {
            assert(name[name.len() - 1] == name.last());
        }
        assert(front.push(name.last()) =~= name);
    }
}

/// The file name of a path is what stands behind its last slash.
pub proof fn law_file_name(dir: Seq<char>, name: Seq<char>)
    requires
        !name.contains('/'),
        name.len() > 0,
        name != seq!['.'],
        name != seq!['.', '.'],
    ensures
        file_name_of(dir + seq!['/'] + name) == Some(name),
{
    lemma_last_part(dir, name, '/');
}

proof fn lemma_last_dot(stem: Seq<char>, ext: Seq<char>, n: int)
    requires
        !ext.contains('.'),
        stem.len() < n <= stem.len() + 1 + ext.len(),
    ensures
        last_index(stem + seq!['.'] + ext, '.', n) == Some(stem.len() as int),
    decreases n,
{
    let all = stem + seq!['.'] + ext;
    if n > stem.len() + 1 {
        assert(all[n - 1] == ext[n - 1 - stem.len() - 1]);
        assert(ext.contains(ext[n - 1 - stem.len() - 1]));
        lemma_last_dot(stem, ext, n - 1);
    } else {
        assert(all[n - 1] == '.');
    }
}

/// The extension of a path is what stands behind the last dot of its file name.
pub proof fn law_extension(dir: Seq<char>, stem: Seq<char>, ext: Seq<char>)
    requires
        stem.len() > 0,
        !stem.contains('/') && !ext.contains('/'),
        !ext.contains('.'),
        stem + seq!['.'] + ext != seq!['.', '.'],
    ensures
        extension_of(dir + seq!['/'] + (stem + seq!['.'] + ext)) == Some(ext),
{
    let name = stem + seq!['.'] + ext;
    assert forall|k: int| 0 <= k < name.len() implies name[k] != '/' by {
        if k < stem.len() {
            assert(name[k] == stem[k]);
            assert(stem.contains(stem[k]));
        } else if k > stem.len() {
            assert(name[k] == ext[k - stem.len() - 1]);
            assert(ext.contains(ext[k - stem.len() - 1]));
        }
    }
    assert(name.len() >= 2);
    law_file_name(dir, name);
    lemma_last_dot(stem, ext, name.len() as int);
    assert(name.skip(stem.len() as int + 1) =~= ext);
}

/// A path below a directory has one slash between them; an absolute path stands for itself.
pub proof fn law_joined(dir: Seq<char>, path: Seq<char>)
    ensures
        path.len() > 0 && path[0] == '/' ==> joined(dir, path) == path,
        (path.len() == 0 || path[0] != '/') && dir.len() > 0 && dir.last() != '/' ==> joined(
            dir,
            path,
        ) == dir + seq!['/'] + path,
        (path.len() == 0 || path[0] != '/') && dir.len() > 0 && dir.last() == '/' ==> joined(
            dir,
            path,
        ) == dir + path,
{
    assert(dir.push('/') + path =~= dir + seq!['/'] + path);
}

// ---- Snippets ----

proof fn lemma_numbered(lines: Seq<Seq<char>>, from: int, to: int, width: nat, k: int)
    requires
        0 <= from <= k < to <= lines.len(),
    ensures
        contains(
            numbered_lines(lines, from, to, width),
            decimal((k + 1) as nat) + "  "@ + lines[k] + "\n"@,
        ),
    decreases to - from,
{
    let x = decimal((k + 1) as nat) + "  "@ + lines[k] + "\n"@;
    let before = numbered_lines(lines, from, to - 1, width);
    let all = numbered_lines(lines, from, to, width);
    let last = numbered(to as nat, lines[to - 1], width);
    assert(all == before + last);
    if k < to - 1 {
        lemma_numbered(lines, from, to - 1, width, k);
        let i = choose|i: int| has_at(before, x, i);
        assert(all.subrange(i, i + x.len()) =~= before.subrange(i, i + x.len()));
        assert(has_at(all, x, i));
    } else {
        let i = all.len() - x.len();
        assert(all.subrange(i, i + x.len()) =~= x);
        assert(has_at(all, x, i));
    }
}

/// A snippet holds the line of its location and those around it, each behind its number.
pub proof fn law_snippet(
    lines: Seq<Seq<char>>,
    start_line: int,
    end_line: int,
    context_lines: int,
    k: int,
)
    requires
        0 <= context_lines,
        0 <= start_line <= end_line,
        start_line - context_lines <= k <= end_line + context_lines,
        0 <= k < lines.len(),
    ensures
        contains(
            snip(lines, start_line, end_line, context_lines),
            decimal((k + 1) as nat) + "  "@ + lines[k] + "\n"@,
        ),
{
    let from = snip_start(start_line, context_lines);
    let to = from + (end_line - start_line) + 2 * context_lines + 1;
    lemma_numbered(
        lines,
        from,
        if to <= lines.len() {
            to
        } else {
            lines.len() as int
        },
        5,
        k,
    );
}

/// No line holds a line feed.
pub proof fn law_lines(s: Seq<char>, k: int)
    requires
        0 <= k < lines_of(s).len(),
    ensures
        !lines_of(s)[k].contains('\n'),
{
    let parts = split(s, '\n');
    lemma_split_len(s, '\n');
    law_parts_lack_separator(s, '\n', k);
    let line = lines_of(s)[k];
    assert forall|j: int| 0 <= j < line.len() implies line[j] != '\n' by {
        assert(line[j] == parts[k][j]);
        assert(parts[k].contains(parts[k][j]));
    }
}

} // verus!
