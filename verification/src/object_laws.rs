//! Which property names and strings an expression gives, and what a file exports and imports.

use crate::estree::{
    child, children, flag, identifier, is_class_declaration, is_function_declaration, number_field,
    present, string_literal, text_field, type_is,
};
use crate::exports::{
    export_name, exports_of, function_export, reexports, renamed_from, settled, settled_by, ExportV,
    ModuleV,
};
use crate::imports::{imports_of, specifier_entries, statement_imports};
use crate::json::{field, JsonV};
use crate::locals::local_exprs;
use crate::lookup::{last_index_of, named, names_of};
use crate::object_props::{
    attribute_strings, body_props, export_props, expression_strings, function_props, key_prop,
    key_props, object_props, object_strings, property_string, property_strings, returned_props,
    spread_props, statement_props, value_props, value_strings, PropV,
};
use crate::plan_laws::lemma_pushed;
use crate::scope::ScopeV;
use crate::type_names::lemma_type_names;
use vstd::prelude::*;

verus! {

pub proof fn lemma_either<T>(a: Seq<T>, b: Seq<T>, x: T)
    ensures
        (a + b).contains(x) <==> a.contains(x) || b.contains(x),
{
    let s = a + b;
    if a.contains(x) {
        let k = choose|k: int| 0 <= k < a.len() && a[k] == x;
        assert(s[k] == x);
    }
    if b.contains(x) {
        let k = choose|k: int| 0 <= k < b.len() && b[k] == x;
        assert(s[a.len() + k] == x);
    }
    if s.contains(x) {
        let k = choose|k: int| 0 <= k < s.len() && s[k] == x;
        if k < a.len() {
            assert(a[k] == x);
        } else {
            assert(b[k - a.len()] == x);
        }
    }
}

// ---- Property names ----

/// Whether a property has a name that is written down, at its place: a plain name that is not
/// computed, or a string.
pub open spec fn is_key(p: JsonV, key: PropV) -> bool {
    &&& type_is(p, "Property"@)
    &&& key.start == number_field(child(p, "key"@), "start"@)
    &&& key.end == number_field(child(p, "key"@), "end"@)
    &&& if identifier(child(p, "key"@)) is Some && !flag(p, "computed"@) {
        identifier(child(p, "key"@)) == Some(key.name)
    } else {
        string_literal(child(p, "key"@)) == Some(key.name)
    }
}

proof fn lemma_key_props(properties: Seq<JsonV>, n: int, key: PropV)
    requires
        0 <= n <= properties.len(),
    ensures
        key_props(properties, n).contains(key) <==> exists|k: int|
            0 <= k < n && is_key(#[trigger] properties[k], key),
    decreases n,
{
    if n > 0 {
        lemma_key_props(properties, n - 1, key);
        let before = key_props(properties, n - 1);
        assert(is_key(properties[n - 1], key) == (key_prop(properties[n - 1]) == Some(key)));
        if let Some(p) = key_prop(properties[n - 1]) {
            lemma_pushed(before, p, key);
        }
    }
}

/// The names that an object expression gives are those of its properties.
pub proof fn law_object_props(v: JsonV, key: PropV)
    ensures
        object_props(v).contains(key) <==> exists|k: int|
            0 <= k < children(v, "properties"@).len() && is_key(
                #[trigger] children(v, "properties"@)[k],
                key,
            ),
{
    lemma_key_props(children(v, "properties"@), children(v, "properties"@).len() as int, key);
}

/// What is returned is an object, looked for inside parentheses and type assertions.
pub proof fn law_returned(v: JsonV)
    ensures
        type_is(v, "ObjectExpression"@) ==> returned_props(v) == object_props(v),
        type_is(v, "ParenthesizedExpression"@) || type_is(v, "TSAsExpression"@) || type_is(
            v,
            "TSSatisfiesExpression"@,
        ) ==> returned_props(v) == match field(v, "expression"@) {
            Some(e) => returned_props(e),
            None => Seq::empty(),
        },
        !type_is(v, "ObjectExpression"@) && !type_is(v, "ParenthesizedExpression"@) && !type_is(
            v,
            "TSAsExpression"@,
        ) && !type_is(v, "TSSatisfiesExpression"@) ==> returned_props(v).len() == 0,
{
    lemma_type_names();
}

proof fn lemma_body_props(stmts: Seq<JsonV>, n: int, key: PropV)
    requires
        0 <= n <= stmts.len(),
    ensures
        body_props(stmts, n).contains(key) <==> exists|k: int|
            {
                &&& 0 <= k < n
                &&& type_is(#[trigger] stmts[k], "ReturnStatement"@)
                &&& returned_props(child(stmts[k], "argument"@)).contains(key)
            },
    decreases n,
{
    if n > 0 {
        lemma_body_props(stmts, n - 1, key);
        let before = body_props(stmts, n - 1);
        let more = returned_props(child(stmts[n - 1], "argument"@));
        lemma_either(before, more, key);
    }
}

/// What a function with statements returns is what any of its return statements does.
pub proof fn law_statements_return(f: JsonV, key: PropV)
    ensures
        statement_props(f).contains(key) <==> exists|k: int|
            {
                &&& 0 <= k < children(child(f, "body"@), "body"@).len()
                &&& type_is(#[trigger] children(child(f, "body"@), "body"@)[k], "ReturnStatement"@)
                &&& returned_props(
                    child(children(child(f, "body"@), "body"@)[k], "argument"@),
                ).contains(key)
            },
{
    let stmts = children(child(f, "body"@), "body"@);
    lemma_body_props(stmts, stmts.len() as int, key);
}

/// What functions give: an arrow function with an expression what that is, any other what its
/// statements return, and nothing else anything.
pub proof fn law_function_props(v: JsonV)
    ensures
        type_is(v, "ArrowFunctionExpression"@) && flag(v, "expression"@) ==> function_props(v)
            == returned_props(child(v, "body"@)),
        type_is(v, "ArrowFunctionExpression"@) && !flag(v, "expression"@) ==> function_props(v)
            == statement_props(v),
        type_is(v, "FunctionExpression"@) ==> function_props(v) == statement_props(v),
        !type_is(v, "ArrowFunctionExpression"@) && !type_is(v, "FunctionExpression"@)
            ==> function_props(v).len() == 0,
        type_is(v, "ObjectExpression"@) ==> value_props(v) == object_props(v),
        !type_is(v, "ObjectExpression"@) ==> value_props(v) == function_props(v),
{
    lemma_type_names();
}

/// What exports give: a function what it returns, an expression what it is, or, where it is called,
/// what it returns.
pub proof fn law_export_props(found: Seq<ExportV>, n: int, called: bool, key: PropV)
    requires
        0 <= n <= found.len(),
    ensures
        export_props(found, n, called).contains(key) <==> exists|k: int|
            0 <= k < n && match #[trigger] found[k] {
                ExportV::Function(f) => statement_props(f).contains(key),
                ExportV::Expression(e) => if called {
                    function_props(e).contains(key)
                } else {
                    value_props(e).contains(key)
                },
            },
    decreases n,
{
    if n > 0 {
        law_export_props(found, n - 1, called, key);
        let before = export_props(found, n - 1, called);
        let more = match found[n - 1] {
            ExportV::Expression(e) => if called {
                function_props(e)
            } else {
                value_props(e)
            },
            ExportV::Function(f) => statement_props(f),
        };
        assert(export_props(found, n, called) == before + more);
        lemma_either(before, more, key);
    }
}

/// What spreading an expression gives, by its parts: parentheses change nothing, `&&` gives what
/// its right side does, and a conditional what both its branches do.
pub proof fn law_spread(v: JsonV, scope: ScopeV)
    ensures
        type_is(v, "ObjectExpression"@) ==> spread_props(v, scope) == object_props(v),
        type_is(v, "ParenthesizedExpression"@) && field(v, "expression"@) is Some ==> spread_props(
            v,
            scope,
        ) == spread_props(child(v, "expression"@), scope),
        type_is(v, "LogicalExpression"@) && text_field(v, "operator"@) == Some("&&"@) && field(
            v,
            "right"@,
        ) is Some ==> spread_props(v, scope) == spread_props(child(v, "right"@), scope),
        type_is(v, "ConditionalExpression"@) && field(v, "consequent"@) is Some && field(
            v,
            "alternate"@,
        ) is Some ==> spread_props(v, scope) == spread_props(child(v, "consequent"@), scope)
            + spread_props(child(v, "alternate"@), scope),
{
    lemma_type_names();
}

/// Spreading a name gives what the local variable of that name is, or else what the index knows of
/// it, or else what the file exports that it is imported from.
pub proof fn law_spread_name(v: JsonV, name: Seq<char>, scope: ScopeV)
    requires
        type_is(v, "Identifier"@),
        identifier(v) == Some(name),
    ensures
        named(scope.locals, name) is Some ==> spread_props(v, scope) == value_props(
            named(scope.locals, name)->0,
        ),
        named(scope.locals, name) is None && scope.known_properties(name) is Some ==> {
            &&& spread_props(v, scope).len() == scope.known_properties(name)->0.len()
            &&& forall|k: int|
                0 <= k < spread_props(v, scope).len() ==> (#[trigger] spread_props(v, scope)[k])
                    == (PropV {
                    name: scope.known_properties(name)->0[k],
                    start: number_field(v, "start"@),
                    end: number_field(v, "end"@),
                })
        },
        named(scope.locals, name) is None && scope.known_properties(name) is None ==> spread_props(
            v,
            scope,
        ) == export_props(scope.exported(name), scope.exported(name).len() as int, false),
{
    lemma_type_names();
}

/// Spreading a call of a name gives what the function returns.
pub proof fn law_spread_call(v: JsonV, name: Seq<char>, scope: ScopeV)
    requires
        type_is(v, "CallExpression"@),
        identifier(child(v, "callee"@)) == Some(name),
    ensures
        named(scope.locals, name) is Some ==> spread_props(v, scope) == function_props(
            named(scope.locals, name)->0,
        ),
        named(scope.locals, name) is None ==> spread_props(v, scope) == export_props(
            scope.exported(name),
            scope.exported(name).len() as int,
            true,
        ),
{
    lemma_type_names();
}

// ---- Strings ----

/// Whether a property has a string as its value.
pub open spec fn has_string(p: JsonV, s: Seq<char>) -> bool {
    type_is(p, "Property"@) && string_literal(child(p, "value"@)) == Some(s)
}

proof fn lemma_property_strings(properties: Seq<JsonV>, n: int, s: Seq<char>)
    requires
        0 <= n <= properties.len(),
    ensures
        property_strings(properties, n).contains(s) <==> exists|k: int|
            0 <= k < n && has_string(#[trigger] properties[k], s),
    decreases n,
{
    if n > 0 {
        lemma_property_strings(properties, n - 1, s);
        let before = property_strings(properties, n - 1);
        if let Some(x) = property_string(properties[n - 1]) {
            lemma_pushed(before, x, s);
        }
    }
}

/// Whether a property has a string as its value, or an object with such a property.
pub open spec fn holds_string(p: JsonV, s: Seq<char>) -> bool {
    has_string(p, s) || (type_is(p, "Property"@) && type_is(
        child(p, "value"@),
        "ObjectExpression"@,
    ) && exists|j: int|
        0 <= j < children(child(p, "value"@), "properties"@).len() && has_string(
            #[trigger] children(child(p, "value"@), "properties"@)[j],
            s,
        ))
}

proof fn lemma_value_strings(properties: Seq<JsonV>, n: int, s: Seq<char>)
    requires
        0 <= n <= properties.len(),
    ensures
        value_strings(properties, n).contains(s) <==> exists|k: int|
            0 <= k < n && holds_string(#[trigger] properties[k], s),
    decreases n,
{
    if n > 0 {
        lemma_type_names();
        lemma_value_strings(properties, n - 1, s);
        let before = value_strings(properties, n - 1);
        let p = properties[n - 1];
        let value = child(p, "value"@);
        if let Some(x) = property_string(p) {
            lemma_pushed(before, x, s);
            assert(holds_string(p, s) == (x == s));
        } else if type_is(p, "Property"@) && type_is(value, "ObjectExpression"@) {
            let nested = children(value, "properties"@);
            lemma_property_strings(nested, nested.len() as int, s);
            lemma_either(before, property_strings(nested, nested.len() as int), s);
        }
    }
}

/// The strings of an object are the values of its properties, and those of the objects that are
/// values of its properties.
pub proof fn law_object_strings(v: JsonV, s: Seq<char>)
    ensures
        object_strings(v).contains(s) <==> exists|k: int|
            0 <= k < children(v, "properties"@).len() && holds_string(
                #[trigger] children(v, "properties"@)[k],
                s,
            ),
{
    lemma_value_strings(children(v, "properties"@), children(v, "properties"@).len() as int, s);
}

/// The strings of an expression, by its parts.
pub proof fn law_expression_strings(v: JsonV)
    ensures
        type_is(v, "ObjectExpression"@) ==> expression_strings(v) == object_strings(v),
        type_is(v, "ParenthesizedExpression"@) && field(v, "expression"@) is Some
            ==> expression_strings(v) == expression_strings(child(v, "expression"@)),
        type_is(v, "ConditionalExpression"@) && field(v, "consequent"@) is Some && field(
            v,
            "alternate"@,
        ) is Some ==> expression_strings(v) == expression_strings(child(v, "consequent"@))
            + expression_strings(child(v, "alternate"@)),
        string_literal(v) is Some ==> expression_strings(v) == seq![string_literal(v)->0],
        string_literal(v) is Some ==> attribute_strings(v).len() == 0,
        string_literal(v) is None ==> attribute_strings(v) == expression_strings(v),
{
    lemma_type_names();
}

// ---- Imports ----

proof fn lemma_specifiers(specifiers: Seq<JsonV>, n: int, module: Seq<char>, name: Seq<char>)
    requires
        0 <= n <= specifiers.len(),
    ensures
        specifier_entries(specifiers, n, module).contains((name, module)) <==> exists|k: int|
            0 <= k < n && identifier(child(#[trigger] specifiers[k], "local"@)) == Some(name),
        forall|k: int|
            0 <= k < specifier_entries(specifiers, n, module).len() ==> (
            #[trigger] specifier_entries(specifiers, n, module)[k]).1 == module,
    decreases n,
{
    if n > 0 {
        lemma_specifiers(specifiers, n - 1, module, name);
        let before = specifier_entries(specifiers, n - 1, module);
        let now = specifier_entries(specifiers, n, module);
        if let Some(x) = identifier(child(specifiers[n - 1], "local"@)) {
            lemma_pushed(before, (x, module), (name, module));
            assert forall|k: int| 0 <= k < now.len() implies (#[trigger] now[k]).1 == module by {
                if k < before.len() {
                    assert(now[k] == before[k]);
                }
            }
        }
    }
}

/// Whether a statement imports a name from a module.
pub open spec fn imports_name(v: JsonV, name: Seq<char>, module: Seq<char>) -> bool {
    &&& type_is(v, "ImportDeclaration"@)
    &&& string_literal(child(v, "source"@)) == Some(module)
    &&& exists|k: int|
        0 <= k < children(v, "specifiers"@).len() && identifier(
            child(#[trigger] children(v, "specifiers"@)[k], "local"@),
        ) == Some(name)
}

/// The imports of a file are those of its import declarations, each under its local name.
pub proof fn law_imports(body: Seq<JsonV>, n: int, name: Seq<char>, module: Seq<char>)
    requires
        0 <= n <= body.len(),
    ensures
        imports_of(body, n).contains((name, module)) <==> exists|k: int|
            0 <= k < n && imports_name(#[trigger] body[k], name, module),
    decreases n,
{
    if n > 0 {
        law_imports(body, n - 1, name, module);
        let before = imports_of(body, n - 1);
        let v = body[n - 1];
        let more = statement_imports(v);
        lemma_either(before, more, (name, module));
        if let Some(m) = string_literal(child(v, "source"@)) {
            let specifiers = children(v, "specifiers"@);
            lemma_specifiers(specifiers, specifiers.len() as int, m, name);
            if more.contains((name, module)) {
                let k = choose|k: int| 0 <= k < more.len() && more[k] == (name, module);
                assert(more[k].1 == m);
            }
        }
        assert(more.contains((name, module)) == imports_name(v, name, module));
    }
}

// ---- Exports ----

/// What a statement settles: an exported function of the name, or a default that is no class and no
/// interface.
pub proof fn law_settled_by(stmt: JsonV, name: Seq<char>)
    ensures
        ({
            let decl = child(stmt, "declaration"@);
            &&& type_is(stmt, "ExportNamedDeclaration"@) && is_function_declaration(decl)
                && identifier(child(decl, "id"@)) == Some(name) ==> settled_by(stmt, name) == Some(
                function_export(decl),
            )
            &&& type_is(stmt, "ExportNamedDeclaration"@) && !(is_function_declaration(decl)
                && identifier(child(decl, "id"@)) == Some(name)) ==> settled_by(stmt, name) is None
            &&& type_is(stmt, "ExportDefaultDeclaration"@) && is_function_declaration(decl)
                ==> settled_by(stmt, name) == Some(function_export(decl))
            &&& type_is(stmt, "ExportDefaultDeclaration"@) && (is_class_declaration(decl)
                || type_is(decl, "TSInterfaceDeclaration"@)) && !is_function_declaration(decl)
                ==> settled_by(stmt, name) is None
            &&& type_is(stmt, "ExportDefaultDeclaration"@) && field(stmt, "declaration"@) is Some
                && !is_function_declaration(decl) && !is_class_declaration(decl) && !type_is(
                decl,
                "TSInterfaceDeclaration"@,
            ) ==> settled_by(stmt, name) == Some(seq![ExportV::Expression(decl)])
            &&& !type_is(stmt, "ExportNamedDeclaration"@) && !type_is(
                stmt,
                "ExportDefaultDeclaration"@,
            ) ==> settled_by(stmt, name) is None
            &&& function_export(decl) == if present(decl, "body"@) {
                seq![ExportV::Function(decl)]
            } else {
                Seq::empty()
            }
        }),
{
    lemma_type_names();
}

/// The first statement that settles a name counts.
pub proof fn law_first_settles(body: Seq<JsonV>, from: int, name: Seq<char>, k: int)
    requires
        0 <= from <= k < body.len(),
        settled_by(body[k], name) is Some,
        forall|j: int| from <= j < k ==> settled_by(#[trigger] body[j], name) is None,
    ensures
        settled(body, from, name) == settled_by(body[k], name),
    decreases k - from,
{
    if from < k {
        assert(settled_by(body[from], name) is None);
        law_first_settles(body, from + 1, name, k);
    }
}

/// A variable of a module goes before anything else that it exports.
pub proof fn law_variable_exported(
    modules: Seq<ModuleV>,
    k: int,
    name: Seq<char>,
    left: nat,
    program: JsonV,
    e: JsonV,
)
    requires
        0 <= k < modules.len(),
        modules[k].program == Some(program),
        named(
            local_exprs(children(program, "body"@), children(program, "body"@).len() as int),
            name,
        ) == Some(e),
    ensures
        exports_of(modules, k, name, left) == seq![ExportV::Expression(e)],
{
}

/// What is not a variable is what the first statement that settles it says, or else what is
/// re-exported.
pub proof fn law_other_exported(
    modules: Seq<ModuleV>,
    k: int,
    name: Seq<char>,
    left: nat,
    program: JsonV,
)
    requires
        0 <= k < modules.len(),
        modules[k].program == Some(program),
        named(
            local_exprs(children(program, "body"@), children(program, "body"@).len() as int),
            name,
        ) is None,
    ensures
        exports_of(modules, k, name, left) == match settled(children(program, "body"@), 0, name) {
            Some(found) => found,
            None => reexports(modules, k, children(program, "body"@), 0, name, left),
        },
{
}

/// A named re-export leads to the file that it names, under the local name, and ends the search.
pub proof fn law_named_reexport(
    modules: Seq<ModuleV>,
    k: int,
    body: Seq<JsonV>,
    i: int,
    name: Seq<char>,
    left: nat,
    path: Seq<char>,
    local: Seq<char>,
)
    requires
        0 <= i < body.len(),
        left > 0,
        type_is(body[i], "ExportNamedDeclaration"@),
        string_literal(child(body[i], "source"@)) == Some(path),
        renamed_from(children(body[i], "specifiers"@), 0, name) == Some(local),
    ensures
        reexports(modules, k, body, i, name, left) == match named(modules[k].links, path) {
            Some(j) => exports_of(modules, j as int, local, (left - 1) as nat),
            None => Seq::empty(),
        },
{
}

/// An `export *` leads to the file that it names, under the same name, and the search goes on.
pub proof fn law_whole_reexport(
    modules: Seq<ModuleV>,
    k: int,
    body: Seq<JsonV>,
    i: int,
    name: Seq<char>,
    left: nat,
    path: Seq<char>,
)
    requires
        0 <= i < body.len(),
        left > 0,
        type_is(body[i], "ExportAllDeclaration"@),
        string_literal(child(body[i], "source"@)) == Some(path),
    ensures
        reexports(modules, k, body, i, name, left) == (match named(modules[k].links, path) {
            Some(j) => exports_of(modules, j as int, name, (left - 1) as nat),
            None => Seq::empty(),
        }) + reexports(modules, k, body, i + 1, name, left),
{
    reveal_strlit("ExportAllDeclaration");
    reveal_strlit("ExportNamedDeclaration");
    assert("ExportAllDeclaration"@.len() == 20);
    assert("ExportNamedDeclaration"@.len() == 22);
}

/// A statement that re-exports nothing under a name is passed over.
pub proof fn law_no_reexport(
    modules: Seq<ModuleV>,
    k: int,
    body: Seq<JsonV>,
    i: int,
    name: Seq<char>,
    left: nat,
)
    requires
        0 <= i < body.len(),
        !type_is(body[i], "ExportAllDeclaration"@) || string_literal(
            child(body[i], "source"@),
        ) is None,
        !type_is(body[i], "ExportNamedDeclaration"@) || string_literal(
            child(body[i], "source"@),
        ) is None || renamed_from(children(body[i], "specifiers"@), 0, name) is None,
    ensures
        reexports(modules, k, body, i, name, left) == reexports(
            modules,
            k,
            body,
            i + 1,
            name,
            left,
        ),
{
    lemma_type_names();
}

/// The first specifier that exports a name says under which local name.
pub proof fn law_renamed_from(specifiers: Seq<JsonV>, from: int, name: Seq<char>, k: int)
    requires
        0 <= from <= k < specifiers.len(),
        export_name(child(specifiers[k], "exported"@)) == Some(name),
        forall|j: int|
            from <= j < k ==> export_name(child(#[trigger] specifiers[j], "exported"@)) != Some(
                name,
            ),
    ensures
        export_name(child(specifiers[k], "local"@)) is Some ==> renamed_from(specifiers, from, name)
            == export_name(child(specifiers[k], "local"@)),
    decreases k - from,
{
    if from < k {
        assert(export_name(child(specifiers[from], "exported"@)) != Some(name));
        law_renamed_from(specifiers, from + 1, name, k);
    }
}

/// What a list of named things gives for a name is the last one of that name.
pub proof fn law_last_named_counts<T>(s: Seq<(Seq<char>, T)>, name: Seq<char>, k: int)
    requires
        0 <= k < s.len(),
        s[k].0 == name,
        forall|j: int| k < j < s.len() ==> (#[trigger] s[j]).0 != name,
    ensures
        named(s, name) == Some(s[k].1),
{
    lemma_last_is(names_of(s), name, k, s.len() as int);
}

proof fn lemma_last_is(names: Seq<Seq<char>>, name: Seq<char>, k: int, n: int)
    requires
        0 <= k < n <= names.len(),
        names[k] == name,
        forall|j: int| k < j < n ==> (#[trigger] names[j]) != name,
    ensures
        last_index_of(names, name, n) == Some(k),
    decreases n,
{
    if k < n - 1 {
        assert(names[n - 1] != name);
        lemma_last_is(names, name, k, n - 1);
    }
}

} // verus!
