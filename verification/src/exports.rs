//! What the modules of a project export.
//!
//! The files that a file reaches through its imports are given as values, already read and
//! parsed, together with the files that their own module paths lead to. Following a name through
//! them, over chains of re-exports, is left to this module.

use crate::estree::{
    child, children, get_children, get_identifier, get_string_literal, identifier,
    is_class_declaration, is_function_declaration, is_type, node_models, present, string_literal,
    check_function_declaration, check_present, type_is,
};
use crate::incident::opt_view;
use crate::json::{document_model, field, parse_json, Json, JsonV};
use crate::locals::{build_local_expr_map, find_local, local_exprs};
use crate::lookup::{find_named, list_names, named, names_of};
use crate::printed_tree::{mend, mended};
use crate::text::{same, texts};
use vstd::prelude::*;

verus! {

/// Maximum depth for following re-export chains across files.
pub const MAX_REEXPORT_DEPTH: usize = 20;

/// The ESTree form, printed as JSON, of the syntax tree that `oxc_parser` makes of a file; nothing
/// where it gave up.
pub uninterp spec fn module_text(source: Seq<char>, path: Seq<char>) -> Option<Seq<char>>;

/// Parses a file with `oxc_parser::Parser::parse`, in the dialect that
/// `oxc_span::SourceType::from_path` sees in its path, or else in the default one, and prints the
/// tree with `Program::to_estree_ts_json`. Nothing where the parser panicked. The outcome depends
/// on the text and the path alone.
#[verifier::external_body]
fn module_to_estree(source: &str, path: &str) -> (r: Option<String>)
    ensures
        opt_view(r) == module_text(source@, path@),
{
    let allocator = oxc_allocator::Allocator::default();
    let source_type = oxc_span::SourceType::from_path(path).unwrap_or_default();
    let parsed = oxc_parser::Parser::new(&allocator, source, source_type).parse();
    match parsed.panicked {
        true => None,
        false => Some(parsed.program.to_estree_ts_json(false)),
    }
}

/// The syntax tree of a file.
pub open spec fn module_program(source: Seq<char>, path: Seq<char>) -> Option<JsonV> {
    match module_text(source, path) {
        Some(t) => document_model(mended(t)),
        None => None,
    }
}

/// Parses a file of the project.
pub fn parse_module(source: &str, path: &str) -> (r: Option<Json>)
    ensures
        (match r {
            Some(j) => Some(j@),
            None => None,
        }) == module_program(source@, path@),
{
    match module_to_estree(source, path) {
        Some(t) => parse_json(mend(t.as_str()).as_str()),
        None => None,
    }
}

/// A file of the project that another file reaches.
#[derive(Debug)]
pub struct Module {
    /// The syntax tree; nothing where the file cannot be parsed.
    pub program: Option<Json>,
    /// The module paths in this file that lead to another file of the project, with the index of
    /// that file.
    pub links: Vec<(String, usize)>,
}

/// What a module holds.
pub ghost struct ModuleV {
    pub program: Option<JsonV>,
    pub links: Seq<(Seq<char>, usize)>,
}

/// What a list of links holds.
pub open spec fn link_models(s: Seq<(String, usize)>) -> Seq<(Seq<char>, usize)> {
    s.map_values(|e: (String, usize)| (e.0@, e.1))
}

impl View for Module {
    type V = ModuleV;

    open spec fn view(&self) -> ModuleV {
        ModuleV {
            program: (match self.program {
                Some(p) => Some(p@),
                None => None,
            }),
            links: link_models(self.links@),
        }
    }
}

/// What modules hold.
pub open spec fn module_models(s: Seq<Module>) -> Seq<ModuleV> {
    s.map_values(|m: Module| m@)
}

/// The file that a module path leads to.
pub fn find_link(links: &Vec<(String, usize)>, path: &str) -> (r: Option<usize>)
    ensures
        r == named(link_models(links@), path@),
{
    assert(names_of(link_models(links@)) =~= list_names(links@));
    match find_named(links, path) {
        Some(i) => Some(links[i].1),
        None => None,
    }
}

/// What was found when resolving a named export across files.
pub ghost enum ExportV {
    /// An expression: `export const x = <expr>`
    Expression(JsonV),
    /// A function declaration: `export function x() { <body> }`
    Function(JsonV),
}

/// What was found when resolving a named export across files.
#[derive(Debug)]
pub enum Export<'a> {
    /// An expression: `export const x = <expr>`
    Expression(&'a Json),
    /// A function declaration: `export function x() { <body> }`
    Function(&'a Json),
}

impl<'a> View for Export<'a> {
    type V = ExportV;

    open spec fn view(&self) -> ExportV {
        match self {
            Export::Expression(e) => ExportV::Expression(e@),
            Export::Function(f) => ExportV::Function(f@),
        }
    }
}

/// What some exports hold.
pub open spec fn export_models(s: Seq<Export>) -> Seq<ExportV> {
    s.map_values(|e: Export| e@)
}

/// The export that a function declaration stands for: none where it has no body.
pub open spec fn function_export(f: JsonV) -> Seq<ExportV> {
    if present(f, "body"@) {
        seq![ExportV::Function(f)]
    } else {
        Seq::empty()
    }
}

/// What a statement exports under a name, where it settles that: a function of that name, or
/// whatever is the default.
pub open spec fn settled_by(stmt: JsonV, name: Seq<char>) -> Option<Seq<ExportV>> {
    let decl = child(stmt, "declaration"@);
    if type_is(stmt, "ExportNamedDeclaration"@) {
        if is_function_declaration(decl) && identifier(child(decl, "id"@)) == Some(name) {
            Some(function_export(decl))
        } else {
            None
        }
    } else if type_is(stmt, "ExportDefaultDeclaration"@) {
        if is_function_declaration(decl) {
            Some(function_export(decl))
        } else if is_class_declaration(decl) || type_is(decl, "TSInterfaceDeclaration"@) || field(
            stmt,
            "declaration"@,
        ) is None {
            None
        } else {
            Some(seq![ExportV::Expression(decl)])
        }
    } else {
        None
    }
}

/// What the statements from index `i` on export under a name, as the first that settles it says.
pub open spec fn settled(body: Seq<JsonV>, i: int, name: Seq<char>) -> Option<Seq<ExportV>>
    decreases body.len() - i,
{
    if i < 0 || i >= body.len() {
        None
    } else {
        match settled_by(body[i], name) {
            Some(e) => Some(e),
            None => settled(body, i + 1, name),
        }
    }
}

/// The name of an import or export specifier, which may be a string.
pub open spec fn export_name(v: JsonV) -> Option<Seq<char>> {
    match identifier(v) {
        Some(n) => Some(n),
        None => string_literal(v),
    }
}

/// The local name that the first of the specifiers, from index `i` on, exports under a name.
pub open spec fn renamed_from(specifiers: Seq<JsonV>, i: int, name: Seq<char>) -> Option<Seq<char>>
    decreases specifiers.len() - i,
{
    if i < 0 || i >= specifiers.len() {
        None
    } else if export_name(child(specifiers[i], "exported"@)) == Some(name) {
        match export_name(child(specifiers[i], "local"@)) {
            Some(local) => Some(local),
            None => Some(Seq::empty()),
        }
    } else {
        renamed_from(specifiers, i + 1, name)
    }
}

/// What a module exports under a name, over at most `left` more re-exports.
pub open spec fn exports_of(
    modules: Seq<ModuleV>,
    k: int,
    name: Seq<char>,
    left: nat,
) -> Seq<ExportV>
    decreases left, 1nat, 0nat,
{
    if k < 0 || k >= modules.len() {
        Seq::empty()
    } else {
        match modules[k].program {
            None => Seq::empty(),
            Some(program) => {
                let body = children(program, "body"@);
                match named(local_exprs(body, body.len() as int), name) {
                    Some(e) => seq![ExportV::Expression(e)],
                    None => match settled(body, 0, name) {
                        Some(found) => found,
                        None => reexports(modules, k, body, 0, name, left),
                    },
                }
            },
        }
    }
}

/// What the statements from index `i` on of a module re-export under a name. An `export *` is
/// searched and the search goes on; a named re-export ends it.
pub open spec fn reexports(
    modules: Seq<ModuleV>,
    k: int,
    body: Seq<JsonV>,
    i: int,
    name: Seq<char>,
    left: nat,
) -> Seq<ExportV>
    decreases left, 0nat, body.len() - i,
{
    if i < 0 || i >= body.len() || left == 0 {
        Seq::empty()
    } else {
        let stmt = body[i];
        match (string_literal(child(stmt, "source"@)), renamed_from(
            children(stmt, "specifiers"@),
            0,
            name,
        )) {
            (Some(path), Some(local)) if type_is(stmt, "ExportNamedDeclaration"@) => match named(
                modules[k].links,
                path,
            ) {
                Some(j) => exports_of(modules, j as int, local, (left - 1) as nat),
                None => Seq::empty(),
            },
            (Some(path), _) if type_is(stmt, "ExportAllDeclaration"@) => (match named(
                modules[k].links,
                path,
            ) {
                Some(j) => exports_of(modules, j as int, name, (left - 1) as nat),
                None => Seq::empty(),
            }) + reexports(modules, k, body, i + 1, name, left),
            _ => reexports(modules, k, body, i + 1, name, left),
        }
    }
}

fn get_export_name(node: &Json) -> (r: Option<&str>)
    ensures
        match r {
            Some(n) => export_name(node@) == Some(n@),
            None => export_name(node@) is None,
        },
{
    match get_identifier(node) {
        Some(n) => Some(n),
        None => get_string_literal(node),
    }
}

/// The name in a field of a specifier.
fn name_in<'a>(specifier: &'a Json, key: &str) -> (r: Option<&'a str>)
    ensures
        match r {
            Some(n) => export_name(child(specifier@, key@)) == Some(n@),
            None => export_name(child(specifier@, key@)) is None,
        },
{
    match specifier.get(key) {
        Some(x) => get_export_name(x),
        None => None,
    }
}

fn find_renamed(stmt: &Json, name: &str) -> (r: Option<String>)
    ensures
        opt_view(r) == renamed_from(children(stmt@, "specifiers"@), 0, name@),
{
    let specifiers = get_children(stmt, "specifiers");
    let ghost list = children(stmt@, "specifiers"@);
    let mut i: usize = 0;
    while i < specifiers.len()
        invariant
            i <= specifiers@.len(),
            list == node_models(specifiers@),
            list == children(stmt@, "specifiers"@),
            renamed_from(list, 0, name@) == renamed_from(list, i as int, name@),
        decreases specifiers.len() - i,
    {
        assert(list[i as int] == specifiers@[i as int]@);
        if let Some(exported) = name_in(specifiers[i], "exported") {
            if same(exported, name) {
                return match name_in(specifiers[i], "local") {
                    Some(local) => Some(local.to_owned()),
                    None => {
                        let r = String::new();
                        assert(r@ =~= Seq::<char>::empty());
                        Some(r)
                    },
                };
            }
        }
        i = i + 1;
    }
    None
}

fn one_function<'a>(f: &'a Json) -> (r: Vec<Export<'a>>)
    ensures
        export_models(r@) == function_export(f@),
{
    let mut r: Vec<Export<'a>> = Vec::new();
    if check_present(f, "body") {
        r.push(Export::Function(f));
    }
    assert(export_models(r@) =~= function_export(f@));
    r
}

fn settle<'a>(stmt: &'a Json, name: &str) -> (r: Option<Vec<Export<'a>>>)
    ensures
        (match r {
            Some(v) => Some(export_models(v@)),
            None => None,
        }) == settled_by(stmt@, name@),
{
    let decl = match stmt.get("declaration") {
        Some(d) => d,
        None => return None,
    };
    if is_type(stmt, "ExportNamedDeclaration") {
        if check_function_declaration(decl) {
            if let Some(id) = decl.get("id") {
                if let Some(n) = get_identifier(id) {
                    if same(n, name) {
                        return Some(one_function(decl));
                    }
                }
            }
        }
        None
    } else if is_type(stmt, "ExportDefaultDeclaration") {
        if check_function_declaration(decl) {
            Some(one_function(decl))
        } else if is_type(decl, "ClassDeclaration") || is_type(decl, "TSInterfaceDeclaration") {
            None
        } else {
            let mut r: Vec<Export<'a>> = Vec::new();
            r.push(Export::Expression(decl));
            assert(export_models(r@) =~= seq![ExportV::Expression(decl@)]);
            Some(r)
        }
    } else {
        None
    }
}

fn settle_all<'a>(stmts: &Vec<&'a Json>, name: &str) -> (r: Option<Vec<Export<'a>>>)
    ensures
        (match r {
            Some(v) => Some(export_models(v@)),
            None => None,
        }) == settled(node_models(stmts@), 0, name@),
{
    let ghost body = node_models(stmts@);
    let mut i: usize = 0;
    while i < stmts.len()
        invariant
            i <= stmts@.len(),
            body == node_models(stmts@),
            settled(body, 0, name@) == settled(body, i as int, name@),
        decreases stmts.len() - i,
    {
        assert(body[i as int] == stmts@[i as int]@);
        if let Some(found) = settle(stmts[i], name) {
            return Some(found);
        }
        i = i + 1;
    }
    None
}

/// The module path that a statement imports or re-exports from.
pub fn source_of(stmt: &Json) -> (r: Option<&str>)
    ensures
        match r {
            Some(s) => string_literal(child(stmt@, "source"@)) == Some(s@),
            None => string_literal(child(stmt@, "source"@)) is None,
        },
{
    match stmt.get("source") {
        Some(s) => get_string_literal(s),
        None => None,
    }
}

fn follow<'a>(modules: &'a Vec<Module>, k: usize, path: &str, name: &str, left: usize) -> (r: Vec<
    Export<'a>,
>)
    requires
        k < modules@.len(),
        left > 0,
    ensures
        export_models(r@) == (match named(module_models(modules@)[k as int].links, path@) {
            Some(j) => exports_of(module_models(modules@), j as int, name@, (left - 1) as nat),
            None => Seq::empty(),
        }),
    decreases left, 0nat, 0nat,
{
    assert(module_models(modules@)[k as int] == modules@[k as int]@);
    match find_link(&modules[k].links, path) {
        Some(j) => resolve_cross_file_export(modules, j, name, left - 1),
        None => {
            let r: Vec<Export<'a>> = Vec::new();
            assert(export_models(r@) =~= Seq::<ExportV>::empty());
            r
        },
    }
}

/// Resolve a named export from a module, following re-export chains over at most `left` more
/// files.
///
/// Finds variable initialisers, function declarations and default exports. If the name is
/// re-exported from another file, follows the chain.
pub fn resolve_cross_file_export<'a>(
    modules: &'a Vec<Module>,
    k: usize,
    name: &str,
    left: usize,
) -> (r: Vec<Export<'a>>)
    ensures
        export_models(r@) == exports_of(module_models(modules@), k as int, name@, left as nat),
    decreases left, 1nat, 0nat,
{
    let ghost all = module_models(modules@);
    let mut out: Vec<Export<'a>> = Vec::new();
    assert(export_models(out@) =~= Seq::<ExportV>::empty());
    if k >= modules.len() {
        return out;
    }
    assert(all[k as int] == modules@[k as int]@);
    let program = match &modules[k].program {
        Some(p) => p,
        None => return out,
    };
    let stmts = get_children(program, "body");
    let ghost body = children(program@, "body"@);
    let locals = build_local_expr_map(&stmts);
    if let Some(e) = find_local(&locals, name) {
        out.push(Export::Expression(e));
        assert(export_models(out@) =~= seq![ExportV::Expression(e@)]);
        return out;
    }
    if let Some(found) = settle_all(&stmts, name) {
        return found;
    }
    if left == 0 {
        return out;
    }
    let ghost whole = reexports(all, k as int, body, 0, name@, left as nat);
    let mut i: usize = 0;
    while i < stmts.len()
        invariant
            i <= stmts@.len(),
            k < modules@.len(),
            left > 0,
            all == module_models(modules@),
            body == node_models(stmts@),
            exports_of(all, k as int, name@, left as nat) == whole,
            whole == export_models(out@) + reexports(
                all,
                k as int,
                body,
                i as int,
                name@,
                left as nat,
            ),
        decreases stmts.len() - i,
    {
        let stmt = stmts[i];
        assert(body[i as int] == stmt@);
        if let Some(path) = source_of(stmt) {
            if is_type(stmt, "ExportNamedDeclaration") {
                if let Some(local) = find_renamed(stmt, name) {
                    let mut more = follow(modules, k, path, local.as_str(), left);
                    append_exports(&mut out, &mut more);
                    return out;
                }
            }
            if is_type(stmt, "ExportAllDeclaration") {
                let ghost before = export_models(out@);
                let mut more = follow(modules, k, path, name, left);
                let ghost own = export_models(more@);
                append_exports(&mut out, &mut more);
                let ghost rest = reexports(all, k as int, body, i + 1, name@, left as nat);
                assert(before + (own + rest) =~= (before + own) + rest);
            }
        }
        i = i + 1;
    }
    assert(whole =~= export_models(out@));
    out
}

fn append_exports<'a>(out: &mut Vec<Export<'a>>, more: &mut Vec<Export<'a>>)
    ensures
        export_models(final(out)@) == export_models(old(out)@) + export_models(old(more)@),
{
    out.append(more);
    assert(export_models(out@) =~= export_models(old(out)@) + export_models(old(more)@));
}

/// The module paths of the first `n` statements that re-export from another file.
pub open spec fn reexport_paths(body: Seq<JsonV>, n: int) -> Seq<Seq<char>>
    decreases n,
{
    if n <= 0 || n > body.len() {
        Seq::empty()
    } else {
        let before = reexport_paths(body, n - 1);
        let stmt = body[n - 1];
        match string_literal(child(stmt, "source"@)) {
            Some(path) => if type_is(stmt, "ExportNamedDeclaration"@) || type_is(
                stmt,
                "ExportAllDeclaration"@,
            ) {
                before.push(path)
            } else {
                before
            },
            None => before,
        }
    }
}

/// The module paths that a file re-exports from: what has to be looked up before its exports can
/// be resolved.
pub fn reexport_sources(program: &Json) -> (out: Vec<String>)
    ensures
        texts(out@) == reexport_paths(
            children(program@, "body"@),
            children(program@, "body"@).len() as int,
        ),
{
    let stmts = get_children(program, "body");
    let ghost body = children(program@, "body"@);
    let mut out: Vec<String> = Vec::new();
    assert(texts(out@) =~= Seq::<Seq<char>>::empty());
    let mut i: usize = 0;
    while i < stmts.len()
        invariant
            i <= stmts@.len(),
            body == node_models(stmts@),
            texts(out@) == reexport_paths(body, i as int),
        decreases stmts.len() - i,
    {
        let stmt = stmts[i];
        assert(body[i as int] == stmt@);
        if let Some(path) = source_of(stmt) {
            if is_type(stmt, "ExportNamedDeclaration") || is_type(stmt, "ExportAllDeclaration") {
                let ghost before = out@;
                out.push(path.to_owned());
                assert(texts(out@) =~= texts(before).push(path@));
            }
        }
        i = i + 1;
    }
    out
}

} // verus!
