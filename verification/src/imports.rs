//! Import declarations of a file.

use crate::estree::{
    child, children, get_children, get_identifier, get_string_literal, identifier, is_type,
    node_models, string_literal, type_is,
};
use crate::json::{Json, JsonV};
use crate::lookup::{find_named, list_names, named, names_of};
use vstd::prelude::*;

verus! {

/// Import map: local identifier name to module source path. Of two imports of one name the later
/// counts.
#[derive(Debug)]
pub struct ImportMap {
    pub entries: Vec<(String, String)>,
}

impl View for ImportMap {
    type V = Seq<(Seq<char>, Seq<char>)>;

    open spec fn view(&self) -> Seq<(Seq<char>, Seq<char>)> {
        self.entries@.map_values(|e: (String, String)| (e.0@, e.1@))
    }
}

impl ImportMap {
    /// A map without entries.
    pub fn new() -> (r: ImportMap)
        ensures
            r@ == Seq::<(Seq<char>, Seq<char>)>::empty(),
    {
        let r = ImportMap { entries: Vec::new() };
        assert(r@ =~= Seq::<(Seq<char>, Seq<char>)>::empty());
        r
    }

    /// Adds an import.
    pub fn insert(&mut self, name: &str, module: &str)
        ensures
            final(self)@ == old(self)@.push((name@, module@)),
    {
        self.entries.push((name.to_owned(), module.to_owned()));
        assert(self@ =~= old(self)@.push((name@, module@)));
    }

    /// The module that a name is imported from.
    pub fn get(&self, name: &str) -> (r: Option<&str>)
        ensures
            match r {
                Some(m) => named(self@, name@) == Some(m@),
                None => named(self@, name@) is None,
            },
    {
        assert(names_of(self@) =~= list_names(self.entries@));
        match find_named(&self.entries, name) {
            Some(i) => Some(self.entries[i].1.as_str()),
            None => None,
        }
    }
}

/// The imports of the first `n` specifiers of a declaration.
pub open spec fn specifier_entries(specifiers: Seq<JsonV>, n: int, module: Seq<char>) -> Seq<
    (Seq<char>, Seq<char>),
>
    decreases n,
{
    if n <= 0 || n > specifiers.len() {
        Seq::empty()
    } else {
        let before = specifier_entries(specifiers, n - 1, module);
        match identifier(child(specifiers[n - 1], "local"@)) {
            Some(name) => before.push((name, module)),
            None => before,
        }
    }
}

/// The imports of a statement.
pub open spec fn statement_imports(v: JsonV) -> Seq<(Seq<char>, Seq<char>)> {
    match string_literal(child(v, "source"@)) {
        Some(module) => if type_is(v, "ImportDeclaration"@) {
            let specifiers = children(v, "specifiers"@);
            specifier_entries(specifiers, specifiers.len() as int, module)
        } else {
            Seq::empty()
        },
        None => Seq::empty(),
    }
}

/// The imports of the first `n` statements.
pub open spec fn imports_of(body: Seq<JsonV>, n: int) -> Seq<(Seq<char>, Seq<char>)>
    decreases n,
{
    if n <= 0 || n > body.len() {
        Seq::empty()
    } else {
        imports_of(body, n - 1) + statement_imports(body[n - 1])
    }
}

fn add_imports(map: &mut ImportMap, stmt: &Json)
    ensures
        final(map)@ == old(map)@ + statement_imports(stmt@),
{
    let ghost before = map@;
    assert(before + Seq::<(Seq<char>, Seq<char>)>::empty() =~= before);
    if !is_type(stmt, "ImportDeclaration") {
        return;
    }
    let source = match stmt.get("source") {
        Some(s) => s,
        None => return,
    };
    let module = match get_string_literal(source) {
        Some(m) => m,
        None => return,
    };
    let specifiers = get_children(stmt, "specifiers");
    let ghost list = children(stmt@, "specifiers"@);
    let mut i: usize = 0;
    while i < specifiers.len()
        invariant
            i <= specifiers@.len(),
            list == node_models(specifiers@),
            map@ == before + specifier_entries(list, i as int, module@),
        decreases specifiers.len() - i,
    {
        assert(list[i as int] == specifiers@[i as int]@);
        if let Some(local) = specifiers[i].get("local") {
            if let Some(name) = get_identifier(local) {
                map.insert(name, module);
            }
        }
        i = i + 1;
        assert(map@ =~= before + specifier_entries(list, i as int, module@));
    }
}

/// Build the import map of a program: the local names of default, named and namespace imports.
pub fn build_import_map(program: &Json) -> (r: ImportMap)
    ensures
        r@ == imports_of(children(program@, "body"@), children(program@, "body"@).len() as int),
{
    let body = get_children(program, "body");
    let ghost list = children(program@, "body"@);
    let mut map = ImportMap::new();
    let mut i: usize = 0;
    while i < body.len()
        invariant
            i <= body@.len(),
            list == node_models(body@),
            map@ == imports_of(list, i as int),
        decreases body.len() - i,
    {
        assert(list[i as int] == body@[i as int]@);
        add_imports(&mut map, body[i]);
        i = i + 1;
    }
    map
}

} // verus!
