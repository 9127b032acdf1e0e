//! What the names in a file stand for: its local variables, its imports, and what the files that
//! it imports from export.

use crate::exports::{
    export_models, exports_of, find_link, link_models, module_models, resolve_cross_file_export,
    Export, ExportV, Module, ModuleV, MAX_REEXPORT_DEPTH,
};
use crate::imports::ImportMap;
use crate::json::{Json, JsonV};
use crate::locals::local_models;
use crate::lookup::{find_named, list_names, named, names_of};
use crate::text::texts;
use vstd::prelude::*;

verus! {

/// The files that a file reaches through its imports.
#[derive(Debug)]
pub struct Neighbours {
    pub modules: Vec<Module>,
    /// The module paths that lead to one of the modules. Those that lead to no file, or to an
    /// installed package, are left out.
    pub links: Vec<(String, usize)>,
    /// The imported names that a project index leads to one of the modules.
    pub indexed: Vec<(String, usize)>,
    /// The imported names of objects whose properties a project index knows.
    pub properties: Vec<(String, Vec<String>)>,
}

/// What is known of the files that a file reaches.
pub ghost struct NeighboursV {
    pub modules: Seq<ModuleV>,
    pub links: Seq<(Seq<char>, usize)>,
    pub indexed: Seq<(Seq<char>, usize)>,
    pub properties: Seq<(Seq<char>, Seq<Seq<char>>)>,
}

/// What is known of the properties of imported objects.
pub open spec fn property_models(s: Seq<(String, Vec<String>)>) -> Seq<(Seq<char>, Seq<Seq<char>>)> {
    s.map_values(|e: (String, Vec<String>)| (e.0@, texts(e.1@)))
}

impl View for Neighbours {
    type V = NeighboursV;

    open spec fn view(&self) -> NeighboursV {
        NeighboursV {
            modules: module_models(self.modules@),
            links: link_models(self.links@),
            indexed: link_models(self.indexed@),
            properties: property_models(self.properties@),
        }
    }
}

impl Neighbours {
    /// No files at all.
    pub fn none() -> (r: Neighbours)
        ensures
            r@ == no_neighbours(),
    {
        let r = Neighbours {
            modules: Vec::new(),
            links: Vec::new(),
            indexed: Vec::new(),
            properties: Vec::new(),
        };
        assert(r@.modules =~= no_neighbours().modules);
        assert(r@.links =~= no_neighbours().links);
        assert(r@.indexed =~= no_neighbours().indexed);
        assert(r@.properties =~= no_neighbours().properties);
        r
    }
}

/// No files at all.
pub open spec fn no_neighbours() -> NeighboursV {
    NeighboursV {
        modules: Seq::empty(),
        links: Seq::empty(),
        indexed: Seq::empty(),
        properties: Seq::empty(),
    }
}

/// What the names in a file stand for.
pub ghost struct ScopeV {
    pub locals: Seq<(Seq<char>, JsonV)>,
    pub imports: Seq<(Seq<char>, Seq<char>)>,
    pub neighbours: NeighboursV,
}

/// What the names in a file stand for.
pub struct Scope<'a> {
    pub locals: &'a Vec<(String, &'a Json)>,
    pub imports: &'a ImportMap,
    pub neighbours: &'a Neighbours,
}

impl<'a> View for Scope<'a> {
    type V = ScopeV;

    open spec fn view(&self) -> ScopeV {
        ScopeV {
            locals: local_models(self.locals@),
            imports: self.imports@,
            neighbours: self.neighbours@,
        }
    }
}

impl ScopeV {
    /// What the file that an imported name comes from exports under it.
    pub open spec fn exported(self, name: Seq<char>) -> Seq<ExportV> {
        match named(self.imports, name) {
            Some(path) => match named(self.neighbours.links, path) {
                Some(k) => exports_of(
                    self.neighbours.modules,
                    k as int,
                    name,
                    MAX_REEXPORT_DEPTH as nat,
                ),
                None => Seq::empty(),
            },
            None => Seq::empty(),
        }
    }

    /// What the file that an imported name comes from exports under it, where a project index
    /// goes before the module paths.
    pub open spec fn exported_by_index(self, name: Seq<char>) -> Seq<ExportV> {
        match (named(self.imports, name), named(self.neighbours.indexed, name)) {
            (Some(_), Some(k)) => exports_of(
                self.neighbours.modules,
                k as int,
                name,
                MAX_REEXPORT_DEPTH as nat,
            ),
            _ => self.exported(name),
        }
    }

    /// The properties of an imported object, where a project index knows them.
    pub open spec fn known_properties(self, name: Seq<char>) -> Option<Seq<Seq<char>>> {
        match named(self.imports, name) {
            Some(_) => named(self.neighbours.properties, name),
            None => None,
        }
    }
}

impl<'a> Scope<'a> {
    /// What the file that an imported name comes from exports under it.
    pub fn find_exports(&self, name: &str) -> (r: Vec<Export<'a>>)
        ensures
            export_models(r@) == self@.exported(name@),
    {
        if let Some(path) = self.imports.get(name) {
            if let Some(k) = find_link(&self.neighbours.links, path) {
                return resolve_cross_file_export(
                    &self.neighbours.modules,
                    k,
                    name,
                    MAX_REEXPORT_DEPTH,
                );
            }
        }
        let r: Vec<Export<'a>> = Vec::new();
        assert(export_models(r@) =~= Seq::<ExportV>::empty());
        r
    }

    /// What the file that an imported name comes from exports under it, where a project index
    /// goes before the module paths.
    pub fn find_indexed_exports(&self, name: &str) -> (r: Vec<Export<'a>>)
        ensures
            export_models(r@) == self@.exported_by_index(name@),
    {
        if self.imports.get(name).is_some() {
            if let Some(k) = find_link(&self.neighbours.indexed, name) {
                return resolve_cross_file_export(
                    &self.neighbours.modules,
                    k,
                    name,
                    MAX_REEXPORT_DEPTH,
                );
            }
        }
        self.find_exports(name)
    }

    /// The properties of an imported object, where a project index knows them.
    pub fn find_properties(&self, name: &str) -> (r: Option<&'a Vec<String>>)
        ensures
            (match r {
                Some(v) => Some(texts(v@)),
                None => None,
            }) == self@.known_properties(name@),
    {
        if self.imports.get(name).is_none() {
            return None;
        }
        let list = &self.neighbours.properties;
        assert(names_of(property_models(list@)) =~= list_names(list@));
        match find_named(list, name) {
            Some(i) => Some(&list[i].1),
            None => None,
        }
    }
}

} // verus!
