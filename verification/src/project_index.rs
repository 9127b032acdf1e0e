//! An index of a React project: what its files import, define and refer to.

use crate::lookup::{find_named, last_index_of, list_names};
use vstd::prelude::*;

verus! {

/// The bytes from one offset up to another.
#[derive(Debug, Clone, Copy, PartialEq, Eq, Structural)]
pub struct Span {
    pub start: u32,
    pub end: u32,
}

impl Span {
    /// Whether the span lies within another.
    pub open spec fn within(self, outer: Span) -> bool {
        outer.start <= self.start && self.end <= outer.end
    }

    /// The number of bytes.
    pub open spec fn size(self) -> int {
        self.end - self.start
    }

    /// Whether the span lies within another.
    pub fn is_within(&self, outer: Span) -> (r: bool)
        ensures
            r == self.within(outer),
    {
        outer.start <= self.start && self.end <= outer.end
    }

    /// The number of bytes.
    pub fn width(&self) -> (r: i64)
        ensures
            r == self.size(),
    {
        self.end as i64 - self.start as i64
    }
}

/// A name that an import declaration binds.
#[derive(Debug)]
pub struct ImportedSymbol {
    /// The exported name; `default` and `*` for default and namespace imports.
    pub name: String,
    /// The local name, where it is another.
    pub alias: Option<String>,
    pub span: Span,
}

/// An import, or a re-export, of names from another module.
#[derive(Debug)]
pub struct ImportDecl {
    /// The package that the module belongs to.
    pub source: String,
    /// The module path as it is written.
    pub raw_specifier: Option<String>,
    /// The names; none for `export *`.
    pub symbols: Vec<ImportedSymbol>,
    pub is_reexport: bool,
}

/// A type that a variable is declared with.
#[derive(Debug)]
pub struct TypeAnnotation {
    pub name: Option<String>,
    pub type_arguments: Vec<TypeAnnotation>,
    /// The members of a union or an intersection.
    pub components: Vec<TypeAnnotation>,
}

/// Whether a component passes its children through, and what it wraps them in.
#[derive(Debug)]
pub struct Transparency {
    pub is_transparent: bool,
    pub wraps_in: Option<String>,
}

/// An object literal, inside a function, that is declared with a type.
#[derive(Debug)]
pub struct TypedObject {
    /// The type as it is written.
    pub type_name_text: String,
    pub properties: Vec<String>,
    pub span: Span,
}

/// A definition.
#[derive(Debug)]
pub struct SymbolDef {
    pub name: String,
    pub span: Span,
    pub exported: bool,
    /// The type of a variable or a constant.
    pub type_annotation: Option<TypeAnnotation>,
    pub transparency: Option<Transparency>,
    /// The property names of the object that is defined, or that a function returns.
    pub object_properties: Vec<String>,
    pub typed_local_objects: Vec<TypedObject>,
}

/// A prop of a JSX element.
#[derive(Debug)]
pub struct JsxProp {
    pub name: String,
    pub is_spread: bool,
    /// The value, where it is a string.
    pub string_value: Option<String>,
    /// The source text of the value, where it is an expression.
    pub expression_text: Option<String>,
    pub span: Span,
    /// The keys of the object that is the value.
    pub nested_object_keys: Vec<String>,
    /// The property names of what is spread, where they stand there.
    pub spread_properties: Vec<String>,
}

/// A place that refers to a name.
#[derive(Debug)]
pub struct SymbolRef {
    pub name: String,
    pub span: Span,
    pub is_jsx_component: bool,
    pub is_type_position: bool,
    /// The first argument of a call, where it is a string.
    pub call_arg_value: Option<String>,
    pub jsx_props: Vec<JsxProp>,
    /// The component around a JSX element.
    pub parent_component: Option<String>,
    pub enclosing_function_span: Option<Span>,
    /// The whole of a JSX element, with its children.
    pub jsx_element_span: Option<Span>,
}

/// A file of the project.
#[derive(Debug)]
pub struct IndexedFile {
    pub path: String,
    pub source_text: String,
    pub imports: Vec<ImportDecl>,
    pub symbol_defs: Vec<SymbolDef>,
    pub symbol_refs: Vec<SymbolRef>,
}

/// The files of a project, by package.
#[derive(Debug)]
pub struct ProjectIndex {
    pub packages: Vec<(String, Vec<IndexedFile>)>,
}

/// The files of the first `n` packages.
pub open spec fn files_of(packages: Seq<(String, Vec<IndexedFile>)>, n: int) -> Seq<IndexedFile>
    decreases n,
{
    if n <= 0 || n > packages.len() {
        Seq::empty()
    } else {
        files_of(packages, n - 1) + packages[n - 1].1@
    }
}

/// What references to files refer to.
pub open spec fn file_models(s: Seq<&IndexedFile>) -> Seq<IndexedFile> {
    s.map_values(|f: &IndexedFile| *f)
}

impl ProjectIndex {
    /// All files.
    pub open spec fn files(self) -> Seq<IndexedFile> {
        files_of(self.packages@, self.packages@.len() as int)
    }

    /// The files of a package.
    pub open spec fn package(self, name: Seq<char>) -> Option<Seq<IndexedFile>> {
        match last_index_of(list_names(self.packages@), name, self.packages@.len() as int) {
            Some(i) => Some(self.packages@[i].1@),
            None => None,
        }
    }

    /// All files.
    pub fn list_files(&self) -> (out: Vec<&IndexedFile>)
        ensures
            file_models(out@) == self.files(),
    {
        let mut out: Vec<&IndexedFile> = Vec::new();
        assert(file_models(out@) =~= Seq::<IndexedFile>::empty());
        let mut p: usize = 0;
        while p < self.packages.len()
            invariant
                p <= self.packages@.len(),
                file_models(out@) == files_of(self.packages@, p as int),
            decreases self.packages.len() - p,
        {
            let files = &self.packages[p].1;
            let ghost before = file_models(out@);
            let mut i: usize = 0;
            assert(before + files@.take(0) =~= before);
            while i < files.len()
                invariant
                    i <= files@.len(),
                    file_models(out@) == before + files@.take(i as int),
                decreases files.len() - i,
            {
                let ghost so_far = file_models(out@);
                out.push(&files[i]);
                assert(file_models(out@) =~= so_far.push(files@[i as int]));
                i = i + 1;
                assert(files@.take(i as int) =~= files@.take(i - 1).push(files@[i - 1]));
                assert(so_far.push(files@[i - 1]) =~= before + files@.take(i as int));
            }
            assert(files@.take(files@.len() as int) =~= files@);
            p = p + 1;
        }
        out
    }

    /// The files of a package.
    pub fn find_package(&self, name: &str) -> (r: Option<&Vec<IndexedFile>>)
        ensures
            (match r {
                Some(v) => Some(v@),
                None => None,
            }) == self.package(name@),
    {
        match find_named(&self.packages, name) {
            Some(i) => Some(&self.packages[i].1),
            None => None,
        }
    }
}

/// The name under which an imported symbol is known in the file.
pub open spec fn local_name(s: ImportedSymbol) -> Seq<char> {
    match s.alias {
        Some(a) => a@,
        None => s.name@,
    }
}

/// The module path of an import as it is written, or else its package.
pub open spec fn specifier(i: ImportDecl) -> Seq<char> {
    match i.raw_specifier {
        Some(s) => s@,
        None => i.source@,
    }
}

impl ImportedSymbol {
    /// The name under which the symbol is known in the file.
    pub fn get_local_name(&self) -> (r: &str)
        ensures
            r@ == local_name(*self),
    {
        match &self.alias {
            Some(a) => a.as_str(),
            None => self.name.as_str(),
        }
    }
}

impl ImportDecl {
    /// The module path as it is written, or else the package.
    pub fn get_specifier(&self) -> (r: &str)
        ensures
            r@ == specifier(*self),
    {
        match &self.raw_specifier {
            Some(s) => s.as_str(),
            None => self.source.as_str(),
        }
    }
}

} // verus!
