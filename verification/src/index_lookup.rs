//! Index-based lookups for cross-file data: what the files of a project say of the components and
//! objects that a file imports.

use crate::imports::ImportMap;
use crate::incident::opt_view;
use crate::jsx_context::wrapper_models;
use crate::paths::{components, part_models, parts_of, segment_parts, Part};
use crate::project_index::{
    file_models, local_name, specifier, ImportDecl, ImportedSymbol, IndexedFile, ProjectIndex,
    SymbolDef,
};
use crate::text::{
    chars_of, concat, concat3, last_index, rfind_char, same, split, starts_with, text_of, texts,
};
use vstd::prelude::*;

verus! {

/// A pre-built lookup of files by path. Of two files with one path the later counts.
pub struct FileIndex<'a> {
    pub files: Vec<&'a IndexedFile>,
}

/// The index of the last of the first `n` files whose path has the given components.
pub open spec fn file_at(
    files: Seq<IndexedFile>,
    parts: Seq<(Part, Seq<char>)>,
    n: int,
) -> Option<int>
    decreases n,
{
    if n <= 0 || n > files.len() {
        None
    } else if components(files[n - 1].path@) == parts {
        Some(n - 1)
    } else {
        file_at(files, parts, n - 1)
    }
}

/// The file whose path has the given components.
pub open spec fn file_with(files: Seq<IndexedFile>, parts: Seq<(Part, Seq<char>)>) -> Option<
    IndexedFile,
> {
    match file_at(files, parts, files.len() as int) {
        Some(i) => Some(files[i]),
        None => None,
    }
}

/// What one more component makes of a path: a parent directory takes back the name before it, and
/// the root is its own parent.
pub open spec fn stepped(before: Seq<(Part, Seq<char>)>, part: (Part, Seq<char>)) -> Seq<
    (Part, Seq<char>),
> {
    if part.0 != Part::Parent || before.len() == 0 {
        before.push(part)
    } else if before.last().0 == Part::Name {
        before.drop_last()
    } else if before.last().0 == Part::Root {
        before
    } else {
        before.push(part)
    }
}

/// The first `n` components of a path, each parent directory resolved.
pub open spec fn settled(parts: Seq<(Part, Seq<char>)>, n: int) -> Seq<(Part, Seq<char>)>
    decreases n,
{
    if n <= 0 || n > parts.len() {
        Seq::empty()
    } else {
        stepped(settled(parts, n - 1), parts[n - 1])
    }
}

/// The components of a relative module path from the directory of a file, each parent directory
/// resolved.
pub open spec fn based(path: Seq<char>, relative: Seq<char>) -> Seq<(Part, Seq<char>)> {
    settled(appended(path, relative), appended(path, relative).len() as int)
}

/// The components of the directory of a file, followed by those of a relative module path.
pub open spec fn appended(path: Seq<char>, relative: Seq<char>) -> Seq<(Part, Seq<char>)> {
    let dir = components(path).drop_last();
    if dir.len() == 0 {
        components(relative)
    } else {
        dir + segment_parts(split(relative, '/'), split(relative, '/').len() as int)
    }
}

/// A file name without its extension.
pub open spec fn stem(name: Seq<char>) -> Seq<char> {
    match last_index(name, '.', name.len() as int) {
        Some(i) => if i == 0 {
            name
        } else {
            name.take(i)
        },
        None => name,
    }
}

/// A path whose last component has another extension.
pub open spec fn with_extension(parts: Seq<(Part, Seq<char>)>, ext: Seq<char>) -> Seq<
    (Part, Seq<char>),
> {
    if parts.len() > 0 && parts.last().0 == Part::Name {
        parts.drop_last().push((Part::Name, stem(parts.last().1) + "."@ + ext))
    } else {
        parts
    }
}

/// The path of the index file of a directory.
pub open spec fn with_index(parts: Seq<(Part, Seq<char>)>, ext: Seq<char>) -> Seq<
    (Part, Seq<char>),
> {
    parts.push((Part::Name, "index."@ + ext))
}

/// The extensions that a module path may leave out.
pub open spec fn extensions() -> Seq<Seq<char>> {
    seq!["ts"@, "tsx"@, "js"@, "jsx"@, "mts"@, "mjs"@]
}

/// The first file that is found with one of the extensions from index `i` on.
pub open spec fn file_extended(
    files: Seq<IndexedFile>,
    parts: Seq<(Part, Seq<char>)>,
    i: int,
) -> Option<IndexedFile>
    decreases extensions().len() - i,
{
    if i < 0 || i >= extensions().len() {
        None
    } else {
        match file_with(files, with_extension(parts, extensions()[i])) {
            Some(f) => Some(f),
            None => file_extended(files, parts, i + 1),
        }
    }
}

/// The first index file of a directory that is found with one of the extensions from index `i`
/// on.
pub open spec fn file_inside(
    files: Seq<IndexedFile>,
    parts: Seq<(Part, Seq<char>)>,
    i: int,
) -> Option<IndexedFile>
    decreases extensions().len() - i,
{
    if i < 0 || i >= extensions().len() {
        None
    } else {
        match file_with(files, with_index(parts, extensions()[i])) {
            Some(f) => Some(f),
            None => file_inside(files, parts, i + 1),
        }
    }
}

/// The file that a module path in a file leads to: only relative paths are followed, as they
/// stand, with an extension, or to the index file of a directory.
pub open spec fn resolved(files: Seq<IndexedFile>, path: Seq<char>, relative: Seq<char>) -> Option<
    IndexedFile,
> {
    let parts = based(path, relative);
    if !("./"@.is_prefix_of(relative) || "../"@.is_prefix_of(relative)) || !has_parent(path) {
        None
    } else if file_with(files, parts) is Some {
        file_with(files, parts)
    } else if file_extended(files, parts, 0) is Some {
        file_extended(files, parts, 0)
    } else {
        file_inside(files, parts, 0)
    }
}

/// Whether a path has a parent directory: all but the root and the empty path.
pub open spec fn has_parent(path: Seq<char>) -> bool {
    components(path).len() > 0 && components(path).last().0 != Part::Root
}

/// The index of the first symbol, from index `i` on, that is known under a name.
pub open spec fn symbol_named(symbols: Seq<ImportedSymbol>, name: Seq<char>, i: int) -> Option<int>
    decreases symbols.len() - i,
{
    if i < 0 || i >= symbols.len() {
        None
    } else if local_name(symbols[i]) == name {
        Some(i)
    } else {
        symbol_named(symbols, name, i + 1)
    }
}

/// The file that a name is imported from, by the first of the imports, from index `i` on, that
/// binds it, with the name that it has there.
pub open spec fn origin(
    files: Seq<IndexedFile>,
    path: Seq<char>,
    imports: Seq<ImportDecl>,
    i: int,
    name: Seq<char>,
) -> Option<(Seq<char>, IndexedFile)>
    decreases imports.len() - i,
{
    if i < 0 || i >= imports.len() {
        None
    } else {
        match symbol_named(imports[i].symbols@, name, 0) {
            Some(k) => match resolved(files, path, specifier(imports[i])) {
                Some(f) => Some((imports[i].symbols@[k].name@, f)),
                None => None,
            },
            None => origin(files, path, imports, i + 1, name),
        }
    }
}

/// The index of the first exported definition, from index `i` on, of a name.
pub open spec fn exported_def(defs: Seq<SymbolDef>, name: Seq<char>, i: int) -> Option<int>
    decreases defs.len() - i,
{
    if i < 0 || i >= defs.len() {
        None
    } else if defs[i].exported && defs[i].name@ == name {
        Some(i)
    } else {
        exported_def(defs, name, i + 1)
    }
}

/// The definition of what a file imports under a name.
pub open spec fn imported_def(files: Seq<IndexedFile>, path: Seq<char>, name: Seq<char>) -> Option<
    SymbolDef,
> {
    match file_with(files, components(path)) {
        Some(file) => match origin(files, file.path@, file.imports@, 0, name) {
            Some((original, target)) => match exported_def(target.symbol_defs@, original, 0) {
                Some(k) => Some(target.symbol_defs@[k]),
                None => None,
            },
            None => None,
        },
        None => None,
    }
}

/// What a transparent component that a file imports wraps its children in; nothing where it is
/// not transparent.
pub open spec fn wrapper_of(files: Seq<IndexedFile>, path: Seq<char>, name: Seq<char>) -> Option<
    Option<Seq<char>>,
> {
    match imported_def(files, path, name) {
        Some(def) => match def.transparency {
            Some(t) => if t.is_transparent {
                Some(opt_view(t.wraps_in))
            } else {
                None
            },
            None => None,
        },
        None => None,
    }
}

/// The transparent components among the first `n` imports.
pub open spec fn transparent_among(
    files: Seq<IndexedFile>,
    path: Seq<char>,
    imports: Seq<(Seq<char>, Seq<char>)>,
    n: int,
) -> Seq<(Seq<char>, Option<Seq<char>>)>
    decreases n,
{
    if n <= 0 || n > imports.len() {
        Seq::empty()
    } else {
        let before = transparent_among(files, path, imports, n - 1);
        match wrapper_of(files, path, imports[n - 1].0) {
            Some(w) => before.push((imports[n - 1].0, w)),
            None => before,
        }
    }
}

fn same_parts(a: &Vec<(Part, String)>, b: &Vec<(Part, String)>) -> (r: bool)
    ensures
        r == (part_models(a@) == part_models(b@)),
{
    let ghost x = part_models(a@);
    let ghost y = part_models(b@);
    if a.len() != b.len() {
        assert(x.len() != y.len());
        return false;
    }
    let mut i: usize = 0;
    while i < a.len()
        invariant
            x == part_models(a@),
            y == part_models(b@),
            a@.len() == b@.len(),
            i <= a@.len(),
            forall|k: int| 0 <= k < i ==> x[k] == y[k],
        decreases a.len() - i,
    {
        assert(x[i as int] == (a@[i as int].0, a@[i as int].1@));
        assert(y[i as int] == (b@[i as int].0, b@[i as int].1@));
        if a[i].0 != b[i].0 || !same(a[i].1.as_str(), b[i].1.as_str()) {
            assert(x[i as int] != y[i as int]);
            return false;
        }
        i = i + 1;
    }
    assert(x =~= y);
    true
}

fn push_part(out: &mut Vec<(Part, String)>, part: Part, name: String)
    ensures
        part_models(final(out)@) == part_models(old(out)@).push((part, name@)),
{
    out.push((part, name));
    assert(part_models(out@) =~= part_models(old(out)@).push((part, name@)));
}

/// The first `n` components.
fn first_parts(parts: &Vec<(Part, String)>, n: usize) -> (out: Vec<(Part, String)>)
    requires
        n <= parts@.len(),
    ensures
        part_models(out@) == part_models(parts@).take(n as int),
{
    let mut out: Vec<(Part, String)> = Vec::new();
    let ghost all = part_models(parts@);
    assert(part_models(out@) =~= all.take(0));
    let mut i: usize = 0;
    while i < n
        invariant
            i <= n <= parts@.len(),
            all == part_models(parts@),
            part_models(out@) == all.take(i as int),
        decreases n - i,
    {
        assert(all[i as int] == (parts@[i as int].0, parts@[i as int].1@));
        push_part(&mut out, parts[i].0, parts[i].1.as_str().to_owned());
        i = i + 1;
        assert(part_models(out@) =~= all.take(i as int));
    }
    out
}

/// The components of a relative module path from the directory of a file, each parent directory
/// resolved.
fn base_parts(path: &str, relative: &str) -> (out: Vec<(Part, String)>)
    requires
        has_parent(path@),
        "./"@.is_prefix_of(relative@) || "../"@.is_prefix_of(relative@),
    ensures
        part_models(out@) == based(path@, relative@),
{
    let parts = append_parts(path, relative);
    let ghost all = part_models(parts@);
    let mut out: Vec<(Part, String)> = Vec::new();
    assert(part_models(out@) =~= settled(all, 0));
    let mut i: usize = 0;
    while i < parts.len()
        invariant
            i <= parts@.len(),
            all == part_models(parts@),
            part_models(out@) == settled(all, i as int),
        decreases parts.len() - i,
    {
        let ghost before = part_models(out@);
        assert(all[i as int] == (parts@[i as int].0, parts@[i as int].1@));
        let n: usize = out.len();
        if n > 0 {
            assert(before.last() == (out@.last().0, out@.last().1@));
        }
        if parts[i].0 == Part::Parent && n > 0 && out[n - 1].0 == Part::Name {
            out.pop();
            assert(part_models(out@) =~= before.drop_last());
        } else if parts[i].0 == Part::Parent && n > 0 && out[n - 1].0 == Part::Root {
        } else {
            push_part(&mut out, parts[i].0, parts[i].1.as_str().to_owned());
        }
        i = i + 1;
        assert(settled(all, i as int) == stepped(before, all[i - 1]));
    }
    out
}

/// The components of the directory of a file, followed by those of a relative module path.
fn append_parts(path: &str, relative: &str) -> (out: Vec<(Part, String)>)
    requires
        has_parent(path@),
        "./"@.is_prefix_of(relative@) || "../"@.is_prefix_of(relative@),
    ensures
        part_models(out@) == appended(path@, relative@),
{
    let own = parts_of(path);
    let ghost all = components(path@);
    let n: usize = own.len() - 1;
    if n == 0 {
        assert(all.drop_last().len() == 0);
        return parts_of(relative);
    }
    let mut out = first_parts(&own, n);
    assert(part_models(out@) =~= all.drop_last());
    let more = parts_of(relative);
    let ghost segments = split(relative@, '/');
    let ghost tail = segment_parts(segments, segments.len() as int);
    let ghost lead = crate::paths::leading_part(relative@);
    proof {
        reveal_strlit("./");
        reveal_strlit("../");
        assert("./"@.len() > 0 && "./"@[0] == '.');
        assert("../"@.len() > 0 && "../"@[0] == '.');
        assert(relative@[0] == '.');
    }
    let mut i: usize = if more.len() > 0 && more[0].0 == Part::Current {
        1
    } else {
        0
    };
    let ghost rest = part_models(more@);
    proof {
        assert(rest == lead + tail);
        assert(lead.len() == 0 || lead =~= seq![(Part::Current, Seq::<char>::empty())]);
        lemma_no_current(segments, segments.len() as int);
        if lead.len() == 0 {
            assert(rest =~= tail);
            if rest.len() > 0 {
                assert(rest[0] == (more@[0].0, more@[0].1@));
            }
            assert(i == 0);
        } else {
            assert(rest[0] == lead[0]);
            assert(rest[0] == (more@[0].0, more@[0].1@));
            assert(i == 1);
        }
        assert(i == lead.len());
        assert(rest.subrange(i as int, i as int) =~= Seq::<(Part, Seq<char>)>::empty());
    }
    let ghost before = part_models(out@);
    assert(before + rest.subrange(lead.len() as int, i as int) =~= before);
    while i < more.len()
        invariant
            lead.len() <= i <= more@.len(),
            rest == part_models(more@),
            part_models(out@) == before + rest.subrange(lead.len() as int, i as int),
        decreases more.len() - i,
    {
        assert(rest[i as int] == (more@[i as int].0, more@[i as int].1@));
        push_part(&mut out, more[i].0, more[i].1.as_str().to_owned());
        i = i + 1;
        assert(part_models(out@) =~= before + rest.subrange(lead.len() as int, i as int));
    }
    assert(rest.subrange(lead.len() as int, rest.len() as int) =~= tail);
    out
}

/// Only the beginning of a path can be the current directory.
proof fn lemma_no_current(segments: Seq<Seq<char>>, n: int)
    ensures
        forall|i: int|
            0 <= i < segment_parts(segments, n).len() ==> (#[trigger] segment_parts(
                segments,
                n,
            )[i]).0 != Part::Current,
    decreases n,
{
    if 0 < n <= segments.len() {
        lemma_no_current(segments, n - 1);
    }
}

/// A file name without its extension.
pub fn get_stem(name: &str) -> (r: String)
    ensures
        r@ == stem(name@),
{
    let c = chars_of(name);
    match rfind_char(&c, '.') {
        Some(i) => if i == 0 {
            name.to_owned()
        } else {
            assert(c@.subrange(0, i as int) =~= name@.take(i as int));
            text_of(&c, 0, i)
        },
        None => name.to_owned(),
    }
}

fn extend(parts: &Vec<(Part, String)>, ext: &str) -> (out: Vec<(Part, String)>)
    ensures
        part_models(out@) == with_extension(part_models(parts@), ext@),
{
    let ghost all = part_models(parts@);
    let n: usize = parts.len();
    if n > 0 {
        assert(all.last() == (parts@[n - 1].0, parts@[n - 1].1@));
        if parts[n - 1].0 == Part::Name {
            let mut out = first_parts(parts, n - 1);
            assert(part_models(out@) =~= all.drop_last());
            let name = get_stem(parts[n - 1].1.as_str());
            push_part(&mut out, Part::Name, concat3(name.as_str(), ".", ext));
            return out;
        }
    }
    let out = first_parts(parts, n);
    assert(all.take(n as int) =~= all);
    out
}

fn enter(parts: &Vec<(Part, String)>, ext: &str) -> (out: Vec<(Part, String)>)
    ensures
        part_models(out@) == with_index(part_models(parts@), ext@),
{
    let mut out = first_parts(parts, parts.len());
    let ghost all = part_models(parts@);
    assert(all.take(all.len() as int) =~= all);
    push_part(&mut out, Part::Name, concat("index.", ext));
    out
}

fn extension_list() -> (out: Vec<&'static str>)
    ensures
        out@.len() == extensions().len(),
        forall|i: int| 0 <= i < out@.len() ==> (#[trigger] out@[i])@ == extensions()[i],
{
    let mut out: Vec<&'static str> = Vec::new();
    out.push("ts");
    out.push("tsx");
    out.push("js");
    out.push("jsx");
    out.push("mts");
    out.push("mjs");
    out
}

impl<'a> FileIndex<'a> {
    /// What the lookup holds.
    pub open spec fn all(self) -> Seq<IndexedFile> {
        file_models(self.files@)
    }

    /// Build a file lookup from the project index.
    pub fn new(index: &'a ProjectIndex) -> (r: FileIndex<'a>)
        ensures
            r.all() == index.files(),
    {
        FileIndex { files: index.list_files() }
    }

    fn find(&self, parts: &Vec<(Part, String)>) -> (r: Option<&'a IndexedFile>)
        ensures
            (match r {
                Some(f) => Some(*f),
                None => None,
            }) == file_with(self.all(), part_models(parts@)),
    {
        let ghost all = self.all();
        let ghost p = part_models(parts@);
        let mut n: usize = self.files.len();
        while n > 0
            invariant
                n <= self.files@.len(),
                all == file_models(self.files@),
                p == part_models(parts@),
                file_at(all, p, all.len() as int) == file_at(all, p, n as int),
            decreases n,
        {
            assert(all[n - 1] == *self.files@[n - 1]);
            let own = parts_of(self.files[n - 1].path.as_str());
            if same_parts(&own, parts) {
                return Some(self.files[n - 1]);
            }
            n = n - 1;
        }
        None
    }

    /// Look up a file by its path.
    pub fn get(&self, path: &str) -> (r: Option<&'a IndexedFile>)
        ensures
            (match r {
                Some(f) => Some(*f),
                None => None,
            }) == file_with(self.all(), components(path@)),
    {
        let parts = parts_of(path);
        self.find(&parts)
    }

    /// Resolve an import specifier to a file in the index.
    fn resolve_specifier(&self, path: &str, specifier: &str) -> (r: Option<&'a IndexedFile>)
        ensures
            (match r {
                Some(f) => Some(*f),
                None => None,
            }) == resolved(self.all(), path@, specifier@),
    {
        if !starts_with(specifier, "./") && !starts_with(specifier, "../") {
            return None;
        }
        let own = parts_of(path);
        let ghost all = components(path@);
        if own.len() == 0 {
            return None;
        }
        assert(all.last() == (own@[own@.len() - 1].0, own@[own@.len() - 1].1@));
        if own[own.len() - 1].0 == Part::Root {
            return None;
        }
        let base = base_parts(path, specifier);
        if let Some(f) = self.find(&base) {
            return Some(f);
        }
        let ghost files = self.all();
        let ghost parts = based(path@, specifier@);
        let list = extension_list();
        let mut i: usize = 0;
        while i < list.len()
            invariant
                i <= list@.len(),
                list@.len() == extensions().len(),
                forall|k: int| 0 <= k < list@.len() ==> (#[trigger] list@[k])@ == extensions()[k],
                files == self.all(),
                parts == part_models(base@),
                resolved(files, path@, specifier@) == (if file_extended(files, parts, 0) is Some {
                    file_extended(files, parts, 0)
                } else {
                    file_inside(files, parts, 0)
                }),
                file_extended(files, parts, 0) == file_extended(files, parts, i as int),
            decreases list.len() - i,
        {
            let with_ext = extend(&base, list[i]);
            if let Some(f) = self.find(&with_ext) {
                return Some(f);
            }
            i = i + 1;
        }
        let mut k: usize = 0;
        while k < list.len()
            invariant
                k <= list@.len(),
                list@.len() == extensions().len(),
                forall|j: int| 0 <= j < list@.len() ==> (#[trigger] list@[j])@ == extensions()[j],
                files == self.all(),
                parts == part_models(base@),
                resolved(files, path@, specifier@) == file_inside(files, parts, 0),
                file_inside(files, parts, 0) == file_inside(files, parts, k as int),
            decreases list.len() - k,
        {
            let index = enter(&base, list[k]);
            if let Some(f) = self.find(&index) {
                return Some(f);
            }
            k = k + 1;
        }
        None
    }

    /// Find the original name of an imported name, and the file that it comes from.
    fn find_import_for_name(&self, file: &'a IndexedFile, name: &str) -> (r: Option<
        (&'a str, &'a IndexedFile),
    >)
        ensures
            (match r {
                Some((n, f)) => Some((n@, *f)),
                None => None,
            }) == origin(self.all(), file.path@, file.imports@, 0, name@),
    {
        let ghost files = self.all();
        let mut i: usize = 0;
        while i < file.imports.len()
            invariant
                i <= file.imports@.len(),
                files == self.all(),
                origin(files, file.path@, file.imports@, 0, name@) == origin(
                    files,
                    file.path@,
                    file.imports@,
                    i as int,
                    name@,
                ),
            decreases file.imports.len() - i,
        {
            let import = &file.imports[i];
            let mut k: usize = 0;
            while k < import.symbols.len()
                invariant
                    i < file.imports@.len(),
                    *import == file.imports@[i as int],
                    k <= import.symbols@.len(),
                    files == self.all(),
                    origin(files, file.path@, file.imports@, 0, name@) == origin(
                        files,
                        file.path@,
                        file.imports@,
                        i as int,
                        name@,
                    ),
                    symbol_named(import.symbols@, name@, 0) == symbol_named(
                        import.symbols@,
                        name@,
                        k as int,
                    ),
                decreases import.symbols.len() - k,
            {
                if same(import.symbols[k].get_local_name(), name) {
                    return match self.resolve_specifier(
                        file.path.as_str(),
                        import.get_specifier(),
                    ) {
                        Some(f) => Some((import.symbols[k].name.as_str(), f)),
                        None => None,
                    };
                }
                k = k + 1;
            }
            i = i + 1;
        }
        None
    }

    /// The definition of what a file imports under a name.
    pub fn find_definition(&self, path: &str, name: &str) -> (r: Option<&'a SymbolDef>)
        ensures
            (match r {
                Some(d) => Some(*d),
                None => None,
            }) == imported_def(self.all(), path@, name@),
    {
        let file = match self.get(path) {
            Some(f) => f,
            None => return None,
        };
        let (original, target) = match self.find_import_for_name(file, name) {
            Some(found) => found,
            None => return None,
        };
        let mut i: usize = 0;
        while i < target.symbol_defs.len()
            invariant
                i <= target.symbol_defs@.len(),
                imported_def(self.all(), path@, name@) == (match exported_def(
                    target.symbol_defs@,
                    original@,
                    0,
                ) {
                    Some(k) => Some(target.symbol_defs@[k]),
                    None => None,
                }),
                exported_def(target.symbol_defs@, original@, 0) == exported_def(
                    target.symbol_defs@,
                    original@,
                    i as int,
                ),
            decreases target.symbol_defs.len() - i,
        {
            let def = &target.symbol_defs[i];
            if def.exported && same(def.name.as_str(), original) {
                return Some(def);
            }
            i = i + 1;
        }
        None
    }

    /// Build the transparency set of a file: the imported components that pass their children
    /// through, with what they wrap them in.
    pub fn build_transparency_set(&self, file_path: &str, import_map: &ImportMap) -> (out: Vec<
        (String, Option<String>),
    >)
        ensures
            wrapper_models(out@) == transparent_among(
                self.all(),
                file_path@,
                import_map@,
                import_map@.len() as int,
            ),
    {
        let mut out: Vec<(String, Option<String>)> = Vec::new();
        let ghost files = self.all();
        let ghost imports = import_map@;
        assert(wrapper_models(out@) =~= transparent_among(files, file_path@, imports, 0));
        let mut i: usize = 0;
        while i < import_map.entries.len()
            invariant
                i <= import_map.entries@.len(),
                files == self.all(),
                imports == import_map@,
                wrapper_models(out@) == transparent_among(files, file_path@, imports, i as int),
            decreases import_map.entries.len() - i,
        {
            let name = import_map.entries[i].0.as_str();
            assert(imports[i as int].0 == name@);
            if let Some(def) = self.find_definition(file_path, name) {
                if let Some(t) = &def.transparency {
                    if t.is_transparent {
                        let ghost before = wrapper_models(out@);
                        let wraps_in = crate::engine::copy_text(&t.wraps_in);
                        out.push((name.to_owned(), wraps_in));
                        assert(wrapper_models(out@) =~= before.push(
                            (name@, opt_view(t.wraps_in)),
                        ));
                    }
                }
            }
            i = i + 1;
        }
        out
    }

    /// Look up the object properties of an imported variable, where it has any.
    pub fn lookup_object_properties(&self, file_path: &str, local_name: &str) -> (r: Option<
        &'a Vec<String>,
    >)
        ensures
            match r {
                Some(v) => imported_def(self.all(), file_path@, local_name@) matches Some(d)
                    && d.object_properties@.len() > 0 && texts(v@) == texts(d.object_properties@),
                None => imported_def(self.all(), file_path@, local_name@) matches Some(d)
                    ==> d.object_properties@.len() == 0,
            },
    {
        match self.find_definition(file_path, local_name) {
            Some(def) => if def.object_properties.len() > 0 {
                Some(&def.object_properties)
            } else {
                None
            },
            None => None,
        }
    }
}

} // verus!
