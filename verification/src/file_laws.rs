//! Which files are scanned, where incidents stand in them, and what becomes of what is found.

use crate::classnames::hits as class_hits;
use crate::component_laws::lemma_in_either;
use crate::css_vars::hits as variable_hits;
use crate::estree::{children, Role, WorkV};
use crate::evaluate::{
    css_errors, css_evaluation, css_incidents, css_scan, reports_file, ProjectData, SourceFile,
};
use crate::incident::{incident_models, IncidentV};
use crate::json::JsonV;
use crate::paths::components;
use crate::pattern::{regex_accepts, regex_valid};
use crate::plan_laws::lemma_pushed;
use crate::scan::Scan;
use crate::scanner::{
    classname_hits, column_at, css_var_hits, is_script, kind_of, line_at, line_start, newlines,
    program_of, skipped_dir, uri_of, wanted_files, with_snip,
};
use crate::text::{contains, extension_of};
use vstd::prelude::*;

verus! {

// ---- Lines and columns ----

/// How many bytes from one up to another are line feeds.
pub open spec fn feeds(bytes: Seq<u8>, from: int, to: int) -> nat
    decreases to - from,
{
    if to <= from {
        0
    } else {
        feeds(bytes, from, to - 1) + if bytes[to - 1] == 10 {
            1nat
        } else {
            0
        }
    }
}

proof fn lemma_feeds(bytes: Seq<u8>, n: int)
    requires
        0 <= n <= bytes.len(),
    ensures
        newlines(bytes, n) == feeds(bytes, 0, n),
    decreases n,
{
    if n > 0 {
        lemma_feeds(bytes, n - 1);
    }
}

/// The line of an offset is one more than the number of line feeds before it.
pub proof fn law_line(source: Seq<char>, offset: u32)
    requires
        offset <= vstd::utf8::encode_utf8(source).len(),
    ensures
        line_at(source, offset) == feeds(vstd::utf8::encode_utf8(source), 0, offset as int) + 1,
{
    lemma_feeds(vstd::utf8::encode_utf8(source), offset as int);
}

proof fn lemma_line_start(bytes: Seq<u8>, n: int)
    requires
        0 <= n <= bytes.len(),
    ensures
        ({
            let start = line_start(bytes, n);
            &&& 0 <= start <= n
            &&& start == 0 || bytes[start - 1] == 10
            &&& forall|k: int| start <= k < n ==> bytes[k] != 10
        }),
    decreases n,
{
    if n > 0 && bytes[n - 1] != 10u8 {
        lemma_line_start(bytes, n - 1);
    }
}

/// The column of an offset is its distance from the last line feed before it, or else from the
/// beginning.
pub proof fn law_column(source: Seq<char>, offset: u32)
    requires
        offset <= vstd::utf8::encode_utf8(source).len(),
    ensures
        ({
            let bytes = vstd::utf8::encode_utf8(source);
            let start = offset - column_at(source, offset);
            &&& 0 <= start <= offset
            &&& start == 0 || bytes[start - 1] == 10
            &&& forall|k: int| start <= k < offset ==> bytes[k] != 10
        }),
{
    lemma_line_start(vstd::utf8::encode_utf8(source), offset as int);
}

// ---- Files ----

/// The sources are the files with one of six extensions.
pub proof fn law_script(path: Seq<char>, ext: Seq<char>)
    requires
        extension_of(path) == Some(ext),
    ensures
        is_script(path) <==> ext == "js"@ || ext == "jsx"@ || ext == "ts"@ || ext == "tsx"@ || ext
            == "mjs"@ || ext == "mts"@,
{
}

/// A file without an extension is no source.
pub proof fn law_no_script(path: Seq<char>)
    requires
        extension_of(path) is None,
    ensures
        !is_script(path),
{
}

/// Files in TypeScript are read as such, whatever they contain.
pub proof fn law_typescript(path: Seq<char>, source: Seq<char>)
    requires
        extension_of(path) == Some("tsx"@) || extension_of(path) == Some("ts"@) || extension_of(
            path,
        ) == Some("mts"@),
    ensures
        kind_of(path, source) is Tsx,
{
}

/// Files in JavaScript are read by their extension: `.jsx`, `.cjs` and `.mjs`.
pub proof fn law_javascript(path: Seq<char>, source: Seq<char>)
    ensures
        extension_of(path) == Some("jsx"@) ==> kind_of(path, source) is Jsx,
        extension_of(path) == Some("cjs"@) ==> kind_of(path, source) is Cjs,
        extension_of(path) == Some("mjs"@) ==> kind_of(path, source) is Mjs,
        extension_of(path) is None ==> kind_of(path, source) is Mjs,
{
    lemma_extensions();
}

/// A `.js` file is a module where it imports, whatever else it contains; one of CommonJS where it
/// does not, and requires or exports in that way; and else a module.
pub proof fn law_plain_javascript(path: Seq<char>, source: Seq<char>)
    requires
        extension_of(path) == Some("js"@),
    ensures
        contains(source, "import "@) && (contains(source, " from "@) || contains(
            source,
            "import {"@,
        )) ==> kind_of(path, source) is Mjs,
        !contains(source, "import "@) && (contains(source, "require("@) || contains(
            source,
            "module.exports"@,
        )) ==> kind_of(path, source) is Cjs,
        !contains(source, "require("@) && !contains(source, "module.exports"@) ==> kind_of(
            path,
            source,
        ) is Mjs,
{
    lemma_extensions();
}

proof fn lemma_extensions()
    ensures
        "jsx"@ != "tsx"@ && "jsx"@ != "ts"@ && "jsx"@ != "mts"@,
        "cjs"@ != "tsx"@ && "cjs"@ != "ts"@ && "cjs"@ != "mts"@ && "cjs"@ != "jsx"@,
        "mjs"@ != "tsx"@ && "mjs"@ != "ts"@ && "mjs"@ != "mts"@ && "mjs"@ != "jsx"@ && "mjs"@
            != "cjs"@,
        "js"@ != "tsx"@ && "js"@ != "ts"@ && "js"@ != "mts"@ && "js"@ != "jsx"@ && "js"@ != "cjs"@
            && "js"@ != "mjs"@,
        "tsx"@.len() > 0 && "ts"@.len() > 0 && "mts"@.len() > 0 && "jsx"@.len() > 0 && "cjs"@.len()
            > 0 && "mjs"@.len() > 0 && "js"@.len() > 0,
{
    reveal_strlit("tsx");
    reveal_strlit("ts");
    reveal_strlit("mts");
    reveal_strlit("jsx");
    reveal_strlit("cjs");
    reveal_strlit("mjs");
    reveal_strlit("js");
    assert("tsx"@.len() == 3 && "tsx"@[0] == 't');
    assert("ts"@.len() == 2 && "ts"@[0] == 't');
    assert("mts"@.len() == 3 && "mts"@[0] == 'm' && "mts"@[1] == 't');
    assert("jsx"@.len() == 3 && "jsx"@[0] == 'j');
    assert("cjs"@.len() == 3 && "cjs"@[0] == 'c');
    assert("mjs"@.len() == 3 && "mjs"@[0] == 'm' && "mjs"@[1] == 'j');
    assert("js"@.len() == 2 && "js"@[0] == 'j');
}

/// The directories that hold no sources of the project are left out.
pub proof fn law_skipped_dir(name: Seq<char>)
    ensures
        skipped_dir(name) <==> name == "node_modules"@ || name == ".git"@ || name == "dist"@ || name
            == "build"@ || name == "target"@ || name == ".next"@ || name == ".nuxt"@ || name
            == "coverage"@ || name == "__pycache__"@,
{
}

/// Every source whose path the filter accepts is scanned, and nothing else.
pub proof fn law_wanted_files(
    paths: Seq<Seq<char>>,
    n: int,
    filter: Option<Seq<char>>,
    path: Seq<char>,
)
    requires
        0 <= n <= paths.len(),
    ensures
        wanted_files(paths, n, filter).contains(path) <==> (exists|k: int|
            0 <= k < n && #[trigger] paths[k] == path) && is_script(path) && (filter is Some
            ==> regex_accepts(filter->0, path)),
    decreases n,
{
    if n > 0 {
        law_wanted_files(paths, n - 1, filter, path);
        let before = wanted_files(paths, n - 1, filter);
        lemma_pushed(before, paths[n - 1], path);
        if exists|k: int| 0 <= k < n - 1 && #[trigger] paths[k] == path {
            let k = choose|k: int| 0 <= k < n - 1 && #[trigger] paths[k] == path;
            assert(paths[k] == path);
        }
    }
}

// ---- Class names and CSS variables ----

/// The scan of a file for a pattern.
pub open spec fn scan_for(file: SourceFile, root: Seq<char>, pattern: Seq<char>) -> Scan {
    Scan { source: file.source@, pattern, file_uri: uri_of(file.path@, root) }
}

/// What a statement of a file yields: its CSS variables, or else its class names.
pub open spec fn yielded(variables: bool, stmt: JsonV, scan: Scan) -> Seq<IncidentV> {
    if variables {
        variable_hits(WorkV { role: Role::Statement, node: stmt }, scan)
    } else {
        class_hits(WorkV { role: Role::Statement, node: stmt }, scan)
    }
}

spec fn all_yielded(variables: bool, body: Seq<JsonV>, n: int, scan: Scan) -> Seq<IncidentV> {
    if variables {
        css_var_hits(body, n, scan)
    } else {
        classname_hits(body, n, scan)
    }
}

spec fn one_yields(variables: bool, body: Seq<JsonV>, n: int, scan: Scan, i: IncidentV) -> bool {
    exists|k: int| 0 <= k < n && yielded(variables, #[trigger] body[k], scan).contains(i)
}

proof fn lemma_yielded(variables: bool, body: Seq<JsonV>, n: int, scan: Scan, i: IncidentV)
    requires
        0 <= n <= body.len(),
    ensures
        all_yielded(variables, body, n, scan).contains(i) == one_yields(
            variables,
            body,
            n,
            scan,
            i,
        ),
    decreases n,
{
    if n > 0 {
        lemma_yielded(variables, body, n - 1, scan, i);
        let before = all_yielded(variables, body, n - 1, scan);
        let more = yielded(variables, body[n - 1], scan);
        assert(all_yielded(variables, body, n, scan) == before + more);
        lemma_in_either(before, more, i);
        if one_yields(variables, body, n - 1, scan, i) {
            let k = choose|k: int|
                0 <= k < n - 1 && yielded(variables, #[trigger] body[k], scan).contains(i);
            assert(yielded(variables, body[k], scan).contains(i));
        }
    }
}

/// The program of a file.
pub open spec fn parsed(file: SourceFile) -> Result<JsonV, Option<Seq<char>>> {
    program_of(file.source@, kind_of(file.path@, file.source@))
}

/// Whether an incident is one that a statement of a file yields, with the lines around it.
pub open spec fn found_in_file(
    variables: bool,
    file: SourceFile,
    root: Seq<char>,
    pattern: Seq<char>,
    i: IncidentV,
) -> bool {
    parsed(file) is Ok && exists|k: int, bare: IncidentV|
        {
            &&& 0 <= k < children(parsed(file)->Ok_0, "body"@).len()
            &&& #[trigger] yielded(
                variables,
                children(parsed(file)->Ok_0, "body"@)[k],
                scan_for(file, root, pattern),
            ).contains(bare)
            &&& i == with_snip(bare, file.source@)
        }
}

proof fn lemma_file(
    variables: bool,
    file: SourceFile,
    root: Seq<char>,
    pattern: Seq<char>,
    i: IncidentV,
)
    ensures
        css_scan(variables, file, root, pattern).0.contains(i) == found_in_file(
            variables,
            file,
            root,
            pattern,
            i,
        ),
{
    if parsed(file) is Ok {
        let body = children(parsed(file)->Ok_0, "body"@);
        let scan = scan_for(file, root, pattern);
        let found = all_yielded(variables, body, body.len() as int, scan);
        let snipped = found.map_values(|i: IncidentV| with_snip(i, file.source@));
        assert(css_scan(variables, file, root, pattern).0 == snipped);
        if snipped.contains(i) {
            let j = choose|j: int| 0 <= j < snipped.len() && snipped[j] == i;
            let bare = found[j];
            assert(found.contains(bare));
            lemma_yielded(variables, body, body.len() as int, scan, bare);
            let k = choose|k: int|
                0 <= k < body.len() && yielded(variables, #[trigger] body[k], scan).contains(bare);
            assert(yielded(variables, body[k], scan).contains(bare));
            assert(i == with_snip(bare, file.source@));
        }
        if found_in_file(variables, file, root, pattern, i) {
            let (k, bare) = choose|k: int, bare: IncidentV|
                {
                    &&& 0 <= k < body.len()
                    &&& #[trigger] yielded(variables, body[k], scan).contains(bare)
                    &&& i == with_snip(bare, file.source@)
                };
            lemma_yielded(variables, body, body.len() as int, scan, bare);
            assert(yielded(variables, body[k], scan).contains(bare));
            let j = choose|j: int| 0 <= j < found.len() && found[j] == bare;
            assert(snipped[j] == i);
        }
    }
}

spec fn some_file(
    variables: bool,
    files: Seq<SourceFile>,
    n: int,
    root: Seq<char>,
    pattern: Seq<char>,
    i: IncidentV,
) -> bool {
    exists|k: int|
        0 <= k < n && found_in_file(variables, #[trigger] files[k], root, pattern, i)
}

proof fn lemma_files(
    variables: bool,
    files: Seq<SourceFile>,
    n: int,
    root: Seq<char>,
    pattern: Seq<char>,
    i: IncidentV,
)
    requires
        0 <= n <= files.len(),
    ensures
        css_incidents(variables, files, n, root, pattern).contains(i) == some_file(
            variables,
            files,
            n,
            root,
            pattern,
            i,
        ),
    decreases n,
{
    if n > 0 {
        lemma_files(variables, files, n - 1, root, pattern, i);
        let before = css_incidents(variables, files, n - 1, root, pattern);
        let more = css_scan(variables, files[n - 1], root, pattern).0;
        lemma_file(variables, files[n - 1], root, pattern, i);
        assert(css_incidents(variables, files, n, root, pattern) == before + more);
        lemma_in_either(before, more, i);
        if some_file(variables, files, n - 1, root, pattern, i) {
            let k = choose|k: int|
                0 <= k < n - 1 && found_in_file(variables, #[trigger] files[k], root, pattern, i);
            assert(found_in_file(variables, files[k], root, pattern, i));
        }
    }
}

/// The incidents of a condition on class names or on CSS variables are those of the stylesheets and
/// those of every file that can be parsed, and no other.
pub proof fn law_css_incidents(
    variables: bool,
    pattern: Seq<char>,
    data: ProjectData,
    i: IncidentV,
)
    ensures
        regex_valid(pattern) ==> css_evaluation(variables, pattern, data) is Done && (
        css_evaluation(variables, pattern, data)->Done_0.contains(i) <==> incident_models(
            data.stylesheets@,
        ).contains(i) || exists|k: int|
            0 <= k < data.files@.len() && found_in_file(
                variables,
                #[trigger] data.files@[k],
                data.root@,
                pattern,
                i,
            )),
        !regex_valid(pattern) ==> css_evaluation(variables, pattern, data) is Pattern,
{
    let n = data.files@.len() as int;
    let a = incident_models(data.stylesheets@);
    let b = css_incidents(variables, data.files@, n, data.root@, pattern);
    lemma_in_either(a, b, i);
    lemma_files(variables, data.files@, n, data.root@, pattern, i);
}

proof fn lemma_errors(
    variables: bool,
    files: Seq<SourceFile>,
    n: int,
    root: Seq<char>,
    pattern: Seq<char>,
    path: Seq<char>,
)
    requires
        0 <= n <= files.len(),
    ensures
        reports_file(css_errors(variables, files, n, root, pattern), path) <==> exists|k: int|
            0 <= k < n && parsed(#[trigger] files[k]) is Err && components(files[k].path@)
                == components(path),
    decreases n,
{
    if n > 0 {
        lemma_errors(variables, files, n - 1, root, pattern, path);
        let before = css_errors(variables, files, n - 1, root, pattern);
        let now = css_errors(variables, files, n, root, pattern);
        let file = files[n - 1];
        if parsed(file) is Err {
            if reports_file(before, file.path@) {
                assert(now == before);
                let k = choose|k: int|
                    0 <= k < before.len() && components((#[trigger] before[k]).file_path)
                        == components(file.path@);
                assert(components(path) == components(file.path@) ==> reports_file(before, path));
            } else {
                let e = css_scan(variables, file, root, pattern).1->0;
                assert(now == before.push(e));
                assert(e.file_path == file.path@);
                assert(now[before.len() as int] == e);
                if reports_file(before, path) {
                    let k = choose|k: int|
                        0 <= k < before.len() && components((#[trigger] before[k]).file_path)
                            == components(path);
                    assert(now[k] == before[k]);
                }
                if reports_file(now, path) {
                    let k = choose|k: int|
                        0 <= k < now.len() && components((#[trigger] now[k]).file_path)
                            == components(path);
                    if k < before.len() {
                        assert(before[k] == now[k]);
                    }
                }
            }
        } else {
            assert(now == before);
        }
    }
}

/// The files that are reported as not parsed are those that cannot be parsed.
pub proof fn law_css_errors(variables: bool, pattern: Seq<char>, data: ProjectData, path: Seq<char>)
    ensures
        regex_valid(pattern) ==> (reports_file(
            css_evaluation(variables, pattern, data)->Done_1,
            path,
        ) <==> exists|k: int|
            0 <= k < data.files@.len() && parsed(#[trigger] data.files@[k]) is Err && components(
                data.files@[k].path@,
            ) == components(path)),
{
    lemma_errors(variables, data.files@, data.files@.len() as int, data.root@, pattern, path);
}

} // verus!
