//! Source files: which of them are scanned, how they are parsed, and where in them an
//! incident stands.

use crate::code_snip::numbered_lines;
use crate::estree::{children, Role, WorkV};
use crate::incident::{
    append_incidents, bare_incident, incident_models, opt_view, Incident, IncidentV, Location,
    Position,
};
use crate::json::{document_model, parse_json, Json, JsonV};
use crate::pattern::{compile_opt, opt_source, opt_valid, regex_accepts, regex_source};
use crate::printed_tree::{mend, mended};
use crate::scan::Scan;
use crate::text::{
    contains, decimal, extension, extension_of, has_text, join_path, joined, lines_of, same, texts,
};
use vstd::prelude::*;
use vstd::string::StringSliceAdditionalSpecFns;

verus! {

/// A file that could not be parsed.
#[derive(Debug)]
pub struct ParseError {
    /// Path of the file that could not be parsed.
    pub file_path: String,
    /// Human-readable error message from the parser.
    pub message: String,
}

/// The dialect in which a source file is written.
#[derive(Debug, Clone, Copy, PartialEq, Eq, Structural)]
pub enum SourceKind {
    /// TypeScript with JSX.
    Tsx,
    /// JavaScript with JSX.
    Jsx,
    /// A CommonJS script with JSX.
    Cjs,
    /// An ECMAScript module with JSX.
    Mjs,
}

impl SourceKind {
    /// Whether the dialect has types.
    pub fn is_typescript(self) -> (r: bool)
        ensures
            r == (self is Tsx),
    {
        match self {
            SourceKind::Tsx => true,
            _ => false,
        }
    }

    /// Whether the dialect has JSX: every one of them has.
    pub fn is_jsx(self) -> (r: bool)
        ensures
            r,
    {
        match self {
            SourceKind::Tsx | SourceKind::Jsx | SourceKind::Cjs | SourceKind::Mjs => true,
        }
    }
}

/// The number of line feeds among the first `n` bytes.
pub open spec fn newlines(bytes: Seq<u8>, n: int) -> nat
    decreases n,
{
    if n <= 0 || n > bytes.len() {
        0
    } else {
        newlines(bytes, n - 1) + (if bytes[n - 1] == 10u8 {
            1nat
        } else {
            0nat
        })
    }
}

/// The index of the byte that begins the line in which offset `n` stands.
pub open spec fn line_start(bytes: Seq<u8>, n: int) -> int
    decreases n,
{
    if n <= 0 || n > bytes.len() {
        0
    } else if bytes[n - 1] == 10u8 {
        n
    } else {
        line_start(bytes, n - 1)
    }
}

/// An offset, or the end of the text where the offset lies beyond it.
pub open spec fn clamp_offset(bytes: Seq<u8>, offset: u32) -> int {
    if offset <= bytes.len() {
        offset as int
    } else {
        bytes.len() as int
    }
}

/// The line of a byte offset, counted from one.
pub open spec fn line_at(source: Seq<char>, offset: u32) -> int {
    let bytes = vstd::utf8::encode_utf8(source);
    newlines(bytes, clamp_offset(bytes, offset)) as int + 1
}

/// The distance in bytes of an offset from the beginning of its line.
pub open spec fn column_at(source: Seq<char>, offset: u32) -> int {
    let bytes = vstd::utf8::encode_utf8(source);
    let n = clamp_offset(bytes, offset);
    n - line_start(bytes, n)
}

/// An integer, or the largest of 32 bits where it does not fit.
pub open spec fn capped(n: int) -> u32 {
    if n <= u32::MAX {
        n as u32
    } else {
        u32::MAX
    }
}

/// The incident that covers the bytes from `start` up to `end`.
pub open spec fn incident_at(
    source: Seq<char>,
    file_uri: Seq<char>,
    start: u32,
    end: u32,
) -> IncidentV {
    bare_incident(
        file_uri,
        capped(line_at(source, start)),
        Location {
            start: Position {
                line: capped(line_at(source, start) - 1),
                character: capped(column_at(source, start)),
            },
            end: Position {
                line: capped(line_at(source, end) - 1),
                character: capped(column_at(source, end)),
            },
        },
    )
}

/// The number of line feeds before an offset.
fn count_newlines(source: &str, offset: u32) -> (r: u32)
    ensures
        r == line_at(source@, offset) - 1,
{
    let bytes = source.as_bytes();
    let mut i: usize = 0;
    let mut count: u32 = 0;
    while i < bytes.len() && i < offset as usize
        invariant
            bytes@ == vstd::utf8::encode_utf8(source@),
            i <= bytes@.len(),
            i <= offset,
            count == newlines(bytes@, i as int),
            count <= i,
        decreases bytes.len() - i,
    {
        if bytes[i] == 10u8 {
            count = count + 1;
        }
        i = i + 1;
    }
    count
}

/// Compute 1-indexed line number from a byte offset in source text.
pub fn line_number_from_offset(source: &str, offset: u32) -> (r: u32)
    ensures
        r == capped(line_at(source@, offset)),
{
    let n = count_newlines(source, offset);
    if n == u32::MAX {
        n
    } else {
        n + 1
    }
}

/// The distance of an offset from the beginning of its line.
fn column(source: &str, offset: u32) -> (r: u32)
    ensures
        r == column_at(source@, offset),
{
    let bytes = source.as_bytes();
    let n: usize = if (offset as usize) < bytes.len() {
        offset as usize
    } else {
        bytes.len()
    };
    let mut i: usize = n;
    while i > 0 && bytes[i - 1] != 10u8
        invariant
            i <= n <= bytes@.len(),
            line_start(bytes@, n as int) == line_start(bytes@, i as int),
        decreases i,
    {
        i = i - 1;
    }
    (n - i) as u32
}

/// Create an `Incident` from source location info.
pub fn make_incident(source: &str, file_uri: &str, start_offset: u32, end_offset: u32) -> (r:
    Incident)
    ensures
        r@ == incident_at(source@, file_uri@, start_offset, end_offset),
{
    let line = line_number_from_offset(source, start_offset);
    Incident::new(
        file_uri.to_owned(),
        line,
        Location {
            start: Position {
                line: count_newlines(source, start_offset),
                character: column(source, start_offset),
            },
            end: Position {
                line: count_newlines(source, end_offset),
                character: column(source, end_offset),
            },
        },
    )
}

/// The `file://` URI of a path.
pub open spec fn uri_of(path: Seq<char>, root: Seq<char>) -> Seq<char> {
    "file://"@ + joined(root, path)
}

/// Convert a file path to a file:// URI.
pub fn path_to_uri(path: &str, root: &str) -> (r: String)
    ensures
        r@ == uri_of(path@, root@),
{
    let absolute = join_path(root, path);
    crate::text::concat("file://", absolute.as_str())
}

/// The dialect of a file, by its extension and, for a `.js` file, by what it contains.
pub open spec fn kind_of(path: Seq<char>, source: Seq<char>) -> SourceKind {
    let ext = match extension_of(path) {
        Some(e) => e,
        None => Seq::empty(),
    };
    if ext == "tsx"@ || ext == "ts"@ || ext == "mts"@ {
        SourceKind::Tsx
    } else if ext == "jsx"@ {
        SourceKind::Jsx
    } else if ext == "cjs"@ {
        SourceKind::Cjs
    } else if ext == "mjs"@ {
        SourceKind::Mjs
    } else if ext == "js"@ {
        if contains(source, "import "@) && (contains(source, " from "@) || contains(
            source,
            "import {"@,
        )) {
            SourceKind::Mjs
        } else if contains(source, "require("@) || contains(source, "module.exports"@) {
            SourceKind::Cjs
        } else {
            SourceKind::Mjs
        }
    } else {
        SourceKind::Mjs
    }
}

/// Determine the dialect from a file path and source content.
///
/// JSX is always enabled, whatever the extension. A `.js` file is taken for
/// CommonJS where it requires or exports in that way and imports nothing.
pub fn source_type_for_file(path: &str, source: &str) -> (r: SourceKind)
    ensures
        r == kind_of(path@, source@),
{
    let ext = match extension(path) {
        Some(e) => e,
        None => String::new(),
    };
    let e = ext.as_str();
    if same(e, "tsx") || same(e, "ts") || same(e, "mts") {
        SourceKind::Tsx
    } else if same(e, "jsx") {
        SourceKind::Jsx
    } else if same(e, "cjs") {
        SourceKind::Cjs
    } else if same(e, "mjs") {
        SourceKind::Mjs
    } else if same(e, "js") {
        if has_text(source, "import ") && (has_text(source, " from ") || has_text(source, "import {")) {
            SourceKind::Mjs
        } else if has_text(source, "require(") || has_text(source, "module.exports") {
            SourceKind::Cjs
        } else {
            SourceKind::Mjs
        }
    } else {
        SourceKind::Mjs
    }
}

/// What `oxc_parser` makes of a source text: the ESTree form of its syntax tree, printed as
/// JSON, or the first of its messages where it gave up.
pub uninterp spec fn estree_text(source: Seq<char>, kind: SourceKind) -> Result<
    Seq<char>,
    Option<Seq<char>>,
>;

/// What a printed tree or a message holds.
pub open spec fn estree_view(r: Result<String, Option<String>>) -> Result<
    Seq<char>,
    Option<Seq<char>>,
> {
    match r {
        Ok(s) => Ok(s@),
        Err(m) => Err(opt_view(m)),
    }
}

/// Parses a source text with `oxc_parser::Parser::parse` and prints the tree with
/// `Program::to_estree_ts_json`. Where the parser panicked, the first of its errors, if it
/// gave one. Both depend on the text and the dialect alone.
#[verifier::external_body]
fn parse_to_estree(source: &str, kind: SourceKind) -> (r: Result<String, Option<String>>)
    ensures
        estree_view(r) == estree_text(source@, kind),
{
    let allocator = oxc_allocator::Allocator::default();
    let source_type = match kind {
        SourceKind::Tsx => oxc_span::SourceType::tsx(),
        SourceKind::Jsx => oxc_span::SourceType::jsx(),
        SourceKind::Cjs => oxc_span::SourceType::cjs().with_jsx(true),
        SourceKind::Mjs => oxc_span::SourceType::mjs().with_jsx(true),
    };
    let parsed = oxc_parser::Parser::new(&allocator, source, source_type).parse();
    match parsed.panicked {
        true => Err(parsed.errors.first().map(|e| e.to_string())),
        false => Ok(parsed.program.to_estree_ts_json(false)),
    }
}

/// The syntax tree of a source text, or the message with which the parser gave up.
pub open spec fn program_of(source: Seq<char>, kind: SourceKind) -> Result<
    JsonV,
    Option<Seq<char>>,
> {
    match estree_text(source, kind) {
        Ok(t) => match document_model(mended(t)) {
            Some(v) => Ok(v),
            None => Err(None),
        },
        Err(m) => Err(m),
    }
}

/// Parses a source text into its ESTree syntax tree.
pub fn parse_program(source: &str, kind: SourceKind) -> (r: Result<Json, Option<String>>)
    ensures
        match r {
            Ok(j) => program_of(source@, kind) == Ok::<JsonV, Option<Seq<char>>>(j@),
            Err(m) => program_of(source@, kind) == Err::<JsonV, Option<Seq<char>>>(
                opt_view(m),
            ),
        },
{
    match parse_to_estree(source, kind) {
        Ok(t) => match parse_json(mend(t.as_str()).as_str()) {
            Some(j) => Ok(j),
            None => Err(None),
        },
        Err(m) => Err(m),
    }
}

/// Whether a directory is left out of a scan, by its name.
pub open spec fn skipped_dir(name: Seq<char>) -> bool {
    name == "node_modules"@ || name == ".git"@ || name == "dist"@ || name == "build"@ || name
        == "target"@ || name == ".next"@ || name == ".nuxt"@ || name == "coverage"@ || name
        == "__pycache__"@
}

/// Whether a directory is left out of a scan, by its name.
pub fn is_skipped_dir(name: &str) -> (r: bool)
    ensures
        r == skipped_dir(name@),
{
    same(name, "node_modules") || same(name, ".git") || same(name, "dist") || same(name, "build")
        || same(name, "target") || same(name, ".next") || same(name, ".nuxt") || same(
        name,
        "coverage",
    ) || same(name, "__pycache__")
}

/// Whether a file is a JavaScript or TypeScript source, by its extension.
pub open spec fn is_script(path: Seq<char>) -> bool {
    match extension_of(path) {
        Some(e) => e == "js"@ || e == "jsx"@ || e == "ts"@ || e == "tsx"@ || e == "mjs"@ || e
            == "mts"@,
        None => false,
    }
}

/// Whether a file is scanned: it is a source file, and its path matches the filter, if any.
pub open spec fn wanted_file(path: Seq<char>, filter: Option<Seq<char>>) -> bool {
    is_script(path) && (filter matches Some(p) ==> regex_accepts(p, path))
}

/// Those of the first `n` files that are scanned, in their order.
pub open spec fn wanted_files(
    paths: Seq<Seq<char>>,
    n: int,
    filter: Option<Seq<char>>,
) -> Seq<Seq<char>>
    decreases n,
{
    if n <= 0 || n > paths.len() {
        Seq::empty()
    } else if wanted_file(paths[n - 1], filter) {
        wanted_files(paths, n - 1, filter).push(paths[n - 1])
    } else {
        wanted_files(paths, n - 1, filter)
    }
}

fn check_script(path: &str) -> (r: bool)
    ensures
        r == is_script(path@),
{
    match extension(path) {
        Some(ext) => {
            let e = ext.as_str();
            same(e, "js") || same(e, "jsx") || same(e, "ts") || same(e, "tsx") || same(e, "mjs")
                || same(e, "mts")
        },
        None => false,
    }
}

/// Of the files of a project, the JS/TS/JSX/TSX files whose path matches the filter, if any.
/// The error is that of a filter that is no regular expression.
pub fn collect_files(paths: &Vec<String>, file_pattern: &Option<String>) -> (r: Result<
    Vec<String>,
    regex::Error,
>)
    ensures
        r is Ok <==> opt_valid(opt_view(*file_pattern)),
        r matches Ok(files) ==> texts(files@) == wanted_files(
            texts(paths@),
            paths@.len() as int,
            opt_view(*file_pattern),
        ),
{
    let filter = match compile_opt(file_pattern) {
        Ok(x) => x,
        Err(e) => return Err(e),
    };
    let ghost all = texts(paths@);
    let mut files: Vec<String> = Vec::new();
    let mut i: usize = 0;
    assert(texts(files@) =~= Seq::<Seq<char>>::empty());
    while i < paths.len()
        invariant
            i <= paths@.len(),
            all == texts(paths@),
            opt_source(filter) == opt_view(*file_pattern),
            texts(files@) == wanted_files(all, i as int, opt_view(*file_pattern)),
        decreases paths.len() - i,
    {
        let path = paths[i].as_str();
        assert(all[i as int] == path@);
        let matched = match &filter {
            Some(re) => re.is_match(path),
            None => true,
        };
        if check_script(path) && matched {
            let ghost before = texts(files@);
            files.push(paths[i].clone());
            assert(texts(files@) =~= before.push(path@));
        }
        i = i + 1;
    }
    Ok(files)
}

/// The lines around a line, each behind its number. The numbers are aligned to the right. Lines are
/// counted in 32 bits.
pub open spec fn code_snip_text(source: Seq<char>, line: u32, context: u32) -> Seq<char> {
    let lines = lines_of(source);
    let total = lines.len() as int % 0x1_0000_0000;
    let from = if line > context {
        line - context - 1
    } else {
        0
    };
    let to = if line + context < total {
        line + context
    } else {
        total
    };
    numbered_lines(lines, from, to, decimal(to as nat).len())
}

/// `konveyor_core::incident::extract_code_snip`: the lines from `context` lines before a line to
/// `context` lines after it, as far as they are there, each behind its number, two spaces between
/// them. The sums that it forms fit into 32 bits.
#[verifier::external_body]
pub(crate) fn code_snip(source: &str, line: u32, context: u32) -> (r: String)
    requires
        line + context <= u32::MAX,
        context < u32::MAX,
    ensures
        r@ == code_snip_text(source@, line, context),
{
    konveyor_core::incident::extract_code_snip(source, line, context)
}

/// The incident with five lines of source text before and after its line. An incident so far
/// down that the lines after it have no number of 32 bits stays as it is.
pub open spec fn with_snip(i: IncidentV, source: Seq<char>) -> IncidentV {
    let line = match i.line_number {
        Some(n) => n,
        None => 0,
    };
    if line <= u32::MAX - 5 {
        IncidentV { code_snip: Some(code_snip_text(source, line, 5)), ..i }
    } else {
        i
    }
}

/// Gives each incident the source text around its line.
pub fn add_code_snips(incidents: &mut Vec<Incident>, source: &str)
    ensures
        incident_models(final(incidents)@) == incident_models(old(incidents)@).map_values(
            |i: IncidentV| with_snip(i, source@),
        ),
{
    let ghost before = incident_models(incidents@);
    let ghost goal = before.map_values(|i: IncidentV| with_snip(i, source@));
    let n: usize = incidents.len();
    let mut k: usize = 0;
    while k < n
        invariant
            n == incidents@.len(),
            n == before.len(),
            k <= n,
            goal == before.map_values(|i: IncidentV| with_snip(i, source@)),
            forall|j: int| 0 <= j < k ==> (#[trigger] incidents@[j])@ == goal[j],
            forall|j: int| k <= j < n ==> (#[trigger] incidents@[j])@ == before[j],
        decreases n - k,
    {
        let line: u32 = match incidents[k].line_number {
            Some(l) => l,
            None => 0,
        };
        assert(incidents@[k as int]@ == before[k as int]);
        if line <= u32::MAX - 5 {
            let snip = code_snip(source, line, 5);
            incidents[k].code_snip = Some(snip);
        }
        assert(incidents@[k as int]@ == goal[k as int]);
        k = k + 1;
    }
    assert(incident_models(incidents@) =~= goal);
}

/// The message for a file that the parser gave up on.
pub open spec fn parse_message(m: Option<Seq<char>>) -> Seq<char> {
    match m {
        Some(s) => s,
        None => "unknown parser error"@,
    }
}

/// What a scan of a file yields: its incidents, and the reason why it could not be parsed.
pub open spec fn scan_outcome(
    r: (Vec<Incident>, Option<ParseError>),
) -> (Seq<IncidentV>, Option<(Seq<char>, Seq<char>)>) {
    (
        incident_models(r.0@),
        match r.1 {
            Some(e) => Some((e.file_path@, e.message@)),
            None => None,
        },
    )
}

/// The incidents of the first `n` statements of a program.
pub open spec fn classname_hits(body: Seq<JsonV>, n: int, scan: Scan) -> Seq<IncidentV>
    decreases n,
{
    if n <= 0 || n > body.len() {
        Seq::empty()
    } else {
        classname_hits(body, n - 1, scan) + crate::classnames::hits(
            WorkV { role: Role::Statement, node: body[n - 1] },
            scan,
        )
    }
}

/// The incidents of the first `n` statements of a program.
pub open spec fn css_var_hits(body: Seq<JsonV>, n: int, scan: Scan) -> Seq<IncidentV>
    decreases n,
{
    if n <= 0 || n > body.len() {
        Seq::empty()
    } else {
        css_var_hits(body, n - 1, scan) + crate::css_vars::hits(
            WorkV { role: Role::Statement, node: body[n - 1] },
            scan,
        )
    }
}

/// What a scan of a parsed file yields for the incidents found in it.
pub open spec fn outcome_of(
    program: Result<JsonV, Option<Seq<char>>>,
    found: Seq<IncidentV>,
    file_path: Seq<char>,
    source: Seq<char>,
) -> (Seq<IncidentV>, Option<(Seq<char>, Seq<char>)>) {
    match program {
        Ok(_) => (found.map_values(|i: IncidentV| with_snip(i, source)), None),
        Err(m) => (Seq::empty(), Some((file_path, parse_message(m)))),
    }
}

/// The statements of a program.
pub open spec fn body_of(program: Result<JsonV, Option<Seq<char>>>) -> Seq<JsonV> {
    match program {
        Ok(v) => children(v, "body"@),
        Err(_) => Seq::empty(),
    }
}

/// The message for a file that the parser gave up on.
fn parse_error(file_path: &str, m: Option<String>) -> (r: ParseError)
    ensures
        r.file_path@ == file_path@,
        r.message@ == parse_message(opt_view(m)),
{
    ParseError {
        file_path: file_path.to_owned(),
        message: match m {
            Some(s) => s,
            None => "unknown parser error".to_owned(),
        },
    }
}

/// Scans the statements of a syntax tree for CSS class names.
pub fn scan_program_classnames(
    program: &Json,
    source: &str,
    pattern: &regex::Regex,
    file_uri: &str,
) -> (out: Vec<Incident>)
    ensures
        incident_models(out@) == classname_hits(
            children(program@, "body"@),
            children(program@, "body"@).len() as int,
            Scan { source: source@, pattern: regex_source(*pattern), file_uri: file_uri@ },
        ),
{
    let ghost scan = Scan {
        source: source@,
        pattern: regex_source(*pattern),
        file_uri: file_uri@,
    };
    let ghost body = children(program@, "body"@);
    let mut out: Vec<Incident> = Vec::new();
    assert(incident_models(out@) =~= Seq::<IncidentV>::empty());
    if let Some(node) = program.get("body") {
        if let Some(list) = node.as_list() {
            let mut i: usize = 0;
            while i < list.len()
                invariant
                    i <= list@.len(),
                    list@.len() == body.len(),
                    forall|k: int| 0 <= k < list@.len() ==> (#[trigger] list@[k])@ == body[k],
                    scan == (Scan {
                        source: source@,
                        pattern: regex_source(*pattern),
                        file_uri: file_uri@,
                    }),
                    incident_models(out@) == classname_hits(body, i as int, scan),
                decreases list.len() - i,
            {
                let mut more = crate::classnames::scan_classname_usage(
                    &list[i],
                    source,
                    pattern,
                    file_uri,
                );
                append_incidents(&mut out, &mut more);
                i = i + 1;
            }
        }
    }
    out
}

/// Scans the statements of a syntax tree for CSS variables.
pub fn scan_program_css_vars(
    program: &Json,
    source: &str,
    pattern: &regex::Regex,
    file_uri: &str,
) -> (out: Vec<Incident>)
    ensures
        incident_models(out@) == css_var_hits(
            children(program@, "body"@),
            children(program@, "body"@).len() as int,
            Scan { source: source@, pattern: regex_source(*pattern), file_uri: file_uri@ },
        ),
{
    let ghost scan = Scan {
        source: source@,
        pattern: regex_source(*pattern),
        file_uri: file_uri@,
    };
    let ghost body = children(program@, "body"@);
    let mut out: Vec<Incident> = Vec::new();
    assert(incident_models(out@) =~= Seq::<IncidentV>::empty());
    if let Some(node) = program.get("body") {
        if let Some(list) = node.as_list() {
            let mut i: usize = 0;
            while i < list.len()
                invariant
                    i <= list@.len(),
                    list@.len() == body.len(),
                    forall|k: int| 0 <= k < list@.len() ==> (#[trigger] list@[k])@ == body[k],
                    scan == (Scan {
                        source: source@,
                        pattern: regex_source(*pattern),
                        file_uri: file_uri@,
                    }),
                    incident_models(out@) == css_var_hits(body, i as int, scan),
                decreases list.len() - i,
            {
                let mut more = crate::css_vars::scan_css_var_usage(
                    &list[i],
                    source,
                    pattern,
                    file_uri,
                );
                append_incidents(&mut out, &mut more);
                i = i + 1;
            }
        }
    }
    out
}

/// Scan a single file for CSS class name references in JS/TS (className attributes, etc.).
pub fn scan_file_classnames(
    file_path: &str,
    source: &str,
    root: &str,
    pattern: &regex::Regex,
) -> (r: (Vec<Incident>, Option<ParseError>))
    ensures
        ({
            let program = program_of(source@, kind_of(file_path@, source@));
            scan_outcome(r) == outcome_of(
                program,
                classname_hits(
                    body_of(program),
                    body_of(program).len() as int,
                    Scan {
                        source: source@,
                        pattern: regex_source(*pattern),
                        file_uri: uri_of(file_path@, root@),
                    },
                ),
                file_path@,
                source@,
            )
        }),
{
    let kind = source_type_for_file(file_path, source);
    match parse_program(source, kind) {
        Ok(program) => {
            let file_uri = path_to_uri(file_path, root);
            let mut out = scan_program_classnames(&program, source, pattern, file_uri.as_str());
            add_code_snips(&mut out, source);
            (out, None)
        },
        Err(m) => {
            let r: (Vec<Incident>, Option<ParseError>) = (
                Vec::new(),
                Some(parse_error(file_path, m)),
            );
            assert(incident_models(r.0@) =~= Seq::<IncidentV>::empty());
            r
        },
    }
}

/// Scan a single file for CSS variable references in JS/TS.
pub fn scan_file_css_vars(
    file_path: &str,
    source: &str,
    root: &str,
    pattern: &regex::Regex,
) -> (r: (Vec<Incident>, Option<ParseError>))
    ensures
        ({
            let program = program_of(source@, kind_of(file_path@, source@));
            scan_outcome(r) == outcome_of(
                program,
                css_var_hits(
                    body_of(program),
                    body_of(program).len() as int,
                    Scan {
                        source: source@,
                        pattern: regex_source(*pattern),
                        file_uri: uri_of(file_path@, root@),
                    },
                ),
                file_path@,
                source@,
            )
        }),
{
    let kind = source_type_for_file(file_path, source);
    match parse_program(source, kind) {
        Ok(program) => {
            let file_uri = path_to_uri(file_path, root);
            let mut out = scan_program_css_vars(&program, source, pattern, file_uri.as_str());
            add_code_snips(&mut out, source);
            (out, None)
        },
        Err(m) => {
            let r: (Vec<Incident>, Option<ParseError>) = (
                Vec::new(),
                Some(parse_error(file_path, m)),
            );
            assert(incident_models(r.0@) =~= Seq::<IncidentV>::empty());
            r
        },
    }
}

} // verus!
