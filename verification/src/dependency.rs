//! package.json dependency analysis.
//!
//! Checks if a project has specific dependencies at specific version ranges. Also looks at the
//! packages that depend on a matched package according to the lockfile: where such a package is
//! a direct dependency of the project, it is flagged too.

use crate::capabilities::DependencyCondition;
use crate::incident::{
    append_incidents, bare_incident, entry_models, incident_models, opt_view, push_incident,
    Incident, IncidentV, Location, Position,
};
use crate::json::{
    field, lookup, parse_shallow_json, shallow_document_model, shallow_reading, text, Json, JsonV,
};
use crate::paths::{components, same_path};
use crate::pattern::{regex_accepts, regex_source, regex_valid};
use crate::scanner::{code_snip, code_snip_text};
use crate::text::{
    chars_of, concat, concat3, contains, decimal_u64, has_text, join_path, joined, lines, lines_of,
    parse_u64, same, split, split_on, starts_with, text_of, texts, trim, trimmed,
};
use vstd::prelude::*;

verus! {

/// Parsed dependency from package.json.
#[derive(Debug)]
pub struct PackageDependency {
    pub name: String,
    pub version: String,
    /// "dependencies", "devDependencies" or "peerDependencies"
    pub dep_type: String,
    pub line_number: u32,
}

/// What a condition holds.
pub ghost struct ConditionV {
    pub name: Option<Seq<char>>,
    pub nameregex: Option<Seq<char>>,
    pub upperbound: Option<Seq<char>>,
    pub lowerbound: Option<Seq<char>>,
}

impl View for DependencyCondition {
    type V = ConditionV;

    open spec fn view(&self) -> ConditionV {
        ConditionV {
            name: opt_view(self.name),
            nameregex: opt_view(self.nameregex),
            upperbound: opt_view(self.upperbound),
            lowerbound: opt_view(self.lowerbound),
        }
    }
}

/// A version without the prefix that makes it a range.
pub open spec fn bare_version(version: Seq<char>) -> Seq<char> {
    let v = trimmed(version);
    if ">="@.is_prefix_of(v) || "<="@.is_prefix_of(v) {
        trimmed(v.skip(2))
    } else if v.len() > 0 && (v[0] == '^' || v[0] == '~' || v[0] == '>' || v[0] == '<' || v[0]
        == '=') {
        trimmed(v.skip(1))
    } else {
        v
    }
}

/// Strip npm version range prefixes: ^, ~, >=, <=, >, <, =
pub fn strip_npm_prefix(version: &str) -> (r: String)
    ensures
        r@ == bare_version(version@),
{
    proof {
        reveal_strlit(">=");
        reveal_strlit("<=");
        assert(">="@ =~= seq!['>', '=']);
        assert("<="@ =~= seq!['<', '=']);
    }
    let v = trim(version);
    let c = chars_of(v.as_str());
    let n: usize = c.len();
    if n >= 2 && (c[0] == '>' || c[0] == '<') && c[1] == '=' {
        assert(v@.take(2) =~= seq![v@[0], '=']);
        let rest = text_of(&c, 2, n);
        assert(c@.subrange(2, n as int) =~= v@.skip(2));
        return trim(rest.as_str());
    }
    assert(!(">="@.is_prefix_of(v@)) && !("<="@.is_prefix_of(v@))) by {
        if ">="@.is_prefix_of(v@) {
            assert(v@[0] == ">="@[0] && v@[1] == ">="@[1]);
        }
        if "<="@.is_prefix_of(v@) {
            assert(v@[0] == "<="@[0] && v@[1] == "<="@[1]);
        }
    }
    if n > 0 && (c[0] == '^' || c[0] == '~' || c[0] == '>' || c[0] == '<' || c[0] == '=') {
        let rest = text_of(&c, 1, n);
        assert(c@.subrange(1, n as int) =~= v@.skip(1));
        return trim(rest.as_str());
    }
    v
}

/// The number that the part of a version at an index stands for.
pub open spec fn version_number(parts: Seq<Seq<char>>, i: int) -> Option<u64> {
    if 0 <= i < parts.len() {
        decimal_u64(parts[i])
    } else {
        None
    }
}

/// A number, or zero where there is none.
pub open spec fn or_zero(n: Option<u64>) -> u64 {
    match n {
        Some(x) => x,
        None => 0,
    }
}

/// The parts of a version, without what follows a hyphen or a plus sign.
pub open spec fn version_parts(s: Seq<char>) -> Seq<Seq<char>> {
    split(split(split(trimmed(s), '-')[0], '+')[0], '.')
}

/// Major, minor and patch number of a version. Only the first has to be there.
pub open spec fn loose_version(s: Seq<char>) -> Option<(u64, u64, u64)> {
    let parts = version_parts(s);
    match version_number(parts, 0) {
        Some(major) => Some(
            (major, or_zero(version_number(parts, 1)), or_zero(version_number(parts, 2))),
        ),
        None => None,
    }
}

fn number_at(parts: &Vec<String>, i: usize) -> (r: Option<u64>)
    ensures
        r == version_number(texts(parts@), i as int),
{
    if i < parts.len() {
        assert(texts(parts@)[i as int] == parts@[i as int]@);
        let c = chars_of(parts[i].as_str());
        parse_u64(&c)
    } else {
        None
    }
}

/// Loose semver parsing: extracts (major, minor, patch) from a version string.
/// Handles versions like "5.4.2", "6.0.0-alpha.1", "5.4.2-rc.1".
pub fn parse_loose_semver(s: &str) -> (r: Option<(u64, u64, u64)>)
    ensures
        r == loose_version(s@),
{
    let t = trim(s);
    proof {
        crate::text::lemma_split_len(t@, '-');
    }
    let head = split_on(t.as_str(), '-');
    assert(split(t@, '-')[0] == head@[0]@);
    proof {
        crate::text::lemma_split_len(head@[0]@, '+');
    }
    let core = split_on(head[0].as_str(), '+');
    assert(split(head@[0]@, '+')[0] == core@[0]@);
    let parts = split_on(core[0].as_str(), '.');
    let major = match number_at(&parts, 0) {
        Some(n) => n,
        None => return None,
    };
    let minor: u64 = match number_at(&parts, 1) {
        Some(n) => n,
        None => 0,
    };
    let patch: u64 = match number_at(&parts, 2) {
        Some(n) => n,
        None => 0,
    };
    Some((major, minor, patch))
}

/// Whether a version comes before another.
pub open spec fn version_less(a: (u64, u64, u64), b: (u64, u64, u64)) -> bool {
    a.0 < b.0 || (a.0 == b.0 && (a.1 < b.1 || (a.1 == b.1 && a.2 < b.2)))
}

/// The version that a bound stands for.
pub open spec fn bound_version(bound: Option<Seq<char>>) -> Option<(u64, u64, u64)> {
    match bound {
        Some(b) => loose_version(bare_version(b)),
        None => None,
    }
}

/// Whether a version lies within the bounds of a condition. A version that cannot be read, or a
/// bound that cannot, rules nothing out.
pub open spec fn in_bounds(version: Seq<char>, c: ConditionV) -> bool {
    match loose_version(bare_version(version)) {
        Some(v) => {
            &&& bound_version(c.upperbound) matches Some(b) ==> !version_less(b, v)
            &&& bound_version(c.lowerbound) matches Some(b) ==> !version_less(v, b)
        },
        None => true,
    }
}

fn less(a: (u64, u64, u64), b: (u64, u64, u64)) -> (r: bool)
    ensures
        r == version_less(a, b),
{
    a.0 < b.0 || (a.0 == b.0 && (a.1 < b.1 || (a.1 == b.1 && a.2 < b.2)))
}

fn read_version(s: &str) -> (r: Option<(u64, u64, u64)>)
    ensures
        r == loose_version(bare_version(s@)),
{
    let bare = strip_npm_prefix(s);
    parse_loose_semver(bare.as_str())
}

/// Check if a version string falls within the condition's bounds.
///
/// Strips npm version range prefixes (^, ~, >=, etc.) to extract the base version for
/// comparison.
pub fn version_in_bounds(version: &str, condition: &DependencyCondition) -> (r: bool)
    ensures
        r == in_bounds(version@, condition@),
{
    let v = match read_version(version) {
        Some(x) => x,
        None => return true,
    };
    if let Some(upper) = &condition.upperbound {
        if let Some(bound) = read_version(upper.as_str()) {
            if less(bound, v) {
                return false;
            }
        }
    }
    if let Some(lower) = &condition.lowerbound {
        if let Some(bound) = read_version(lower.as_str()) {
            if less(v, bound) {
                return false;
            }
        }
    }
    true
}

/// A version within an upper bound is within every higher one.
pub proof fn law_higher_bound_admits(version: Seq<char>, c: ConditionV, d: ConditionV)
    requires
        in_bounds(version, c),
        c.lowerbound == d.lowerbound,
        match (bound_version(c.upperbound), bound_version(d.upperbound)) {
            (Some(a), Some(b)) => !version_less(b, a),
            (None, Some(_)) => false,
            _ => true,
        },
    ensures
        in_bounds(version, d),
{
}

/// The number of the first of the lines from index `from` on that holds a text; one where none
/// does.
pub open spec fn line_holding(file: Seq<Seq<char>>, needle: Seq<char>, from: int) -> u32
    decreases file.len() - from,
{
    if from < 0 || from >= file.len() {
        1
    } else if contains(file[from], needle) {
        (from + 1) as u32
    } else {
        line_holding(file, needle, from + 1)
    }
}

/// The line of a JSON key: the first that holds the key in quotes.
pub open spec fn key_line(content: Seq<char>, key: Seq<char>) -> u32 {
    line_holding(lines_of(content), "\""@ + key + "\""@, 0)
}

/// Find the line number of a JSON key in the source text.
pub fn find_key_line(content: &str, key: &str) -> (r: u32)
    ensures
        r == key_line(content@, key@),
{
    let needle = concat3("\"", key, "\"");
    let file = lines(content);
    let ghost f = lines_of(content@);
    let mut i: usize = 0;
    while i < file.len()
        invariant
            f == texts(file@),
            f == lines_of(content@),
            needle@ == "\""@ + key@ + "\""@,
            i <= file@.len(),
            line_holding(f, needle@, 0) == line_holding(f, needle@, i as int),
        decreases file.len() - i,
    {
        assert(f[i as int] == file@[i as int]@);
        if has_text(file[i].as_str(), needle.as_str()) {
            return (i + 1) as u32;
        }
        i = i + 1;
    }
    1
}

/// The dependencies in a section of a package.json.
pub open spec fn section_of(pkg: JsonV, section: Seq<char>) -> Seq<(Seq<char>, JsonV)> {
    match field(pkg, section) {
        Some(JsonV::Object(s)) => s,
        _ => Seq::empty(),
    }
}

/// The version that a dependency names.
pub open spec fn version_of(v: JsonV) -> Seq<char> {
    match text(v) {
        Some(s) => s,
        None => Seq::empty(),
    }
}

/// Whether a condition is about a dependency of the given name.
pub open spec fn name_matches(c: ConditionV, name: Seq<char>) -> bool {
    match (c.name, c.nameregex) {
        (Some(exact), _) => name == exact,
        (None, Some(pattern)) => regex_accepts(pattern, name),
        (None, None) => true,
    }
}

/// The incident with three lines of the file before and after its line.
pub open spec fn with_content(i: IncidentV, content: Seq<char>, line: u32) -> IncidentV {
    if line <= u32::MAX - 3 {
        IncidentV { code_snip: Some(code_snip_text(content, line, 3)), ..i }
    } else {
        i
    }
}

/// The place of a dependency in a package.json.
pub open spec fn at_line(file_uri: Seq<char>, line: u32) -> IncidentV {
    let zero_based: u32 = if line == 0 {
        0
    } else {
        (line - 1) as u32
    };
    bare_incident(
        file_uri,
        line,
        Location {
            start: Position { line: zero_based, character: 0 },
            end: Position { line: zero_based, character: 0 },
        },
    )
}

/// The incident for a dependency.
pub open spec fn dependency_hit(
    path: Seq<char>,
    content: Seq<char>,
    name: Seq<char>,
    version: Seq<char>,
    section: Seq<char>,
) -> IncidentV {
    let line = key_line(content, name);
    with_content(
        at_line("file://"@ + path, line).with_text("dependencyName"@, name).with_text(
            "dependencyVersion"@,
            version,
        ).with_text("dependencyType"@, section),
        content,
        line,
    )
}

/// The incidents for the first `n` dependencies of a section.
pub open spec fn section_hits(
    entries: Seq<(Seq<char>, JsonV)>,
    n: int,
    c: ConditionV,
    path: Seq<char>,
    content: Seq<char>,
    section: Seq<char>,
) -> Seq<IncidentV>
    decreases n,
{
    if n <= 0 || n > entries.len() {
        Seq::empty()
    } else {
        let before = section_hits(entries, n - 1, c, path, content, section);
        let (name, value) = entries[n - 1];
        if name_matches(c, name) && in_bounds(version_of(value), c) {
            before.push(dependency_hit(path, content, name, version_of(value), section))
        } else {
            before
        }
    }
}

/// The incidents for a section of a package.json.
pub open spec fn hits_in_section(
    pkg: JsonV,
    c: ConditionV,
    path: Seq<char>,
    content: Seq<char>,
    section: Seq<char>,
) -> Seq<IncidentV> {
    section_hits(
        section_of(pkg, section),
        section_of(pkg, section).len() as int,
        c,
        path,
        content,
        section,
    )
}

/// The incidents for a package.json: those of its three sections in turn.
pub open spec fn package_hits(
    pkg: JsonV,
    c: ConditionV,
    path: Seq<char>,
    content: Seq<char>,
) -> Seq<IncidentV> {
    hits_in_section(pkg, c, path, content, "dependencies"@) + hits_in_section(
        pkg,
        c,
        path,
        content,
        "devDependencies"@,
    ) + hits_in_section(pkg, c, path, content, "peerDependencies"@)
}

/// Whether a check of a package.json needs the regular expression of a condition.
pub open spec fn needs_pattern(pkg: JsonV, c: ConditionV) -> bool {
    c.name is None && c.nameregex is Some && (section_of(pkg, "dependencies"@).len() > 0
        || section_of(pkg, "devDependencies"@).len() > 0 || section_of(
        pkg,
        "peerDependencies"@,
    ).len() > 0)
}

/// Whether an incident is that of a dependency that meets a condition.
pub open spec fn meets(i: IncidentV, c: ConditionV) -> bool {
    exists|name: Seq<char>, version: Seq<char>|
        {
            &&& #[trigger] name_matches(c, name)
            &&& #[trigger] in_bounds(version, c)
            &&& i.variables.dom().contains("dependencyName"@)
            &&& i.variables["dependencyName"@] == JsonV::Text(name)
            &&& i.variables.dom().contains("dependencyVersion"@)
            &&& i.variables["dependencyVersion"@] == JsonV::Text(version)
        }
}

proof fn lemma_section_meets(
    entries: Seq<(Seq<char>, JsonV)>,
    n: int,
    c: ConditionV,
    path: Seq<char>,
    content: Seq<char>,
    section: Seq<char>,
)
    ensures
        forall|k: int|
            0 <= k < section_hits(entries, n, c, path, content, section).len() ==> meets(
                #[trigger] section_hits(entries, n, c, path, content, section)[k],
                c,
            ),
    decreases n,
{
    if 0 < n <= entries.len() {
        lemma_section_meets(entries, n - 1, c, path, content, section);
        let (name, value) = entries[n - 1];
        let version = version_of(value);
        if name_matches(c, name) && in_bounds(version, c) {
            let hit = dependency_hit(path, content, name, version, section);
            reveal_strlit("dependencyName");
            reveal_strlit("dependencyVersion");
            reveal_strlit("dependencyType");
            assert("dependencyName"@.len() == 14);
            assert("dependencyVersion"@.len() == 17);
            assert("dependencyType"@.len() == 14);
            assert("dependencyName"@[10] == 'N' && "dependencyType"@[10] == 'T');
            assert(hit.variables["dependencyName"@] == JsonV::Text(name));
            assert(meets(hit, c));
            assert(section_hits(entries, n, c, path, content, section) == section_hits(
                entries,
                n - 1,
                c,
                path,
                content,
                section,
            ).push(hit));
        }
    }
}

/// Every dependency that is reported has a name that matches and a version within the bounds.
pub proof fn law_reported_dependencies_meet(
    pkg: JsonV,
    c: ConditionV,
    path: Seq<char>,
    content: Seq<char>,
)
    ensures
        forall|k: int|
            0 <= k < package_hits(pkg, c, path, content).len() ==> meets(
                #[trigger] package_hits(pkg, c, path, content)[k],
                c,
            ),
{
    let d = section_of(pkg, "dependencies"@);
    let v = section_of(pkg, "devDependencies"@);
    let p = section_of(pkg, "peerDependencies"@);
    lemma_section_meets(d, d.len() as int, c, path, content, "dependencies"@);
    lemma_section_meets(v, v.len() as int, c, path, content, "devDependencies"@);
    lemma_section_meets(p, p.len() as int, c, path, content, "peerDependencies"@);
}

/// Why dependencies could not be checked.
#[derive(Debug)]
pub enum DependencyError {
    /// A package.json is no JSON document, and why.
    Json(String),
    /// The name pattern is no regular expression.
    Pattern(regex::Error),
}

/// The entries of a section.
fn entries_of<'a>(pkg: &'a Json, section: &str) -> (r: Option<&'a Vec<(String, Json)>>)
    ensures
        match r {
            Some(v) => section_of(pkg@, section@) == entry_models(v@),
            None => section_of(pkg@, section@).len() == 0,
        },
{
    match pkg.get(section) {
        Some(Json::Object(v)) => {
            assert(section_of(pkg@, section@) =~= entry_models(v@));
            Some(v)
        },
        _ => None,
    }
}

fn has_entries(pkg: &Json, section: &str) -> (r: bool)
    ensures
        r == (section_of(pkg@, section@).len() > 0),
{
    match entries_of(pkg, section) {
        Some(v) => {
            assert(entry_models(v@).len() == v@.len());
            v.len() > 0
        },
        None => false,
    }
}

/// An incident at a line of a package.json, with the lines around it.
fn incident_in(path: &str, content: &str, line: u32) -> (r: Incident)
    ensures
        r@ == with_content(at_line("file://"@ + path@, line), content@, line),
{
    let zero_based: u32 = if line == 0 {
        0
    } else {
        line - 1
    };
    let mut incident = Incident::new(
        concat("file://", path),
        line,
        Location {
            start: Position { line: zero_based, character: 0 },
            end: Position { line: zero_based, character: 0 },
        },
    );
    if line <= u32::MAX - 3 {
        incident.code_snip = Some(code_snip(content, line, 3));
    }
    incident
}

fn check_section(
    pkg: &Json,
    section: &str,
    condition: &DependencyCondition,
    pattern: &Option<regex::Regex>,
    path: &str,
    content: &str,
) -> (out: Vec<Incident>)
    requires
        pattern matches Some(re) ==> condition@.nameregex == Some(regex_source(*re)),
        condition@.name is None && condition@.nameregex is Some && section_of(
            pkg@,
            section@,
        ).len() > 0 ==> pattern is Some,
    ensures
        incident_models(out@) == hits_in_section(pkg@, condition@, path@, content@, section@),
{
    let ghost entries = section_of(pkg@, section@);
    let ghost c = condition@;
    let mut out: Vec<Incident> = Vec::new();
    assert(incident_models(out@) =~= section_hits(entries, 0, c, path@, content@, section@));
    if let Some(list) = entries_of(pkg, section) {
        let mut i: usize = 0;
        while i < list.len()
            invariant
                entries == entry_models(list@),
                c == condition@,
                pattern matches Some(re) ==> c.nameregex == Some(regex_source(*re)),
                c.name is None && c.nameregex is Some && entries.len() > 0 ==> pattern is Some,
                i <= list@.len(),
                incident_models(out@) == section_hits(
                    entries,
                    i as int,
                    c,
                    path@,
                    content@,
                    section@,
                ),
            decreases list.len() - i,
        {
            let name = list[i].0.as_str();
            assert(entries[i as int] == (list@[i as int].0@, list@[i as int].1@));
            let version = match list[i].1.as_str() {
                Some(s) => s.to_owned(),
                None => String::new(),
            };
            let matched = match &condition.name {
                Some(exact) => same(name, exact.as_str()),
                None => match pattern {
                    Some(re) => re.is_match(name),
                    None => true,
                },
            };
            if matched && version_in_bounds(version.as_str(), condition) {
                let line = find_key_line(content, name);
                let mut incident = incident_in(path, content, line);
                incident.set_text("dependencyName", name);
                incident.set_text("dependencyVersion", version.as_str());
                incident.set_text("dependencyType", section);
                assert(incident@ =~= dependency_hit(
                    path@,
                    content@,
                    name@,
                    version@,
                    section@,
                ));
                push_incident(&mut out, incident);
            }
            i = i + 1;
        }
    }
    out
}

/// What a check of dependencies comes to.
pub ghost enum CheckV {
    /// The document cannot be read, and why.
    Json(Seq<char>),
    /// The name pattern cannot be compiled.
    Pattern,
    Found(Seq<IncidentV>),
}

/// What the result of a check stands for.
pub open spec fn check_view(r: Result<Vec<Incident>, DependencyError>) -> CheckV {
    match r {
        Ok(v) => CheckV::Found(incident_models(v@)),
        Err(DependencyError::Json(m)) => CheckV::Json(m@),
        Err(DependencyError::Pattern(_)) => CheckV::Pattern,
    }
}

/// What the check of a package.json comes to.
pub open spec fn package_check(path: Seq<char>, content: Seq<char>, c: ConditionV) -> CheckV {
    match shallow_reading(content) {
        Ok(pkg) => checked(pkg, path, content, c),
        Err(message) => CheckV::Json(message),
    }
}

/// What the check of a package.json comes to, once it has been read.
pub open spec fn checked(pkg: JsonV, path: Seq<char>, content: Seq<char>, c: ConditionV) -> CheckV {
    if needs_pattern(pkg, c) && !regex_valid(c.nameregex->0) {
        CheckV::Pattern
    } else {
        CheckV::Found(package_hits(pkg, c, path, content))
    }
}

/// Check a package.json that has been read for dependencies matching the condition.
pub fn check_package(
    pkg: &Json,
    pkg_path: &str,
    content: &str,
    condition: &DependencyCondition,
) -> (r: Result<Vec<Incident>, DependencyError>)
    ensures
        check_view(r) == checked(pkg@, pkg_path@, content@, condition@),
{
    let mut pattern: Option<regex::Regex> = None;
    if condition.name.is_none() {
        if let Some(text) = &condition.nameregex {
            if has_entries(pkg, "dependencies") || has_entries(pkg, "devDependencies")
                || has_entries(pkg, "peerDependencies") {
                match regex::Regex::new(text.as_str()) {
                    Ok(re) => {
                        pattern = Some(re);
                    },
                    Err(e) => return Err(DependencyError::Pattern(e)),
                }
            }
        }
    }
    let mut out = check_section(pkg, "dependencies", condition, &pattern, pkg_path, content);
    let mut dev = check_section(pkg, "devDependencies", condition, &pattern, pkg_path, content);
    let mut peer = check_section(pkg, "peerDependencies", condition, &pattern, pkg_path, content);
    append_incidents(&mut out, &mut dev);
    append_incidents(&mut out, &mut peer);
    Ok(out)
}

/// Check a single package.json for dependencies matching the condition.
pub fn check_single_package_json(
    pkg_path: &str,
    content: &str,
    condition: &DependencyCondition,
) -> (r: Result<Vec<Incident>, DependencyError>)
    ensures
        check_view(r) == package_check(pkg_path@, content@, condition@),
{
    match parse_shallow_json(content) {
        Ok(pkg) => check_package(&pkg, pkg_path, content, condition),
        Err(message) => Err(DependencyError::Json(message)),
    }
}

/// A package.json of the project.
#[derive(Debug)]
pub struct PackageFile {
    pub path: String,
    pub content: String,
}

/// A package that the lockfile lists, with the packages it depends on and the constraint it has
/// on each.
#[derive(Debug)]
pub struct LockfileEntry {
    pub name: String,
    pub version: String,
    pub dependencies: Vec<(String, String)>,
}

/// What the check of the first `n` package.json files comes to: the incidents of all of them, or
/// the first error.
pub open spec fn packages_check(packages: Seq<PackageFile>, n: int, c: ConditionV) -> CheckV
    decreases n,
{
    if n <= 0 || n > packages.len() {
        CheckV::Found(Seq::empty())
    } else {
        match packages_check(packages, n - 1, c) {
            CheckV::Found(before) => match package_check(
                packages[n - 1].path@,
                packages[n - 1].content@,
                c,
            ) {
                CheckV::Found(own) => CheckV::Found(before + own),
                failed => failed,
            },
            failed => failed,
        }
    }
}

/// The section of a package.json that names a package.
pub open spec fn naming_section(content: Seq<char>, name: Seq<char>) -> Option<Seq<char>> {
    match shallow_document_model(content) {
        None => None,
        Some(pkg) => if lookup(section_of(pkg, "dependencies"@), name) is Some {
            Some("dependencies"@)
        } else if lookup(section_of(pkg, "devDependencies"@), name) is Some {
            Some("devDependencies"@)
        } else if lookup(section_of(pkg, "peerDependencies"@), name) is Some {
            Some("peerDependencies"@)
        } else {
            None
        },
    }
}

/// The index of the first package.json, from `from` on, that names a package.
pub open spec fn naming_package(packages: Seq<PackageFile>, name: Seq<char>, from: int) -> Option<
    int,
>
    decreases packages.len() - from,
{
    if from < 0 || from >= packages.len() {
        None
    } else if naming_section(packages[from].content@, name) is Some {
        Some(from)
    } else {
        naming_package(packages, name, from + 1)
    }
}

/// The constraint that a lockfile entry has on a package.
pub open spec fn constraint_on(dependencies: Seq<(String, String)>, name: Seq<char>, from: int) -> Option<
    Seq<char>,
>
    decreases dependencies.len() - from,
{
    if from < 0 || from >= dependencies.len() {
        None
    } else if dependencies[from].0@ == name {
        Some(dependencies[from].1@)
    } else {
        constraint_on(dependencies, name, from + 1)
    }
}

/// The incident for a package that depends on a matched one.
pub open spec fn dependent_hit(
    package: PackageFile,
    section: Seq<char>,
    entry: LockfileEntry,
    target: Seq<char>,
) -> IncidentV {
    let line = key_line(package.content@, entry.name@);
    let base = at_line("file://"@ + package.path@, line).with_text(
        "dependencyName"@,
        entry.name@,
    ).with_text("dependencyVersion"@, entry.version@).with_text(
        "dependencyType"@,
        section,
    ).with_text("isDependentOf"@, target);
    let constraint = constraint_on(entry.dependencies@, target, 0)->0;
    with_content(base.with_text("dependentConstraint"@, constraint), package.content@, line)
}

/// The version range in a lockfile constraint, which may name the registry before it.
pub open spec fn constraint_range(constraint: Seq<char>) -> Seq<char> {
    if "npm:"@.is_prefix_of(constraint) {
        constraint.skip("npm:"@.len() as int)
    } else {
        constraint
    }
}

/// Whether a lockfile entry depends on a package at a version within the bounds of a condition.
pub open spec fn depends_within(entry: LockfileEntry, target: Seq<char>, c: ConditionV) -> bool {
    match constraint_on(entry.dependencies@, target, 0) {
        Some(text) => in_bounds(constraint_range(text), c),
        None => false,
    }
}

/// The incidents for the first `n` of the packages of a lockfile: one for each that depends on the
/// matched package within the bounds and that a package.json names.
pub open spec fn dependent_hits(
    packages: Seq<PackageFile>,
    dependents: Seq<LockfileEntry>,
    n: int,
    target: Seq<char>,
    c: ConditionV,
) -> Seq<IncidentV>
    decreases n,
{
    if n <= 0 || n > dependents.len() {
        Seq::empty()
    } else {
        let before = dependent_hits(packages, dependents, n - 1, target, c);
        let entry = dependents[n - 1];
        match naming_package(packages, entry.name@, 0) {
            Some(k) => if depends_within(entry, target, c) {
                before.push(
                    dependent_hit(
                        packages[k],
                        naming_section(packages[k].content@, entry.name@)->0,
                        entry,
                        target,
                    ),
                )
            } else {
                before
            },
            None => before,
        }
    }
}

/// Whether an incident for a dependent gives a constraint within the bounds of a condition.
pub open spec fn dependent_meets(i: IncidentV, c: ConditionV) -> bool {
    &&& i.variables.dom().contains("dependentConstraint"@)
    &&& i.variables["dependentConstraint"@] matches JsonV::Text(t)
    &&& in_bounds(constraint_range(t), c)
}

/// Every dependent that is reported depends on the matched package within the bounds.
pub proof fn law_reported_dependents_meet(
    packages: Seq<PackageFile>,
    dependents: Seq<LockfileEntry>,
    n: int,
    target: Seq<char>,
    c: ConditionV,
)
    ensures
        forall|k: int|
            0 <= k < dependent_hits(packages, dependents, n, target, c).len() ==> dependent_meets(
                #[trigger] dependent_hits(packages, dependents, n, target, c)[k],
                c,
            ),
    decreases n,
{
    if 0 < n <= dependents.len() {
        law_reported_dependents_meet(packages, dependents, n - 1, target, c);
        let before = dependent_hits(packages, dependents, n - 1, target, c);
        let entry = dependents[n - 1];
        if let Some(k) = naming_package(packages, entry.name@, 0) {
            if depends_within(entry, target, c) {
                let section = naming_section(packages[k].content@, entry.name@)->0;
                let hit = dependent_hit(packages[k], section, entry, target);
                assert(dependent_meets(hit, c));
                assert(dependent_hits(packages, dependents, n, target, c) == before.push(hit));
            }
        }
    }
}

/// What the check of a project comes to.
pub open spec fn project_check(
    packages: Seq<PackageFile>,
    dependents: Seq<LockfileEntry>,
    c: ConditionV,
) -> CheckV {
    match (packages_check(packages, packages.len() as int, c), c.name) {
        (CheckV::Found(own), Some(target)) => CheckV::Found(
            own + dependent_hits(packages, dependents, dependents.len() as int, target, c),
        ),
        (outcome, _) => outcome,
    }
}

fn names(pkg: &Json, section: &str, name: &str) -> (r: bool)
    ensures
        r == (lookup(section_of(pkg@, section@), name@) is Some),
{
    match pkg.get(section) {
        Some(s) => {
            assert(field(pkg@, section@) == Some(s@));
            match s.get(name) {
                Some(_) => true,
                None => false,
            }
        },
        None => false,
    }
}

/// The section of a package.json that names a package.
fn section_naming(content: &str, name: &str) -> (r: Option<&'static str>)
    ensures
        (match r {
            Some(s) => Some(s@),
            None => None,
        }) == naming_section(content@, name@),
{
    let pkg = match parse_shallow_json(content) {
        Ok(p) => p,
        Err(_) => return None,
    };
    if names(&pkg, "dependencies", name) {
        Some("dependencies")
    } else if names(&pkg, "devDependencies", name) {
        Some("devDependencies")
    } else if names(&pkg, "peerDependencies", name) {
        Some("peerDependencies")
    } else {
        None
    }
}

/// The package.json that declares a package as a direct dependency, and the section where it
/// does. Where several do, it is the first of them.
pub fn find_direct_dep(packages: &Vec<PackageFile>, name: &str) -> (r: Option<
    (usize, &'static str),
>)
    ensures
        match r {
            Some((k, section)) => {
                &&& naming_package(packages@, name@, 0) == Some(k as int)
                &&& k < packages@.len()
                &&& naming_section(packages@[k as int].content@, name@) == Some(section@)
            },
            None => naming_package(packages@, name@, 0) is None,
        },
{
    let mut i: usize = 0;
    while i < packages.len()
        invariant
            i <= packages@.len(),
            naming_package(packages@, name@, 0) == naming_package(packages@, name@, i as int),
        decreases packages.len() - i,
    {
        if let Some(section) = section_naming(packages[i].content.as_str(), name) {
            return Some((i, section));
        }
        i = i + 1;
    }
    None
}

fn constraint_of<'a>(entry: &'a LockfileEntry, name: &str) -> (r: Option<&'a str>)
    ensures
        (match r {
            Some(s) => Some(s@),
            None => None,
        }) == constraint_on(entry.dependencies@, name@, 0),
{
    let mut i: usize = 0;
    while i < entry.dependencies.len()
        invariant
            i <= entry.dependencies@.len(),
            constraint_on(entry.dependencies@, name@, 0) == constraint_on(
                entry.dependencies@,
                name@,
                i as int,
            ),
        decreases entry.dependencies.len() - i,
    {
        if same(entry.dependencies[i].0.as_str(), name) {
            return Some(entry.dependencies[i].1.as_str());
        }
        i = i + 1;
    }
    None
}

/// The version range in a lockfile constraint.
fn range_in(constraint: &str) -> (r: String)
    ensures
        r@ == constraint_range(constraint@),
{
    if starts_with(constraint, "npm:") {
        proof {
            reveal_strlit("npm:");
        }
        let c = chars_of(constraint);
        assert(c@.subrange(4, c@.len() as int) =~= constraint@.skip(4));
        text_of(&c, 4, c.len())
    } else {
        constraint.to_owned()
    }
}

/// For each of the packages of the lockfile that depend on `target_name` at a version within the
/// condition's bounds, emit an incident if it is also a direct dependency of the project: only
/// those can be updated.
pub fn check_lockfile_dependents(
    packages: &Vec<PackageFile>,
    dependents: &Vec<LockfileEntry>,
    target_name: &str,
    condition: &DependencyCondition,
) -> (out: Vec<Incident>)
    ensures
        incident_models(out@) == dependent_hits(
            packages@,
            dependents@,
            dependents@.len() as int,
            target_name@,
            condition@,
        ),
{
    let mut out: Vec<Incident> = Vec::new();
    let ghost c = condition@;
    assert(incident_models(out@) =~= dependent_hits(packages@, dependents@, 0, target_name@, c));
    let mut i: usize = 0;
    while i < dependents.len()
        invariant
            i <= dependents@.len(),
            c == condition@,
            incident_models(out@) == dependent_hits(
                packages@,
                dependents@,
                i as int,
                target_name@,
                c,
            ),
        decreases dependents.len() - i,
    {
        let entry = &dependents[i];
        if let Some(constraint) = constraint_of(entry, target_name) {
            let range = range_in(constraint);
            if version_in_bounds(range.as_str(), condition) {
                if let Some((k, section)) = find_direct_dep(packages, entry.name.as_str()) {
                    let content = packages[k].content.as_str();
                    let line = find_key_line(content, entry.name.as_str());
                    let mut incident = incident_in(packages[k].path.as_str(), content, line);
                    incident.set_text("dependencyName", entry.name.as_str());
                    incident.set_text("dependencyVersion", entry.version.as_str());
                    incident.set_text("dependencyType", section);
                    incident.set_text("isDependentOf", target_name);
                    incident.set_text("dependentConstraint", constraint);
                    assert(incident@ =~= dependent_hit(
                        packages@[k as int],
                        section@,
                        *entry,
                        target_name@,
                    ));
                    push_incident(&mut out, incident);
                }
            }
        }
        i = i + 1;
    }
    out
}

/// Check package.json files for dependencies matching the condition.
///
/// `packages` are the package.json files of the project, `dependents` the packages of the lockfile:
/// where one of them depends on the package that the condition names, at a version within the
/// bounds, and is a direct dependency of the project, an additional incident is emitted for it.
pub fn check_dependencies(
    packages: &Vec<PackageFile>,
    dependents: &Vec<LockfileEntry>,
    condition: &DependencyCondition,
) -> (r: Result<Vec<Incident>, DependencyError>)
    ensures
        check_view(r) == project_check(packages@, dependents@, condition@),
{
    let mut out: Vec<Incident> = Vec::new();
    let ghost c = condition@;
    assert(incident_models(out@) =~= Seq::<IncidentV>::empty());
    let mut i: usize = 0;
    while i < packages.len()
        invariant
            i <= packages@.len(),
            c == condition@,
            packages_check(packages@, i as int, c) == CheckV::Found(incident_models(out@)),
        decreases packages.len() - i,
    {
        match check_single_package_json(
            packages[i].path.as_str(),
            packages[i].content.as_str(),
            condition,
        ) {
            Ok(mut more) => {
                append_incidents(&mut out, &mut more);
            },
            Err(e) => {
                proof {
                    lemma_check_stops(packages@, i + 1, packages@.len() as int, c);
                }
                return Err(e);
            },
        }
        i = i + 1;
    }
    if let Some(target) = &condition.name {
        let mut more = check_lockfile_dependents(packages, dependents, target.as_str(), condition);
        append_incidents(&mut out, &mut more);
    }
    Ok(out)
}

/// An error in one of the files is the outcome, whatever files follow.
proof fn lemma_check_stops(packages: Seq<PackageFile>, k: int, n: int, c: ConditionV)
    requires
        0 <= k <= n <= packages.len(),
        !(packages_check(packages, k, c) is Found),
    ensures
        packages_check(packages, n, c) == packages_check(packages, k, c),
    decreases n - k,
{
    if k < n {
        lemma_check_stops(packages, k, n - 1, c);
    }
}

/// The globs that the `workspaces` field of a package.json lists; `None` where there is no such
/// field.
pub open spec fn globs_of(pkg: JsonV) -> Option<Seq<Seq<char>>> {
    match field(pkg, "workspaces"@) {
        Some(JsonV::List(s)) => Some(texts_in(s, s.len() as int)),
        Some(JsonV::Object(_)) => match field(field(pkg, "workspaces"@)->0, "packages"@) {
            Some(JsonV::List(s)) => Some(texts_in(s, s.len() as int)),
            _ => Some(Seq::empty()),
        },
        Some(_) => Some(Seq::empty()),
        None => None,
    }
}

/// The texts among the first `n` of some values.
pub open spec fn texts_in(s: Seq<JsonV>, n: int) -> Seq<Seq<char>>
    decreases n,
{
    if n <= 0 || n > s.len() {
        Seq::empty()
    } else {
        match text(s[n - 1]) {
            Some(t) => texts_in(s, n - 1).push(t),
            None => texts_in(s, n - 1),
        }
    }
}

fn collect_texts(list: &Vec<Json>) -> (out: Vec<String>)
    ensures
        texts(out@) == texts_in(list_models(list@), list@.len() as int),
{
    let ghost s = list_models(list@);
    let mut out: Vec<String> = Vec::new();
    assert(texts(out@) =~= texts_in(s, 0));
    let mut i: usize = 0;
    while i < list.len()
        invariant
            s == list_models(list@),
            i <= list@.len(),
            texts(out@) == texts_in(s, i as int),
        decreases list.len() - i,
    {
        assert(s[i as int] == list@[i as int]@);
        if let Some(t) = list[i].as_str() {
            let ghost before = out@;
            out.push(t.to_owned());
            assert(texts(out@) =~= texts(before).push(t@));
        }
        i = i + 1;
    }
    out
}

/// The models of some values.
pub open spec fn list_models(s: Seq<Json>) -> Seq<JsonV> {
    Seq::new(s.len(), |i: int| s[i]@)
}

/// Read the globs of the `workspaces` field from a package.json. It can be an array of globs or
/// an object with a "packages" array. `None` if there is no such field.
pub fn workspace_globs(pkg: &Json) -> (r: Option<Vec<String>>)
    ensures
        (match r {
            Some(v) => Some(texts(v@)),
            None => None,
        }) == globs_of(pkg@),
{
    match pkg.get("workspaces") {
        Some(Json::List(list)) => {
            let out = collect_texts(list);
            assert(field(pkg@, "workspaces"@)->0->List_0 =~= list_models(list@));
            Some(out)
        },
        Some(ws) => {
            assert(field(pkg@, "workspaces"@) == Some(ws@));
            match ws.get("packages") {
                Some(Json::List(list)) => {
                    let out = collect_texts(list);
                    assert(field(ws@, "packages"@)->0->List_0 =~= list_models(list@));
                    Some(out)
                },
                _ => {
                    let out: Vec<String> = Vec::new();
                    assert(texts(out@) =~= Seq::<Seq<char>>::empty());
                    Some(out)
                },
            }
        },
        None => None,
    }
}

/// The pattern that finds the package.json files of a workspace glob.
pub open spec fn member_pattern(base_dir: Seq<char>, glob: Seq<char>) -> Seq<char> {
    joined(joined(base_dir, glob), "package.json"@)
}

/// The patterns that find the package.json files of the workspaces that a package.json in
/// `base_dir` declares; `None` if it cannot be read or declares none.
pub fn workspace_patterns(base_dir: &str, content: &str) -> (r: Option<Vec<String>>)
    ensures
        match (match shallow_document_model(content@) {
            Some(pkg) => globs_of(pkg),
            None => None,
        }) {
            Some(globs) => r matches Some(v) && texts(v@) == globs.map_values(
                |g: Seq<char>| member_pattern(base_dir@, g),
            ),
            None => r is None,
        },
{
    let pkg = match parse_shallow_json(content) {
        Ok(p) => p,
        Err(_) => return None,
    };
    let globs = match workspace_globs(&pkg) {
        Some(g) => g,
        None => return None,
    };
    let ghost s = texts(globs@);
    let ghost f = |g: Seq<char>| member_pattern(base_dir@, g);
    let mut out: Vec<String> = Vec::new();
    let mut i: usize = 0;
    while i < globs.len()
        invariant
            s == texts(globs@),
            i <= globs@.len(),
            out@.len() == i,
            forall|k: int| 0 <= k < i ==> (#[trigger] out@[k])@ == member_pattern(base_dir@, s[k]),
        decreases globs.len() - i,
    {
        let dir = join_path(base_dir, globs[i].as_str());
        out.push(join_path(dir.as_str(), "package.json"));
        i = i + 1;
    }
    assert(texts(out@) =~= s.map_values(f));
    Some(out)
}

/// Whether a directory is not looked into for nested workspace roots.
pub open spec fn skipped_package_dir(name: Seq<char>) -> bool {
    name == "node_modules"@ || name == ".git"@ || name == "dist"@ || name == "build"@ || name
        == ".cache"@ || name == ".next"@ || name == "coverage"@ || name == "__mocks__"@
}

/// Directories to skip when scanning for nested workspace roots.
pub fn is_skipped_package_dir(name: &str) -> (r: bool)
    ensures
        r == skipped_package_dir(name@),
{
    same(name, "node_modules") || same(name, ".git") || same(name, "dist") || same(name, "build")
        || same(name, ".cache") || same(name, ".next") || same(name, "coverage") || same(
        name,
        "__mocks__",
    )
}

/// A directory next to the root package.json that holds a package.json of its own.
#[derive(Debug)]
pub struct ChildPackage {
    pub dir_name: String,
    pub pkg_path: String,
    /// The package.json files that match its workspace globs; `None` if it declares no
    /// workspaces.
    pub members: Option<Vec<String>>,
}

/// Whether a path stands in a list, by its components.
pub open spec fn lists_path(paths: Seq<Seq<char>>, path: Seq<char>) -> bool {
    exists|i: int|
        0 <= i < paths.len() && components(#[trigger] paths[i]) == components(path)
}

/// A list of paths with the first `n` members of a workspace added: not the package.json that
/// declares it, and none twice.
pub open spec fn with_members(
    paths: Seq<Seq<char>>,
    members: Seq<Seq<char>>,
    n: int,
    own: Seq<char>,
) -> Seq<Seq<char>>
    decreases n,
{
    if n <= 0 || n > members.len() {
        paths
    } else {
        let before = with_members(paths, members, n - 1, own);
        let m = members[n - 1];
        if components(m) != components(own) && !lists_path(before, m) {
            before.push(m)
        } else {
            before
        }
    }
}

/// A list of paths with the members of a workspace, if there is one.
pub open spec fn expanded(
    paths: Seq<Seq<char>>,
    members: Option<Vec<String>>,
    own: Seq<char>,
) -> Seq<Seq<char>> {
    match members {
        Some(m) => with_members(paths, texts(m@), m@.len() as int, own),
        None => paths,
    }
}

/// The paths that the first `n` child directories give.
pub open spec fn child_paths(children: Seq<ChildPackage>, n: int, root_pkg: Seq<char>) -> Seq<
    Seq<char>,
>
    decreases n,
{
    if n <= 0 || n > children.len() {
        Seq::empty()
    } else {
        let before = child_paths(children, n - 1, root_pkg);
        let child = children[n - 1];
        if skipped_package_dir(child.dir_name@) || components(child.pkg_path@) == components(
            root_pkg,
        ) {
            before
        } else {
            let all = expanded(before, child.members, child.pkg_path@);
            if lists_path(all, child.pkg_path@) {
                all
            } else {
                all.push(child.pkg_path@)
            }
        }
    }
}

/// The package.json files of a project, the root's last.
pub open spec fn project_paths(
    root_pkg: Seq<char>,
    members: Option<Vec<String>>,
    children: Seq<ChildPackage>,
) -> Seq<Seq<char>> {
    (if members is Some {
        expanded(Seq::empty(), members, root_pkg)
    } else {
        child_paths(children, children.len() as int, root_pkg)
    }).push(root_pkg)
}

fn has_path(paths: &Vec<String>, path: &str) -> (r: bool)
    ensures
        r == lists_path(texts(paths@), path@),
{
    let ghost s = texts(paths@);
    let mut i: usize = 0;
    while i < paths.len()
        invariant
            s == texts(paths@),
            i <= paths@.len(),
            forall|k: int| 0 <= k < i ==> components(#[trigger] s[k]) != components(path@),
        decreases paths.len() - i,
    {
        assert(s[i as int] == paths@[i as int]@);
        if same_path(paths[i].as_str(), path) {
            return true;
        }
        i = i + 1;
    }
    false
}

fn push_path(paths: &mut Vec<String>, path: &str)
    ensures
        texts(final(paths)@) == texts(old(paths)@).push(path@),
{
    paths.push(path.to_owned());
    assert(texts(paths@) =~= texts(old(paths)@).push(path@));
}

/// Adds the members of the workspaces that a package.json declares to `paths`. Returns whether it
/// declares any, be they none at all.
fn expand_workspaces(pkg_path: &str, members: &Option<Vec<String>>, paths: &mut Vec<String>) -> (r:
    bool)
    ensures
        r == (members is Some),
        texts(final(paths)@) == expanded(texts(old(paths)@), *members, pkg_path@),
{
    let list = match members {
        Some(m) => m,
        None => return false,
    };
    let ghost before = texts(paths@);
    let ghost s = texts(list@);
    let mut i: usize = 0;
    while i < list.len()
        invariant
            s == texts(list@),
            i <= list@.len(),
            texts(paths@) == with_members(before, s, i as int, pkg_path@),
        decreases list.len() - i,
    {
        assert(s[i as int] == list@[i as int]@);
        let m = list[i].as_str();
        if !same_path(m, pkg_path) && !has_path(paths, m) {
            push_path(paths, m);
        }
        i = i + 1;
    }
    true
}

/// Find all package.json files to check: root + workspace members.
///
/// Supports two common monorepo layouts. Where the root package.json declares workspaces, their
/// members are taken (`members`). Where it declares none, the immediate child directories of the
/// root that hold a package.json are looked at: each counts, with the members of the workspaces
/// that it declares. The root package.json comes last, so that what the workspaces declare is
/// found first.
pub fn find_package_jsons(
    root_pkg: &str,
    members: &Option<Vec<String>>,
    children: &Vec<ChildPackage>,
) -> (out: Vec<String>)
    ensures
        texts(out@) == project_paths(root_pkg@, *members, children@),
{
    let mut paths: Vec<String> = Vec::new();
    assert(texts(paths@) =~= Seq::<Seq<char>>::empty());
    let root_has_workspaces = expand_workspaces(root_pkg, members, &mut paths);
    if !root_has_workspaces {
        let mut i: usize = 0;
        while i < children.len()
            invariant
                i <= children@.len(),
                texts(paths@) == child_paths(children@, i as int, root_pkg@),
            decreases children.len() - i,
        {
            let child = &children[i];
            let pkg_path = child.pkg_path.as_str();
            if !is_skipped_package_dir(child.dir_name.as_str()) && !same_path(pkg_path, root_pkg) {
                expand_workspaces(pkg_path, &child.members, &mut paths);
                if !has_path(&paths, pkg_path) {
                    push_path(&mut paths, pkg_path);
                }
            }
            i = i + 1;
        }
    }
    push_path(&mut paths, root_pkg);
    paths
}

/// Whether no two of some paths are the same.
pub open spec fn paths_once(paths: Seq<Seq<char>>) -> bool {
    forall|i: int, j: int|
        0 <= i < j < paths.len() ==> components(#[trigger] paths[i]) != components(
            #[trigger] paths[j],
        )
}

proof fn lemma_members_once(
    paths: Seq<Seq<char>>,
    members: Seq<Seq<char>>,
    n: int,
    own: Seq<char>,
)
    requires
        paths_once(paths),
    ensures
        paths_once(with_members(paths, members, n, own)),
    decreases n,
{
    if 0 < n <= members.len() {
        lemma_members_once(paths, members, n - 1, own);
    }
}

proof fn lemma_members_without_own(members: Seq<Seq<char>>, n: int, own: Seq<char>)
    ensures
        !lists_path(with_members(Seq::empty(), members, n, own), own),
    decreases n,
{
    if 0 < n <= members.len() {
        lemma_members_without_own(members, n - 1, own);
        let before = with_members(Seq::empty(), members, n - 1, own);
        let now = with_members(Seq::empty(), members, n, own);
        assert(now == before || now == before.push(members[n - 1]));
        if lists_path(now, own) {
            let i = choose|i: int|
                0 <= i < now.len() && components(#[trigger] now[i]) == components(own);
            assert(now[i] == before[i] || now[i] == members[n - 1]);
        }
    }
}

proof fn lemma_children_once(children: Seq<ChildPackage>, n: int, root_pkg: Seq<char>)
    ensures
        paths_once(child_paths(children, n, root_pkg)),
    decreases n,
{
    if 0 < n <= children.len() {
        lemma_children_once(children, n - 1, root_pkg);
        let before = child_paths(children, n - 1, root_pkg);
        let child = children[n - 1];
        if let Some(m) = child.members {
            lemma_members_once(before, texts(m@), m@.len() as int, child.pkg_path@);
        }
    }
}

/// The root package.json is the last that is checked, and no other file is checked twice. Where
/// the root declares workspaces, it is not checked before either.
pub proof fn law_packages_once(
    root_pkg: Seq<char>,
    members: Option<Vec<String>>,
    children: Seq<ChildPackage>,
)
    ensures
        project_paths(root_pkg, members, children).last() == root_pkg,
        paths_once(project_paths(root_pkg, members, children).drop_last()),
        members is Some ==> !lists_path(
            project_paths(root_pkg, members, children).drop_last(),
            root_pkg,
        ),
{
    let all = project_paths(root_pkg, members, children);
    if let Some(m) = members {
        lemma_members_once(Seq::empty(), texts(m@), m@.len() as int, root_pkg);
        lemma_members_without_own(texts(m@), m@.len() as int, root_pkg);
        assert(all.drop_last() =~= expanded(Seq::empty(), members, root_pkg));
    } else {
        lemma_children_once(children, children.len() as int, root_pkg);
        assert(all.drop_last() =~= child_paths(children, children.len() as int, root_pkg));
    }
}

} // verus!
