//! What a check of dependencies reports: every dependency that a condition is about, and no other.

use crate::dependency::{
    bare_version, constraint_on, constraint_range, dependency_hit, dependent_hit, dependent_hits,
    hits_in_section, in_bounds, key_line, line_holding, loose_version, naming_package,
    naming_section, package_check, package_hits, packages_check, project_check, section_hits,
    section_of, version_of, with_members, CheckV, ConditionV, LockfileEntry, PackageFile,
};
use crate::incident::IncidentV;
use crate::json::{field, lemma_lookup_entry, lookup, shallow_document_model, text, JsonV};
use crate::paths::components;
use crate::pattern::regex_accepts;
use crate::text::{contains, lines_of};
use vstd::prelude::*;

verus! {

/// Whether an incident gives a text as a variable.
pub open spec fn gives(i: IncidentV, key: Seq<char>, value: Seq<char>) -> bool {
    i.variables.dom().contains(key) && i.variables[key] == JsonV::Text(value)
}

/// Whether an incident reports a dependency: in the file, with its name, its version and the
/// section that lists it.
pub open spec fn reports_dependency(
    i: IncidentV,
    path: Seq<char>,
    name: Seq<char>,
    version: Seq<char>,
    section: Seq<char>,
) -> bool {
    &&& i.file_uri == "file://"@ + path
    &&& gives(i, "dependencyName"@, name)
    &&& gives(i, "dependencyVersion"@, version)
    &&& gives(i, "dependencyType"@, section)
}

/// Whether a section of a package.json lists dependencies.
pub open spec fn lists_dependencies(section: Seq<char>) -> bool {
    section == "dependencies"@ || section == "devDependencies"@ || section == "peerDependencies"@
}

/// Whether a condition is about an entry of a section: by the name, where it gives one, or else by
/// the pattern, where it gives one, and by the bounds on the version.
pub open spec fn is_about(c: ConditionV, entry: (Seq<char>, JsonV)) -> bool {
    let version = match entry.1 {
        JsonV::Text(v) => v,
        _ => Seq::empty(),
    };
    &&& c.name matches Some(exact) ==> entry.0 == exact
    &&& c.name is None ==> (c.nameregex matches Some(p) ==> regex_accepts(p, entry.0))
    &&& in_bounds(version, c)
}

/// How many of some entries a condition is about.
pub open spec fn count_about(c: ConditionV, entries: Seq<(Seq<char>, JsonV)>) -> nat {
    entries.filter(|e: (Seq<char>, JsonV)| is_about(c, e)).len()
}

proof fn lemma_hit_reports(
    path: Seq<char>,
    content: Seq<char>,
    name: Seq<char>,
    version: Seq<char>,
    section: Seq<char>,
)
    ensures
        reports_dependency(
            dependency_hit(path, content, name, version, section),
            path,
            name,
            version,
            section,
        ),
        dependency_hit(path, content, name, version, section).line_number == Some(
            key_line(content, name),
        ),
{
    reveal_strlit("dependencyName");
    reveal_strlit("dependencyVersion");
    reveal_strlit("dependencyType");
    assert("dependencyName"@.len() == 14);
    assert("dependencyVersion"@.len() == 17);
    assert("dependencyType"@.len() == 14);
    assert("dependencyName"@[10] == 'N' && "dependencyType"@[10] == 'T');
}

/// Whether one of some incidents reports an entry of a section.
pub open spec fn some_reports(
    hits: Seq<IncidentV>,
    path: Seq<char>,
    entry: (Seq<char>, JsonV),
    section: Seq<char>,
) -> bool {
    exists|j: int|
        0 <= j < hits.len() && reports_dependency(
            #[trigger] hits[j],
            path,
            entry.0,
            version_of(entry.1),
            section,
        )
}

/// Whether an incident reports one of the first `n` entries of a section, and one that the
/// condition is about.
pub open spec fn reports_some(
    hit: IncidentV,
    path: Seq<char>,
    entries: Seq<(Seq<char>, JsonV)>,
    n: int,
    c: ConditionV,
    section: Seq<char>,
) -> bool {
    exists|k: int|
        0 <= k < n && is_about(c, #[trigger] entries[k]) && reports_dependency(
            hit,
            path,
            entries[k].0,
            version_of(entries[k].1),
            section,
        )
}

/// What one more entry of a section adds.
proof fn lemma_section_step(
    entries: Seq<(Seq<char>, JsonV)>,
    n: int,
    c: ConditionV,
    path: Seq<char>,
    content: Seq<char>,
    section: Seq<char>,
)
    requires
        0 < n <= entries.len(),
    ensures
        ({
            let (name, value) = entries[n - 1];
            let hit = dependency_hit(path, content, name, version_of(value), section);
            let before = section_hits(entries, n - 1, c, path, content, section);
            section_hits(entries, n, c, path, content, section) == if is_about(c, entries[n - 1]) {
                before.push(hit)
            } else {
                before
            }
        }),
{
}

proof fn lemma_section_count(
    entries: Seq<(Seq<char>, JsonV)>,
    n: int,
    c: ConditionV,
    path: Seq<char>,
    content: Seq<char>,
    section: Seq<char>,
)
    requires
        0 <= n <= entries.len(),
    ensures
        section_hits(entries, n, c, path, content, section).len() == count_about(
            c,
            entries.take(n),
        ),
    decreases n,
{
    reveal(Seq::filter);
    if n > 0 {
        lemma_section_count(entries, n - 1, c, path, content, section);
        lemma_section_step(entries, n, c, path, content, section);
        assert(entries.take(n).drop_last() =~= entries.take(n - 1));
        assert(entries.take(n).last() == entries[n - 1]);
    }
}

proof fn lemma_section_complete(
    entries: Seq<(Seq<char>, JsonV)>,
    n: int,
    c: ConditionV,
    path: Seq<char>,
    content: Seq<char>,
    section: Seq<char>,
    k: int,
)
    requires
        0 <= k < n <= entries.len(),
        is_about(c, entries[k]),
    ensures
        some_reports(
            section_hits(entries, n, c, path, content, section),
            path,
            entries[k],
            section,
        ),
    decreases n,
{
    let before = section_hits(entries, n - 1, c, path, content, section);
    let now = section_hits(entries, n, c, path, content, section);
    lemma_section_step(entries, n, c, path, content, section);
    if k < n - 1 {
        lemma_section_complete(entries, n - 1, c, path, content, section, k);
        let j = choose|j: int|
            0 <= j < before.len() && reports_dependency(
                #[trigger] before[j],
                path,
                entries[k].0,
                version_of(entries[k].1),
                section,
            );
        assert(now[j] == before[j]);
    } else {
        lemma_hit_reports(path, content, entries[k].0, version_of(entries[k].1), section);
        assert(reports_dependency(
            now[before.len() as int],
            path,
            entries[k].0,
            version_of(entries[k].1),
            section,
        ));
    }
}

proof fn lemma_section_sound(
    entries: Seq<(Seq<char>, JsonV)>,
    n: int,
    c: ConditionV,
    path: Seq<char>,
    content: Seq<char>,
    section: Seq<char>,
    j: int,
)
    requires
        0 <= n <= entries.len(),
        0 <= j < section_hits(entries, n, c, path, content, section).len(),
    ensures
        reports_some(
            section_hits(entries, n, c, path, content, section)[j],
            path,
            entries,
            n,
            c,
            section,
        ),
    decreases n,
{
    if n > 0 {
        let before = section_hits(entries, n - 1, c, path, content, section);
        let now = section_hits(entries, n, c, path, content, section);
        lemma_section_step(entries, n, c, path, content, section);
        if j < before.len() {
            lemma_section_sound(entries, n - 1, c, path, content, section, j);
            assert(now[j] == before[j]);
            let k = choose|k: int|
                0 <= k < n - 1 && is_about(c, #[trigger] entries[k]) && reports_dependency(
                    before[j],
                    path,
                    entries[k].0,
                    version_of(entries[k].1),
                    section,
                );
            assert(is_about(c, entries[k]));
        } else {
            lemma_hit_reports(
                path,
                content,
                entries[n - 1].0,
                version_of(entries[n - 1].1),
                section,
            );
            assert(is_about(c, entries[n - 1]));
        }
    }
}

/// Every dependency that a condition is about is reported, whichever of the three sections lists
/// it, with its name, its version and the section.
pub proof fn law_dependency_reported(
    pkg: JsonV,
    c: ConditionV,
    path: Seq<char>,
    content: Seq<char>,
    section: Seq<char>,
    entries: Seq<(Seq<char>, JsonV)>,
    k: int,
)
    requires
        lists_dependencies(section),
        field(pkg, section) == Some(JsonV::Object(entries)),
        0 <= k < entries.len(),
        is_about(c, entries[k]),
    ensures
        exists|j: int|
            0 <= j < package_hits(pkg, c, path, content).len() && reports_dependency(
                #[trigger] package_hits(pkg, c, path, content)[j],
                path,
                entries[k].0,
                match entries[k].1 {
                    JsonV::Text(v) => v,
                    _ => Seq::empty(),
                },
                section,
            ),
{
    let a = hits_in_section(pkg, c, path, content, "dependencies"@);
    let b = hits_in_section(pkg, c, path, content, "devDependencies"@);
    let d = hits_in_section(pkg, c, path, content, "peerDependencies"@);
    let all = package_hits(pkg, c, path, content);
    lemma_section_complete(entries, entries.len() as int, c, path, content, section, k);
    let own = section_hits(entries, entries.len() as int, c, path, content, section);
    let j = choose|j: int|
        0 <= j < own.len() && reports_dependency(
            #[trigger] own[j],
            path,
            entries[k].0,
            version_of(entries[k].1),
            section,
        );
    assert(all == a + b + d);
    if section == "dependencies"@ {
        assert(all[j] == own[j]);
    } else if section == "devDependencies"@ {
        assert(all[a.len() + j] == own[j]);
    } else {
        assert(all[a.len() + b.len() + j] == own[j]);
    }
}

/// As many dependencies are reported as there are, in the three sections, that the condition is
/// about.
pub proof fn law_dependencies_counted(
    pkg: JsonV,
    c: ConditionV,
    path: Seq<char>,
    content: Seq<char>,
)
    ensures
        package_hits(pkg, c, path, content).len() == count_about(
            c,
            section_of(pkg, "dependencies"@),
        ) + count_about(c, section_of(pkg, "devDependencies"@)) + count_about(
            c,
            section_of(pkg, "peerDependencies"@),
        ),
{
    let a = section_of(pkg, "dependencies"@);
    let b = section_of(pkg, "devDependencies"@);
    let d = section_of(pkg, "peerDependencies"@);
    lemma_section_count(a, a.len() as int, c, path, content, "dependencies"@);
    lemma_section_count(b, b.len() as int, c, path, content, "devDependencies"@);
    lemma_section_count(d, d.len() as int, c, path, content, "peerDependencies"@);
    assert(a.take(a.len() as int) =~= a);
    assert(b.take(b.len() as int) =~= b);
    assert(d.take(d.len() as int) =~= d);
}

/// Whatever is reported for a package.json is a dependency that one of its sections lists and that
/// the condition is about.
pub proof fn law_reported_is_listed(
    pkg: JsonV,
    c: ConditionV,
    path: Seq<char>,
    content: Seq<char>,
    j: int,
)
    requires
        0 <= j < package_hits(pkg, c, path, content).len(),
    ensures
        exists|section: Seq<char>, k: int|
            lists_dependencies(section) && 0 <= k < section_of(pkg, section).len() && is_about(
                c,
                #[trigger] section_of(pkg, section)[k],
            ) && reports_dependency(
                package_hits(pkg, c, path, content)[j],
                path,
                section_of(pkg, section)[k].0,
                version_of(section_of(pkg, section)[k].1),
                section,
            ),
{
    let a = section_of(pkg, "dependencies"@);
    let b = section_of(pkg, "devDependencies"@);
    let d = section_of(pkg, "peerDependencies"@);
    let x = hits_in_section(pkg, c, path, content, "dependencies"@);
    let y = hits_in_section(pkg, c, path, content, "devDependencies"@);
    let z = hits_in_section(pkg, c, path, content, "peerDependencies"@);
    let all = package_hits(pkg, c, path, content);
    assert(all == x + y + z);
    if j < x.len() {
        assert(all[j] == x[j]);
        lemma_section_sound(a, a.len() as int, c, path, content, "dependencies"@, j);
        lemma_witness(pkg, c, path, all[j], "dependencies"@);
    } else if j < x.len() + y.len() {
        assert(all[j] == y[j - x.len()]);
        lemma_section_sound(b, b.len() as int, c, path, content, "devDependencies"@, j - x.len());
        lemma_witness(pkg, c, path, all[j], "devDependencies"@);
    } else {
        assert(all[j] == z[j - x.len() - y.len()]);
        lemma_section_sound(
            d,
            d.len() as int,
            c,
            path,
            content,
            "peerDependencies"@,
            j - x.len() - y.len(),
        );
        lemma_witness(pkg, c, path, all[j], "peerDependencies"@);
    }
}

proof fn lemma_witness(
    pkg: JsonV,
    c: ConditionV,
    path: Seq<char>,
    hit: IncidentV,
    section: Seq<char>,
)
    requires
        lists_dependencies(section),
        reports_some(
            hit,
            path,
            section_of(pkg, section),
            section_of(pkg, section).len() as int,
            c,
            section,
        ),
    ensures
        exists|s: Seq<char>, k: int|
            lists_dependencies(s) && 0 <= k < section_of(pkg, s).len() && is_about(
                c,
                #[trigger] section_of(pkg, s)[k],
            ) && reports_dependency(
                hit,
                path,
                section_of(pkg, s)[k].0,
                version_of(section_of(pkg, s)[k].1),
                s,
            ),
{
    let entries = section_of(pkg, section);
    let k = choose|k: int|
        0 <= k < entries.len() && is_about(c, #[trigger] entries[k]) && reports_dependency(
            hit,
            path,
            entries[k].0,
            version_of(entries[k].1),
            section,
        );
    assert(is_about(c, section_of(pkg, section)[k]));
}

/// Whether a version comes no later than another: by the first of its numbers that differs.
pub open spec fn no_later(a: (u64, u64, u64), b: (u64, u64, u64)) -> bool {
    if a.0 != b.0 {
        a.0 < b.0
    } else if a.1 != b.1 {
        a.1 < b.1
    } else {
        a.2 <= b.2
    }
}

/// A version is within the bounds exactly where it comes no earlier than the lower one and no later
/// than the upper one, as far as there are such, and both, as far as they can be read.
pub proof fn law_bounds(version: Seq<char>, c: ConditionV, v: (u64, u64, u64))
    requires
        loose_version(bare_version(version)) == Some(v),
    ensures
        in_bounds(version, c) == ((c.lowerbound matches Some(l) ==> (loose_version(bare_version(l))
            matches Some(low) ==> no_later(low, v))) && (c.upperbound matches Some(u) ==> (
        loose_version(bare_version(u)) matches Some(high) ==> no_later(v, high)))),
{
}

/// A version that cannot be read is within all bounds.
pub proof fn law_unreadable_version(version: Seq<char>, c: ConditionV)
    requires
        loose_version(bare_version(version)) is None,
    ensures
        in_bounds(version, c),
{
}

/// The line of a dependency is the first that holds its name in quotes; the first line where none
/// does.
pub proof fn law_key_line(content: Seq<char>, key: Seq<char>)
    requires
        lines_of(content).len() < u32::MAX,
    ensures
        ({
            let n = key_line(content, key);
            let quoted = "\""@ + key + "\""@;
            &&& n >= 1
            &&& (exists|i: int|
                0 <= i < lines_of(content).len() && contains(#[trigger] lines_of(content)[i], quoted))
                ==> n <= lines_of(content).len() && contains(lines_of(content)[n - 1], quoted)
            &&& forall|i: int|
                0 <= i < n - 1 && i < lines_of(content).len() ==> !contains(
                    #[trigger] lines_of(content)[i],
                    quoted,
                )
            &&& (forall|i: int|
                0 <= i < lines_of(content).len() ==> !contains(
                    #[trigger] lines_of(content)[i],
                    quoted,
                )) ==> n == 1
        }),
{
    lemma_line_holding(lines_of(content), "\""@ + key + "\""@, 0);
}

proof fn lemma_line_holding(file: Seq<Seq<char>>, needle: Seq<char>, from: int)
    requires
        0 <= from <= file.len() < u32::MAX,
    ensures
        ({
            let n = line_holding(file, needle, from);
            ||| n == 1 && forall|i: int|
                from <= i < file.len() ==> !contains(#[trigger] file[i], needle)
            ||| from < n <= file.len() && contains(file[n - 1], needle) && forall|i: int|
                from <= i < n - 1 ==> !contains(#[trigger] file[i], needle)
        }),
    decreases file.len() - from,
{
    if from < file.len() && !contains(file[from], needle) {
        lemma_line_holding(file, needle, from + 1);
    }
}

/// The check of a project that succeeds reports, file by file, all that the check of each of its
/// package.json files does.
pub proof fn law_project_reports(
    packages: Seq<PackageFile>,
    dependents: Seq<LockfileEntry>,
    c: ConditionV,
    all: Seq<IncidentV>,
    p: int,
)
    requires
        project_check(packages, dependents, c) == CheckV::Found(all),
        0 <= p < packages.len(),
    ensures
        package_check(packages[p].path@, packages[p].content@, c) matches CheckV::Found(own)
            && forall|k: int| 0 <= k < own.len() ==> all.contains(#[trigger] own[k]),
{
    let n = packages.len() as int;
    lemma_packages(packages, n, c, p);
    let found = packages_check(packages, n, c)->Found_0;
    let own = package_check(packages[p].path@, packages[p].content@, c)->Found_0;
    assert forall|k: int| 0 <= k < own.len() implies all.contains(#[trigger] own[k]) by {
        assert(found.contains(own[k]));
        let i = choose|i: int| 0 <= i < found.len() && found[i] == own[k];
        assert(all[i] == own[k]);
    }
}

proof fn lemma_packages(packages: Seq<PackageFile>, n: int, c: ConditionV, p: int)
    requires
        0 <= p < n <= packages.len(),
        packages_check(packages, n, c) is Found,
    ensures
        package_check(packages[p].path@, packages[p].content@, c) matches CheckV::Found(own)
            && forall|k: int|
            0 <= k < own.len() ==> packages_check(packages, n, c)->Found_0.contains(
                #[trigger] own[k],
            ),
    decreases n,
{
    let now = packages_check(packages, n, c)->Found_0;
    let last = package_check(packages[n - 1].path@, packages[n - 1].content@, c);
    assert(packages_check(packages, n - 1, c) is Found);
    assert(last is Found);
    let before = packages_check(packages, n - 1, c)->Found_0;
    let more = last->Found_0;
    assert(now == before + more);
    let own = package_check(packages[p].path@, packages[p].content@, c)->Found_0;
    if p < n - 1 {
        lemma_packages(packages, n - 1, c, p);
        assert forall|k: int| 0 <= k < own.len() implies now.contains(#[trigger] own[k]) by {
            assert(before.contains(own[k]));
            let i = choose|i: int| 0 <= i < before.len() && before[i] == own[k];
            assert(now[i] == own[k]);
        }
    } else {
        assert forall|k: int| 0 <= k < own.len() implies now.contains(#[trigger] own[k]) by {
            assert(now[before.len() + k] == own[k]);
        }
    }
}

/// Whether a package.json names a package in one of its sections.
pub open spec fn names_package(content: Seq<char>, name: Seq<char>) -> bool {
    shallow_document_model(content) matches Some(pkg) && exists|section: Seq<char>, k: int|
        lists_dependencies(section) && 0 <= k < section_of(pkg, section).len() && (
        #[trigger] section_of(pkg, section)[k]).0 == name
}

proof fn lemma_lookup_some(s: Seq<(Seq<char>, JsonV)>, name: Seq<char>, k: int)
    requires
        0 <= k < s.len(),
        s[k].0 == name,
    ensures
        lookup(s, name) is Some,
    decreases s.len(),
{
    if s[0].0 != name {
        assert(s.skip(1)[k - 1] == s[k]);
        lemma_lookup_some(s.skip(1), name, k - 1);
    }
}

proof fn lemma_names_package(content: Seq<char>, name: Seq<char>)
    ensures
        names_package(content, name) == (naming_section(content, name) is Some),
{
    if names_package(content, name) {
        let pkg = shallow_document_model(content)->0;
        let (section, k) = choose|section: Seq<char>, k: int|
            lists_dependencies(section) && 0 <= k < section_of(pkg, section).len() && (
            #[trigger] section_of(pkg, section)[k]).0 == name;
        lemma_lookup_some(section_of(pkg, section), name, k);
    }
    if let Some(section) = naming_section(content, name) {
        let pkg = shallow_document_model(content)->0;
        assert(lists_dependencies(section));
        let k = lemma_lookup_entry(section_of(pkg, section), name);
        assert(section_of(pkg, section)[k].0 == name);
    }
}

/// Every package of the lockfile that depends on the matched one within the bounds, and that a
/// package.json names, is reported, with what it depends on and its constraint, in a package.json
/// that names it.
pub proof fn law_dependent_reported(
    packages: Seq<PackageFile>,
    dependents: Seq<LockfileEntry>,
    target: Seq<char>,
    c: ConditionV,
    k: int,
    m: int,
    p: int,
)
    requires
        0 <= k < dependents.len(),
        0 <= m < dependents[k].dependencies@.len(),
        dependents[k].dependencies@[m].0@ == target,
        forall|i: int| 0 <= i < m ==> (#[trigger] dependents[k].dependencies@[i]).0@ != target,
        in_bounds(constraint_range(dependents[k].dependencies@[m].1@), c),
        0 <= p < packages.len(),
        names_package(packages[p].content@, dependents[k].name@),
    ensures
        exists|j: int, f: int|
            0 <= j < dependent_hits(packages, dependents, dependents.len() as int, target, c).len()
                && 0 <= f < packages.len() && names_package(
                packages[f].content@,
                dependents[k].name@,
            ) && #[trigger] reports_dependent(
                dependent_hits(packages, dependents, dependents.len() as int, target, c)[j],
                packages[f].path@,
                dependents[k],
                target,
                dependents[k].dependencies@[m].1@,
            ),
{
    lemma_constraint(dependents[k].dependencies@, target, m, 0);
    lemma_naming_package(packages, dependents[k].name@, p, 0);
    lemma_dependent(packages, dependents, dependents.len() as int, target, c, k);
    let f = naming_package(packages, dependents[k].name@, 0)->0;
    let section = naming_section(packages[f].content@, dependents[k].name@)->0;
    let hit = dependent_hit(packages[f], section, dependents[k], target);
    let all = dependent_hits(packages, dependents, dependents.len() as int, target, c);
    let j = choose|j: int| 0 <= j < all.len() && all[j] == hit;
    lemma_names_package(packages[f].content@, dependents[k].name@);
    lemma_dependent_hit(packages[f], section, dependents[k], target);
    assert(reports_dependent(
        all[j],
        packages[f].path@,
        dependents[k],
        target,
        dependents[k].dependencies@[m].1@,
    ));
}

/// Whether an incident reports a package that depends on another.
pub open spec fn reports_dependent(
    i: IncidentV,
    path: Seq<char>,
    entry: LockfileEntry,
    target: Seq<char>,
    constraint: Seq<char>,
) -> bool {
    &&& i.file_uri == "file://"@ + path
    &&& gives(i, "dependencyName"@, entry.name@)
    &&& gives(i, "dependencyVersion"@, entry.version@)
    &&& gives(i, "isDependentOf"@, target)
    &&& gives(i, "dependentConstraint"@, constraint)
}

proof fn lemma_dependent_hit(
    package: PackageFile,
    section: Seq<char>,
    entry: LockfileEntry,
    target: Seq<char>,
)
    ensures
        reports_dependent(
            dependent_hit(package, section, entry, target),
            package.path@,
            entry,
            target,
            constraint_on(entry.dependencies@, target, 0)->0,
        ),
{
    reveal_strlit("dependencyName");
    reveal_strlit("dependencyVersion");
    reveal_strlit("dependencyType");
    reveal_strlit("isDependentOf");
    reveal_strlit("dependentConstraint");
    assert("dependencyName"@.len() == 14);
    assert("dependencyVersion"@.len() == 17);
    assert("dependencyType"@.len() == 14);
    assert("isDependentOf"@.len() == 13);
    assert("dependentConstraint"@.len() == 19);
    assert("dependencyName"@[10] == 'N' && "dependencyType"@[10] == 'T');
}

proof fn lemma_constraint(s: Seq<(String, String)>, target: Seq<char>, m: int, from: int)
    requires
        0 <= from <= m < s.len(),
        s[m].0@ == target,
        forall|i: int| 0 <= i < m ==> (#[trigger] s[i]).0@ != target,
    ensures
        constraint_on(s, target, from) == Some(s[m].1@),
    decreases m - from,
{
    if from < m {
        assert(s[from].0@ != target);
        lemma_constraint(s, target, m, from + 1);
    }
}

proof fn lemma_naming_package(packages: Seq<PackageFile>, name: Seq<char>, p: int, from: int)
    requires
        0 <= from <= p < packages.len(),
        names_package(packages[p].content@, name),
    ensures
        naming_package(packages, name, from) matches Some(f) && from <= f <= p && naming_section(
            packages[f].content@,
            name,
        ) is Some,
    decreases p - from,
{
    lemma_names_package(packages[p].content@, name);
    if naming_section(packages[from].content@, name) is None {
        lemma_naming_package(packages, name, p, from + 1);
    }
}

proof fn lemma_dependent(
    packages: Seq<PackageFile>,
    dependents: Seq<LockfileEntry>,
    n: int,
    target: Seq<char>,
    c: ConditionV,
    k: int,
)
    requires
        0 <= k < n <= dependents.len(),
        crate::dependency::depends_within(dependents[k], target, c),
        naming_package(packages, dependents[k].name@, 0) is Some,
    ensures
        dependent_hits(packages, dependents, n, target, c).contains(
            dependent_hit(
                packages[naming_package(packages, dependents[k].name@, 0)->0],
                naming_section(
                    packages[naming_package(packages, dependents[k].name@, 0)->0].content@,
                    dependents[k].name@,
                )->0,
                dependents[k],
                target,
            ),
        ),
    decreases n,
{
    let f = naming_package(packages, dependents[k].name@, 0)->0;
    let section = naming_section(packages[f].content@, dependents[k].name@)->0;
    let hit = dependent_hit(packages[f], section, dependents[k], target);
    let before = dependent_hits(packages, dependents, n - 1, target, c);
    let now = dependent_hits(packages, dependents, n, target, c);
    if k < n - 1 {
        lemma_dependent(packages, dependents, n - 1, target, c, k);
        let i = choose|i: int| 0 <= i < before.len() && before[i] == hit;
        assert(now[i] == hit);
    } else {
        assert(now == before.push(hit));
        assert(now[before.len() as int] == hit);
    }
}

/// Every member of a workspace other than the package.json that declares it is among the files that
/// are checked.
pub proof fn law_members_listed(
    paths: Seq<Seq<char>>,
    members: Seq<Seq<char>>,
    n: int,
    own: Seq<char>,
    k: int,
)
    requires
        0 <= k < n <= members.len(),
        components(members[k]) != components(own),
    ensures
        exists|i: int|
            0 <= i < with_members(paths, members, n, own).len() && components(
                #[trigger] with_members(paths, members, n, own)[i],
            ) == components(members[k]),
    decreases n,
{
    let before = with_members(paths, members, n - 1, own);
    let now = with_members(paths, members, n, own);
    if k < n - 1 {
        law_members_listed(paths, members, n - 1, own, k);
        let i = choose|i: int|
            0 <= i < before.len() && components(#[trigger] before[i]) == components(members[k]);
        assert(now[i] == before[i]);
    } else if now == before {
        assert(crate::dependency::lists_path(before, members[k]));
    } else {
        assert(now == before.push(members[k]));
        assert(now[before.len() as int] == members[k]);
    }
}

} // verus!
