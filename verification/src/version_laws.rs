//! How versions are read and compared, which packages a project has, and how rule conditions are
//! named.

use crate::dependency::{
    bare_version, child_paths, constraint_on, constraint_range, depends_within, expanded, globs_of,
    in_bounds, lists_path, loose_version, project_paths, skipped_package_dir, texts_in,
    version_less, version_parts, with_members, ChildPackage, ConditionV, LockfileEntry,
};
use crate::json::{field, Json, JsonV};
use crate::paths::components;
use crate::plan_laws::lemma_pushed;
use crate::rules::{condition_parts, dot_at, holds_rules, key_parts};
use crate::text::{is_space, split, texts, trimmed};
use vstd::prelude::*;

verus! {

// ---- Versions ----

/// The order of versions is a strict one, and any two different versions are ordered.
pub proof fn law_version_order(a: (u64, u64, u64), b: (u64, u64, u64), c: (u64, u64, u64))
    ensures
        !version_less(a, a),
        version_less(a, b) ==> !version_less(b, a),
        version_less(a, b) && version_less(b, c) ==> version_less(a, c),
        a != b ==> version_less(a, b) || version_less(b, a),
        a.0 < b.0 ==> version_less(a, b),
{
}

/// A text that neither begins nor ends with white space.
pub open spec fn is_tight(s: Seq<char>) -> bool {
    s.len() > 0 && !is_space(s[0]) && !is_space(s.last())
}

proof fn lemma_tight(s: Seq<char>)
    requires
        is_tight(s),
    ensures
        trimmed(s) == s,
{
}

proof fn lemma_signs()
    ensures
        ">="@ == seq!['>', '='],
        "<="@ == seq!['<', '='],
{
    reveal_strlit(">=");
    reveal_strlit("<=");
    assert(">="@ =~= seq!['>', '=']);
    assert("<="@ =~= seq!['<', '=']);
}

/// Each of the signs that make a version a range is taken off.
pub proof fn law_range_sign(c: char, version: Seq<char>)
    requires
        c == '^' || c == '~' || c == '>' || c == '<' || c == '=',
        is_tight(version),
        version[0] != '=',
    ensures
        bare_version(seq![c] + version) == version,
{
    let s = seq![c] + version;
    assert(s.last() == version.last());
    assert(!is_space(c));
    lemma_tight(s);
    lemma_signs();
    lemma_tight(version);
    assert(s.skip(1) =~= version);
    if ">="@.is_prefix_of(s) || "<="@.is_prefix_of(s) {
        assert(s.subrange(0, 2)[1] == s[1]);
        assert(s[1] == version[0]);
    }
}

/// So are those of two characters.
pub proof fn law_range_signs(c: char, version: Seq<char>)
    requires
        c == '>' || c == '<',
        is_tight(version),
    ensures
        bare_version(seq![c, '='] + version) == version,
{
    let s = seq![c, '='] + version;
    assert(s.last() == version.last());
    assert(!is_space(c));
    lemma_tight(s);
    lemma_signs();
    lemma_tight(version);
    assert(s.skip(2) =~= version);
    assert(s.subrange(0, 2) =~= seq![c, '=']);
}

/// A version without such a sign stays as it is.
pub proof fn law_plain_version(version: Seq<char>)
    requires
        is_tight(version),
        version[0] != '^' && version[0] != '~' && version[0] != '>' && version[0] != '<'
            && version[0] != '=',
    ensures
        bare_version(version) == version,
{
    lemma_tight(version);
    lemma_signs();
    if ">="@.is_prefix_of(version) || "<="@.is_prefix_of(version) {
        assert(version.subrange(0, 2)[0] == version[0]);
    }
}

proof fn lemma_split_first(s: Seq<char>, c: char, rest: Seq<char>)
    requires
        !s.contains(c),
    ensures
        split(s + seq![c] + rest, c).len() >= 2,
        split(s + seq![c] + rest, c)[0] == s,
    decreases rest.len(),
{
    let all = s + seq![c] + rest;
    if rest.len() == 0 {
        assert(all =~= s.push(c));
        assert(all.drop_last() =~= s);
        lemma_split_whole(s, c);
    } else {
        lemma_split_first(s, c, rest.drop_last());
        assert(all.drop_last() =~= s + seq![c] + rest.drop_last());
    }
}

proof fn lemma_split_whole(s: Seq<char>, c: char)
    requires
        !s.contains(c),
    ensures
        split(s, c) == seq![s],
    decreases s.len(),
{
    if s.len() > 0 {
        let front = s.drop_last();
        assert forall|k: int| 0 <= k < front.len() implies front[k] != c by {
            assert(s[k] == front[k]);
            if front[k] == c {
                assert(s.contains(c));
            }
        }
        lemma_split_whole(front, c);
        assert(s.last() != c) by {
            if s.last() == c {
                assert(s[s.len() - 1] == c);
            }
        }
        assert(front.push(s.last()) =~= s);
        assert(split(s, c) =~= seq![s]);
    } else {
        assert(s =~= Seq::<char>::empty());
        assert(split(s, c) =~= seq![s]);
    }
}

/// What follows a hyphen in a version counts for nothing.
pub proof fn law_prerelease_ignored(version: Seq<char>, rest: Seq<char>)
    requires
        is_tight(version),
        !version.contains('-'),
        rest.len() > 0 ==> !is_space(rest.last()),
    ensures
        loose_version(version + seq!['-'] + rest) == loose_version(version),
{
    let all = version + seq!['-'] + rest;
    assert(all[0] == version[0]);
    assert(is_tight(all));
    lemma_tight(all);
    lemma_tight(version);
    lemma_split_first(version, '-', rest);
    lemma_split_whole(version, '-');
    assert(version_parts(all) == version_parts(version));
}

/// The registry before a version range is taken off.
pub proof fn law_constraint_range(range: Seq<char>)
    ensures
        constraint_range("npm:"@ + range) == range,
        !"npm:"@.is_prefix_of(range) ==> constraint_range(range) == range,
{
    let all = "npm:"@ + range;
    assert(all.subrange(0, "npm:"@.len() as int) =~= "npm:"@);
    assert(all.skip("npm:"@.len() as int) =~= range);
}

/// A package of the lockfile depends on another within the bounds where its constraint on it is
/// within them.
pub proof fn law_depends_within(
    entry: LockfileEntry,
    target: Seq<char>,
    c: ConditionV,
    k: int,
)
    requires
        0 <= k < entry.dependencies@.len(),
        entry.dependencies@[k].0@ == target,
        forall|j: int| 0 <= j < k ==> (#[trigger] entry.dependencies@[j]).0@ != target,
    ensures
        depends_within(entry, target, c) == in_bounds(
            constraint_range(entry.dependencies@[k].1@),
            c,
        ),
{
    lemma_constraint(entry.dependencies@, target, 0, k);
}

proof fn lemma_constraint(
    dependencies: Seq<(String, String)>,
    name: Seq<char>,
    from: int,
    k: int,
)
    requires
        0 <= from <= k < dependencies.len(),
        dependencies[k].0@ == name,
        forall|j: int| from <= j < k ==> (#[trigger] dependencies[j]).0@ != name,
    ensures
        constraint_on(dependencies, name, from) == Some(dependencies[k].1@),
    decreases k - from,
{
    if from < k {
        assert(dependencies[from].0@ != name);
        lemma_constraint(dependencies, name, from + 1, k);
    }
}

// ---- Packages ----

/// The directories that hold no packages of the project are left out.
pub proof fn law_skipped_package_dir(name: Seq<char>)
    ensures
        skipped_package_dir(name) <==> name == "node_modules"@ || name == ".git"@ || name
            == "dist"@ || name == "build"@ || name == ".cache"@ || name == ".next"@ || name
            == "coverage"@ || name == "__mocks__"@,
{
}

proof fn lemma_listed(paths: Seq<Seq<char>>, m: Seq<char>, path: Seq<char>)
    ensures
        lists_path(paths.push(m), path) <==> lists_path(paths, path) || components(m)
            == components(path),
{
    let now = paths.push(m);
    assert(now[paths.len() as int] == m);
    if lists_path(paths, path) {
        let i = choose|i: int|
            0 <= i < paths.len() && components(#[trigger] paths[i]) == components(path);
        assert(now[i] == paths[i]);
    }
    if lists_path(now, path) {
        let i = choose|i: int|
            0 <= i < now.len() && components(#[trigger] now[i]) == components(path);
        if i < paths.len() {
            assert(paths[i] == now[i]);
        }
    }
}

proof fn lemma_members(
    paths: Seq<Seq<char>>,
    members: Seq<Seq<char>>,
    n: int,
    own: Seq<char>,
    path: Seq<char>,
)
    requires
        0 <= n <= members.len(),
    ensures
        lists_path(with_members(paths, members, n, own), path) <==> lists_path(paths, path) || (
        components(path) != components(own) && exists|k: int|
            0 <= k < n && components(#[trigger] members[k]) == components(path)),
    decreases n,
{
    if n > 0 {
        lemma_members(paths, members, n - 1, own, path);
        let before = with_members(paths, members, n - 1, own);
        let m = members[n - 1];
        lemma_listed(before, m, path);
        if lists_path(before, m) && components(m) == components(path) {
            let i = choose|i: int|
                0 <= i < before.len() && components(#[trigger] before[i]) == components(m);
            assert(components(before[i]) == components(path));
        }
        if exists|k: int| 0 <= k < n - 1 && components(#[trigger] members[k]) == components(path) {
            let k = choose|k: int|
                0 <= k < n - 1 && components(#[trigger] members[k]) == components(path);
            assert(components(members[k]) == components(path));
        }
    }
}

/// Whether a package below the project lists a path: as its own, or as that of one of its members.
pub open spec fn brings(child: ChildPackage, root_pkg: Seq<char>, path: Seq<char>) -> bool {
    &&& !skipped_package_dir(child.dir_name@)
    &&& components(child.pkg_path@) != components(root_pkg)
    &&& components(child.pkg_path@) == components(path) || (child.members is Some && exists|k: int|
        0 <= k < child.members->0@.len() && components((#[trigger] child.members->0@[k])@)
            == components(path))
}

/// The packages below a project without workspaces are those of its directories and their members.
pub proof fn law_child_paths(
    children: Seq<ChildPackage>,
    n: int,
    root_pkg: Seq<char>,
    path: Seq<char>,
)
    requires
        0 <= n <= children.len(),
    ensures
        lists_path(child_paths(children, n, root_pkg), path) <==> exists|k: int|
            0 <= k < n && brings(#[trigger] children[k], root_pkg, path),
    decreases n,
{
    if n > 0 {
        law_child_paths(children, n - 1, root_pkg, path);
        let before = child_paths(children, n - 1, root_pkg);
        let child = children[n - 1];
        let all = expanded(before, child.members, child.pkg_path@);
        if child.members is Some {
            let members = texts(child.members->0@);
            lemma_members(before, members, members.len() as int, child.pkg_path@, path);
            assert forall|k: int| 0 <= k < members.len() implies #[trigger] members[k]
                == child.members->0@[k]@ by {}
            if exists|k: int|
                0 <= k < child.members->0@.len() && components((#[trigger] child.members->0@[k])@)
                    == components(path) {
                let k = choose|k: int|
                    0 <= k < child.members->0@.len() && components(
                        (#[trigger] child.members->0@[k])@,
                    ) == components(path);
                assert(components(members[k]) == components(path));
            }
        }
        lemma_listed(all, child.pkg_path@, path);
        if lists_path(all, child.pkg_path@) && components(child.pkg_path@) == components(path) {
            let i = choose|i: int|
                0 <= i < all.len() && components(#[trigger] all[i]) == components(child.pkg_path@);
            assert(components(all[i]) == components(path));
        }
        if exists|k: int| 0 <= k < n - 1 && brings(#[trigger] children[k], root_pkg, path) {
            let k = choose|k: int| 0 <= k < n - 1 && brings(#[trigger] children[k], root_pkg, path);
            assert(brings(children[k], root_pkg, path));
        }
    }
}

/// The package of the project itself is always among its packages, and comes last.
pub proof fn law_root_last(
    root_pkg: Seq<char>,
    members: Option<Vec<String>>,
    children: Seq<ChildPackage>,
)
    ensures
        project_paths(root_pkg, members, children).len() > 0,
        project_paths(root_pkg, members, children).last() == root_pkg,
{
}

proof fn lemma_texts_in(s: Seq<JsonV>, n: int, glob: Seq<char>)
    requires
        0 <= n <= s.len(),
    ensures
        texts_in(s, n).contains(glob) <==> exists|k: int|
            0 <= k < n && #[trigger] s[k] == JsonV::Text(glob),
    decreases n,
{
    if n > 0 {
        lemma_texts_in(s, n - 1, glob);
        let before = texts_in(s, n - 1);
        match s[n - 1] {
            JsonV::Text(t) => {
                lemma_pushed(before, t, glob);
            },
            _ => {},
        }
    }
}

/// The globs of the workspaces are the texts of the list in that field, or of the list of packages
/// in it.
pub proof fn law_globs(pkg: JsonV, list: Seq<JsonV>, glob: Seq<char>)
    requires
        field(pkg, "workspaces"@) == Some(JsonV::List(list)) || (field(
            pkg,
            "workspaces"@,
        ) matches Some(JsonV::Object(_)) && field(field(pkg, "workspaces"@)->0, "packages"@) == Some(
            JsonV::List(list),
        )),
    ensures
        globs_of(pkg) is Some,
        globs_of(pkg)->0.contains(glob) <==> exists|k: int|
            0 <= k < list.len() && #[trigger] list[k] == JsonV::Text(glob),
{
    lemma_texts_in(list, list.len() as int, glob);
}

// ---- Conditions ----

proof fn lemma_dot(key: Seq<char>, from: int)
    requires
        0 <= from <= key.len(),
    ensures
        match dot_at(key, from) {
            Some(i) => from <= i < key.len() && key[i] == '.' && forall|k: int|
                from <= k < i ==> key[k] != '.',
            None => forall|k: int| from <= k < key.len() ==> key[k] != '.',
        },
    decreases key.len() - from,
{
    if from < key.len() && key[from] != '.' {
        lemma_dot(key, from + 1);
    }
}

/// A key names the provider before its first dot, and the capability behind it.
pub proof fn law_key_parts(provider: Seq<char>, capability: Seq<char>)
    requires
        !provider.contains('.'),
    ensures
        key_parts(provider + seq!['.'] + capability) == Some((provider, capability)),
{
    let key = provider + seq!['.'] + capability;
    lemma_dot(key, 0);
    let i = dot_at(key, 0)->0;
    assert(key[provider.len() as int] == '.');
    if i < provider.len() {
        assert(provider[i] == key[i]);
        assert(provider.contains('.'));
    }
    assert(i == provider.len());
    assert(key.take(i) =~= provider);
    assert(key.skip(i + 1) =~= capability);
}

/// A key without a dot names nothing.
pub proof fn law_no_key_parts(key: Seq<char>)
    requires
        !key.contains('.'),
    ensures
        key_parts(key) is None,
{
    lemma_dot(key, 0);
    if let Some(i) = dot_at(key, 0) {
        assert(key[i] == '.');
    }
}

/// Each condition whose key names a provider and a capability counts, and no other.
pub proof fn law_conditions(
    conditions: Seq<(String, Json)>,
    n: int,
    provider: Seq<char>,
    capability: Seq<char>,
    value: JsonV,
)
    requires
        0 <= n <= conditions.len(),
    ensures
        condition_parts(conditions, n).contains((provider, capability, value)) <==> exists|k: int|
            0 <= k < n && key_parts((#[trigger] conditions[k]).0@) == Some((provider, capability))
                && conditions[k].1@ == value,
    decreases n,
{
    if n > 0 {
        law_conditions(conditions, n - 1, provider, capability, value);
        let before = condition_parts(conditions, n - 1);
        if let Some((p, c)) = key_parts(conditions[n - 1].0@) {
            lemma_pushed(before, (p, c, conditions[n - 1].1@), (provider, capability, value));
        }
        if exists|k: int|
            0 <= k < n - 1 && key_parts((#[trigger] conditions[k]).0@) == Some(
                (provider, capability),
            ) && conditions[k].1@ == value {
            let k = choose|k: int|
                0 <= k < n - 1 && key_parts((#[trigger] conditions[k]).0@) == Some(
                    (provider, capability),
                ) && conditions[k].1@ == value;
            assert(conditions[k].1@ == value);
        }
    }
}

/// The files of a ruleset are those in YAML, but for the one that describes the ruleset.
pub proof fn law_rule_files(name: Seq<char>)
    requires
        name != "ruleset.yaml"@,
    ensures
        holds_rules(name) <==> ".yaml"@.is_suffix_of(name) || ".yml"@.is_suffix_of(name),
        !holds_rules("ruleset.yaml"@),
{
}

} // verus!
