//! What a condition asks for, and which pass over the project answers it.

use crate::capabilities::{ProviderCondition, ReferenceLocation, ReferencedCondition};
use crate::dependency::{project_check, CheckV};
use crate::evaluate::{
    css_evaluation, evaluation, reports_file, with_error, ErrorV, EvaluationV, ProjectData,
};
use crate::fix_engine::remove_prop_fix as remove_prop_by_rule;
use crate::fixers::prop_pattern;
use crate::incident::{opt_view, IncidentV};
use crate::paths::{
    behind_named, below, components, leading_part, named_end, next_named, segment_part,
    segment_parts,
};
use crate::pattern::{opt_valid, regex_accepts, regex_first, regex_valid};
use crate::query_eval::{patterns_valid, query_hits, query_of, wants_file, QueryV};
use crate::removal_laws::{about_prop, take_away};
use crate::text::{is_idle_segment, law_join_split, lemma_split_len, lines_of, split, trimmed};
use vstd::prelude::*;

verus! {

// ---- Queries ----

/// A query asks for what the condition says, field by field, below the root of the project.
pub proof fn law_query(c: ReferencedCondition, root: Seq<char>)
    ensures
        query_of(c, root).root == root,
        query_of(c, root).pattern == c.pattern@,
        query_of(c, root).file_pattern == opt_view(c.file_pattern),
        query_of(c, root).from == opt_view(c.from),
        query_of(c, root).component == opt_view(c.component),
        query_of(c, root).value == opt_view(c.value),
        query_of(c, root).parent == opt_view(c.parent),
        query_of(c, root).not_parent == opt_view(c.not_parent),
        query_of(c, root).parent_from == opt_view(c.parent_from),
        query_of(c, root).child == opt_view(c.child),
        query_of(c, root).not_child == opt_view(c.not_child),
        query_of(c, root).requires_child == opt_view(c.requires_child),
{
}

/// Without a pattern for files every file is looked at; with one, those whose path below the root
/// it accepts, and those outside of the root whose path it accepts.
pub proof fn law_files_looked_at(path: Seq<char>, q: QueryV)
    ensures
        q.file_pattern is None ==> wants_file(path, q),
        q.file_pattern is Some && below(path, q.root) is Some ==> wants_file(path, q)
            == regex_accepts(q.file_pattern->0, below(path, q.root)->0),
        q.file_pattern is Some && below(path, q.root) is None ==> wants_file(path, q)
            == regex_accepts(q.file_pattern->0, path),
        below(path, q.root) is Some <==> components(q.root).is_prefix_of(components(path)),
{
}

/// Which patterns of a condition have to be regular expressions: those that its location makes use
/// of.
pub proof fn law_patterns_needed(location: Option<ReferenceLocation>, q: QueryV)
    ensures
        patterns_valid(location, q) ==> opt_valid(q.file_pattern) && regex_valid(q.pattern)
            && opt_valid(q.from),
        (location is None || location == Some(ReferenceLocation::JsxProp)) && patterns_valid(
            location,
            q,
        ) ==> opt_valid(q.component) && opt_valid(q.value),
        (location is None || location == Some(ReferenceLocation::JsxComponent)) && patterns_valid(
            location,
            q,
        ) ==> opt_valid(q.parent) && opt_valid(q.not_parent) && opt_valid(q.parent_from)
            && opt_valid(q.child) && opt_valid(q.not_child) && opt_valid(q.requires_child),
        opt_valid(q.file_pattern) && regex_valid(q.pattern) && opt_valid(q.from) && (location
            == Some(ReferenceLocation::Import) || location == Some(
            ReferenceLocation::FunctionCall,
        ) || location == Some(ReferenceLocation::TypeReference)) ==> patterns_valid(location, q),
{
}

/// Every condition is answered by the pass that it is for.
pub proof fn law_evaluation(condition: ProviderCondition, data: ProjectData)
    ensures
        match condition {
            ProviderCondition::Referenced(c) => {
                let q = query_of(c, data.root@);
                &&& patterns_valid(c.location, q) ==> evaluation(condition, data)
                    == EvaluationV::Done(query_hits(data.index, c.location, q), Seq::empty())
                &&& !patterns_valid(c.location, q) ==> evaluation(condition, data) is Pattern
            },
            ProviderCondition::CssClass(c) => evaluation(condition, data) == css_evaluation(
                false,
                c.pattern@,
                data,
            ),
            ProviderCondition::CssVar(c) => evaluation(condition, data) == css_evaluation(
                true,
                c.pattern@,
                data,
            ),
            ProviderCondition::Dependency(c) => match project_check(
                data.packages@,
                data.dependents@,
                c@,
            ) {
                CheckV::Found(found) => evaluation(condition, data) == EvaluationV::Done(
                    found,
                    Seq::empty(),
                ),
                CheckV::Json(message) => evaluation(condition, data) == EvaluationV::Json(message),
                CheckV::Pattern => evaluation(condition, data) is Pattern,
            },
        },
{
}

/// A file that could not be parsed is reported once: the first reason stays.
pub proof fn law_error_once(errors: Seq<ErrorV>, e: ErrorV)
    ensures
        reports_file(with_error(errors, Some(e)), e.file_path),
        reports_file(errors, e.file_path) ==> with_error(errors, Some(e)) == errors,
        !reports_file(errors, e.file_path) ==> with_error(errors, Some(e)) == errors.push(e),
        with_error(errors, None) == errors,
{
    if !reports_file(errors, e.file_path) {
        let now = errors.push(e);
        assert(components(now[errors.len() as int].file_path) == components(e.file_path));
    }
}

// ---- Paths below a directory ----

proof fn lemma_split_add(a: Seq<char>, b: Seq<char>, c: char)
    ensures
        split(a + seq![c] + b, c) == split(a, c) + split(b, c),
    decreases b.len(),
{
    let all = a + seq![c] + b;
    lemma_split_len(a, c);
    lemma_split_len(b, c);
    if b.len() == 0 {
        assert(all =~= a.push(c));
        assert(all.drop_last() =~= a);
        assert(b =~= Seq::<char>::empty());
        assert(split(all, c) =~= split(a, c) + split(b, c));
    } else {
        let front = b.drop_last();
        lemma_split_add(a, front, c);
        lemma_split_len(front, c);
        assert(all.drop_last() =~= a + seq![c] + front);
        assert(all.last() == b.last());
        assert(split(all, c) =~= split(a, c) + split(b, c));
    }
}

/// Whether all segments of a path from one on name something.
pub open spec fn all_named(path: Seq<char>, from: int) -> bool {
    forall|k: int| from <= k < split(path, '/').len() ==> !is_idle_segment(#[trigger] split(path, '/')[k])
}

proof fn lemma_parts_len(segments: Seq<Seq<char>>, n: int, from: int)
    requires
        0 <= from <= n <= segments.len(),
        forall|k: int| 0 <= k < from ==> is_idle_segment(#[trigger] segments[k]),
        forall|k: int| from <= k < n ==> !is_idle_segment(#[trigger] segments[k]),
    ensures
        segment_parts(segments, n).len() == n - from,
    decreases n,
{
    if n > 0 {
        lemma_parts_len(segments, n - 1, if from <= n - 1 {
            from
        } else {
            n - 1
        });
        assert(segments[n - 1] == segments[n - 1]);
    }
}

proof fn lemma_parts_prefix(a: Seq<Seq<char>>, b: Seq<Seq<char>>, n: int)
    requires
        0 <= n <= a.len(),
    ensures
        segment_parts(a + b, n) == segment_parts(a, n),
    decreases n,
{
    if n > 0 {
        lemma_parts_prefix(a, b, n - 1);
        assert((a + b)[n - 1] == a[n - 1]);
    }
}

proof fn lemma_parts_grow(segments: Seq<Seq<char>>, n: int, m: int)
    requires
        0 <= n <= m <= segments.len(),
    ensures
        segment_parts(segments, n).is_prefix_of(segment_parts(segments, m)),
    decreases m,
{
    if n < m {
        lemma_parts_grow(segments, n, m - 1);
        let a = segment_parts(segments, n);
        let b = segment_parts(segments, m - 1);
        let c = segment_parts(segments, m);
        assert(c == b + segment_part(segments[m - 1]));
        assert(c.subrange(0, a.len() as int) =~= b.subrange(0, a.len() as int));
    } else {
        let a = segment_parts(segments, n);
        assert(a.subrange(0, a.len() as int) =~= a);
    }
}

proof fn lemma_behind(segments: Seq<Seq<char>>, i: int, k: int)
    requires
        0 <= i,
        0 <= k,
        i + k <= segments.len(),
        forall|j: int| i <= j < i + k ==> !is_idle_segment(#[trigger] segments[j]),
    ensures
        behind_named(segments, i, k) == i + k,
    decreases k,
{
    if k > 0 {
        assert(!is_idle_segment(segments[i]));
        lemma_behind(segments, i + 1, k - 1);
    }
}

/// What stands below a directory is the rest of the path.
pub proof fn law_below(dir: Seq<char>, rest: Seq<char>)
    requires
        dir.len() > 1,
        dir[0] == '/',
        all_named(dir, 1),
        all_named(rest, 0),
    ensures
        below(dir + seq!['/'] + rest, dir) == Some(rest),
{
    let path = dir + seq!['/'] + rest;
    let a = split(dir, '/');
    let b = split(rest, '/');
    let ss = split(path, '/');
    lemma_split_add(dir, rest, '/');
    lemma_split_len(dir, '/');
    lemma_split_len(rest, '/');
    assert(path[0] == '/');
    lemma_first_empty(dir);
    let n = a.len() as int;
    assert(leading_part(path) == leading_part(dir));
    lemma_parts_prefix(a, b, n);
    lemma_parts_grow(ss, n, ss.len() as int);
    lemma_parts_len(a, n, 1);
    let lead = leading_part(path);
    let short = components(dir);
    let long = components(path);
    assert(short == lead + segment_parts(ss, n));
    assert(long == lead + segment_parts(ss, ss.len() as int));
    assert(long.subrange(0, short.len() as int) =~= lead + segment_parts(
        ss,
        ss.len() as int,
    ).subrange(0, segment_parts(ss, n).len() as int));
    assert(short.is_prefix_of(long));
    assert forall|j: int| 1 <= j < n implies !is_idle_segment(#[trigger] ss[j]) by {
        assert(ss[j] == a[j]);
    }
    lemma_behind(ss, 1, n - 1);
    assert(ss[n] == b[0]);
    assert(next_named(ss, n) == n);
    assert(ss[ss.len() - 1] == b[b.len() - 1]);
    assert(named_end(ss, ss.len() as int) == ss.len());
    assert(ss.subrange(n, ss.len() as int) =~= b);
    reveal_strlit("/");
    assert("/"@ =~= seq!['/']);
    law_join_split(rest, '/');
}

proof fn lemma_first_empty(s: Seq<char>)
    requires
        s.len() > 0,
        s[0] == '/',
    ensures
        split(s, '/').len() >= 2,
        split(s, '/')[0].len() == 0,
    decreases s.len(),
{
    let front = s.drop_last();
    lemma_split_len(front, '/');
    if s.len() > 1 {
        assert(front[0] == '/');
        lemma_first_empty(front);
    }
}

// ---- Removing a prop by a known strategy ----

/// A prop that begins its line is removed with that line.
pub proof fn law_known_line_removed(
    i: IncidentV,
    source: Seq<char>,
    rule_id: Seq<char>,
    line: u32,
    prop: Seq<char>,
)
    requires
        about_prop(i, source, line, prop),
        prop.is_prefix_of(trimmed(lines_of(source)[line - 1])),
    ensures
        remove_prop_by_rule(i, Some(source), rule_id) is Some,
        take_away(
            remove_prop_by_rule(i, Some(source), rule_id)->0.edits,
            lines_of(source),
            line - 1,
            line as int,
            rule_id,
        ),
        remove_prop_by_rule(i, Some(source), rule_id)->0.confidence is High,
{
}

/// A prop that stands between others on its line is removed alone; where it is not found, nothing
/// is changed and the fix is one of low confidence.
pub proof fn law_known_inline_removed(
    i: IncidentV,
    source: Seq<char>,
    rule_id: Seq<char>,
    line: u32,
    prop: Seq<char>,
)
    requires
        about_prop(i, source, line, prop),
        !prop.is_prefix_of(trimmed(lines_of(source)[line - 1])),
    ensures
        ({
            let found = regex_first(prop_pattern(prop), lines_of(source)[line - 1]);
            let fix = remove_prop_by_rule(i, Some(source), rule_id);
            &&& fix is Some <==> regex_valid(prop_pattern(prop))
            &&& fix is Some && found is Some ==> {
                &&& fix->0.confidence is High
                &&& fix->0.edits.len() == 1
                &&& fix->0.edits[0].line == line
                &&& fix->0.edits[0].old_text == found->0
                &&& fix->0.edits[0].new_text.len() == 0
                &&& fix->0.file_uri == i.file_uri
                &&& fix->0.rule_id == rule_id
            }
            &&& fix is Some && found is None ==> fix->0.confidence is Low && fix->0.edits.len()
                == 0
        }),
{
}

} // verus!
