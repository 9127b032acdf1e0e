//! Fix engine: maps analysis violations to concrete text edits.
//!
//! Two-tier approach:
//! 1. Pattern-based: deterministic renames and removals driven by incident variables
//! 2. LLM-assisted: complex structural changes sent to a language model

use crate::fix::{
    file_models, find_strategy, fix_models, mapping_models, push_mapping, strategy_for,
    strategy_models, FixPlan, FixStrategy, FixV, LlmFixRequest, ManualFixItem, ManualV, PlanV,
    PlannedFix, RenameMapping, RequestV, StrategyV,
};
use crate::fixers::{
    import_path_fix, opt_fix, plan_import_path_change, plan_remove_prop, plan_rename,
    plan_update_dependency, remove_prop_fix, rename_fix, update_dependency_fix,
};
use crate::incident::{opt_view, Incident, IncidentV};
use crate::paths::{
    has_component, law_path_rank, law_path_rank_transitive, path_has, path_rank, rank_paths,
};
use crate::report::{ruleset_models, RuleSet, Violation, ViolationV};
use crate::scanner::uri_of;
use crate::text::{chars_of, join_path, joined, same, starts_with, text_of, texts, Rank};
use vstd::prelude::*;

verus! {

/// The path that a URI stands for, below the project's root unless it is absolute.
pub open spec fn path_of_uri(uri: Seq<char>, root: Seq<char>) -> Seq<char> {
    if "file://"@.is_prefix_of(uri) {
        joined(root, uri.skip(7))
    } else {
        joined(root, uri)
    }
}

/// The path of the URI of a file is the path of the file, whatever the project's root.
pub proof fn law_uri_round_trip(path: Seq<char>, root: Seq<char>, other: Seq<char>)
    requires
        joined(root, path).len() > 0,
        joined(root, path)[0] == '/',
    ensures
        path_of_uri(uri_of(path, root), other) == joined(root, path),
{
    reveal_strlit("file://");
    let uri = uri_of(path, root);
    assert("file://"@.len() == 7);
    assert(uri.take(7) =~= "file://"@);
    assert("file://"@.is_prefix_of(uri));
    assert(uri.skip(7) =~= joined(root, path));
}

/// Convert a file:// URI to a filesystem path, relative to project root.
pub fn uri_to_path(uri: &str, project_root: &str) -> (r: String)
    ensures
        r@ == path_of_uri(uri@, project_root@),
{
    if starts_with(uri, "file://") {
        proof {
            reveal_strlit("file://");
        }
        let c = chars_of(uri);
        let n: usize = c.len();
        let rest = text_of(&c, 7, n);
        assert(uri@.subrange(7, n as int) =~= uri@.skip(7));
        join_path(project_root, rest.as_str())
    } else {
        join_path(project_root, uri)
    }
}

/// The strategy that labels ask for, from index `from` on: the first that says anything.
pub open spec fn strategy_of_labels(labels: Seq<Seq<char>>, from: int) -> Option<StrategyV>
    decreases labels.len() - from,
{
    if from < 0 || from >= labels.len() {
        None
    } else if labels[from] == "change-type=prop-removal"@ {
        Some(StrategyV::RemoveProp)
    } else if labels[from] == "change-type=dom-structure"@ || labels[from]
        == "change-type=behavioral"@ || labels[from] == "change-type=accessibility"@ || labels[from]
        == "change-type=interface-removal"@ || labels[from] == "change-type=module-export"@
        || labels[from] == "change-type=other"@ {
        Some(StrategyV::Manual)
    } else {
        strategy_of_labels(labels, from + 1)
    }
}

/// What an optional strategy holds.
pub open spec fn opt_strategy(s: Option<FixStrategy>) -> Option<StrategyV> {
    match s {
        Some(x) => Some(x@),
        None => None,
    }
}

/// Try to infer a fix strategy from rule labels when no explicit mapping exists.
/// This is a fallback for rules not covered by any strategy file.
pub fn infer_strategy_from_labels(labels: &Vec<String>) -> (r: Option<FixStrategy>)
    ensures
        opt_strategy(r) == strategy_of_labels(texts(labels@), 0),
{
    let ghost all = texts(labels@);
    let mut i: usize = 0;
    while i < labels.len()
        invariant
            all == texts(labels@),
            i <= labels@.len(),
            strategy_of_labels(all, 0) == strategy_of_labels(all, i as int),
        decreases labels.len() - i,
    {
        let l = labels[i].as_str();
        assert(all[i as int] == l@);
        if same(l, "change-type=prop-removal") {
            return Some(FixStrategy::RemoveProp);
        }
        if same(l, "change-type=dom-structure") || same(l, "change-type=behavioral") || same(
            l,
            "change-type=accessibility",
        ) || same(l, "change-type=interface-removal") || same(l, "change-type=module-export")
            || same(l, "change-type=other") {
            return Some(FixStrategy::Manual);
        }
        i = i + 1;
    }
    None
}

/// The strategy for a rule: the one given for it, or else the one its labels ask for, or else
/// the language model.
pub open spec fn chosen_strategy(
    table: Seq<(Seq<char>, StrategyV)>,
    rule_id: Seq<char>,
    labels: Seq<Seq<char>>,
) -> StrategyV {
    match strategy_for(table, rule_id) {
        Some(s) => s,
        None => match strategy_of_labels(labels, 0) {
            Some(s) => s,
            None => StrategyV::Llm,
        },
    }
}

/// Files in the order of their paths, with one more fix for a file.
pub open spec fn insert_fix(
    files: Seq<(Seq<char>, Seq<FixV>)>,
    path: Seq<char>,
    fix: FixV,
) -> Seq<(Seq<char>, Seq<FixV>)>
    decreases files.len(),
{
    if files.len() == 0 {
        seq![(path, seq![fix])]
    } else {
        match path_rank(files[0].0, path) {
            Rank::Less => seq![files[0]] + insert_fix(files.skip(1), path, fix),
            Rank::Same => files.update(0, (files[0].0, files[0].1.push(fix))),
            Rank::More => seq![(path, seq![fix])] + files,
        }
    }
}

/// Whether files stand in the order of their paths, no path twice.
pub open spec fn in_path_order(files: Seq<(Seq<char>, Seq<FixV>)>) -> bool {
    forall|i: int, j: int|
        0 <= i < j < files.len() ==> path_rank((#[trigger] files[i]).0, (#[trigger] files[j]).0) is Less
}

/// The files of a plan stay in the order of their paths whatever fix is added, and each of their
/// paths is that of the new fix or was there before.
pub proof fn law_insert_keeps_order(
    files: Seq<(Seq<char>, Seq<FixV>)>,
    path: Seq<char>,
    fix: FixV,
)
    requires
        in_path_order(files),
    ensures
        in_path_order(insert_fix(files, path, fix)),
        forall|i: int|
            0 <= i < insert_fix(files, path, fix).len() ==> (#[trigger] insert_fix(
                files,
                path,
                fix,
            )[i]).0 == path || exists|k: int|
                0 <= k < files.len() && (#[trigger] files[k]).0 == insert_fix(files, path, fix)[i].0,
    decreases files.len(),
{
    let r = insert_fix(files, path, fix);
    if files.len() > 0 {
        let head = files[0];
        law_path_rank(head.0, path);
        match path_rank(head.0, path) {
            Rank::Less => {
                let tail = files.skip(1);
                assert forall|i: int, j: int| 0 <= i < j < tail.len() implies path_rank(
                    (#[trigger] tail[i]).0,
                    (#[trigger] tail[j]).0,
                ) is Less by {
                    assert(path_rank(files[i + 1].0, files[j + 1].0) is Less);
                }
                law_insert_keeps_order(tail, path, fix);
                let inner = insert_fix(tail, path, fix);
                assert(r =~= seq![head] + inner);
                assert forall|i: int, j: int| 0 <= i < j < r.len() implies path_rank(
                    (#[trigger] r[i]).0,
                    (#[trigger] r[j]).0,
                ) is Less by {
                    assert(r[j] == inner[j - 1]);
                    if i == 0 {
                        if inner[j - 1].0 != path {
                            let k = choose|k: int|
                                0 <= k < tail.len() && (#[trigger] tail[k]).0 == inner[j - 1].0;
                            assert(path_rank(files[0].0, files[k + 1].0) is Less);
                        }
                    } else {
                        assert(r[i] == inner[i - 1]);
                    }
                }
                assert forall|i: int| 0 <= i < r.len() implies (#[trigger] r[i]).0 == path
                    || exists|k: int| 0 <= k < files.len() && (#[trigger] files[k]).0 == r[i].0 by {
                    if i == 0 {
                        assert(files[0].0 == r[0].0);
                    } else {
                        assert(r[i] == inner[i - 1]);
                        if inner[i - 1].0 != path {
                            let k = choose|k: int|
                                0 <= k < tail.len() && (#[trigger] tail[k]).0 == inner[i - 1].0;
                            assert(files[k + 1].0 == r[i].0);
                        }
                    }
                }
            },
            Rank::Same => {
                assert forall|i: int| 0 <= i < r.len() implies (#[trigger] r[i]).0 == files[i].0 by {}
                assert forall|i: int, j: int| 0 <= i < j < r.len() implies path_rank(
                    (#[trigger] r[i]).0,
                    (#[trigger] r[j]).0,
                ) is Less by {
                    assert(path_rank(files[i].0, files[j].0) is Less);
                }
            },
            Rank::More => {
                assert forall|i: int, j: int| 0 <= i < j < r.len() implies path_rank(
                    (#[trigger] r[i]).0,
                    (#[trigger] r[j]).0,
                ) is Less by {
                    assert(r[j] == files[j - 1]);
                    if i == 0 {
                        law_path_rank(path, head.0);
                        if j > 1 {
                            assert(path_rank(files[0].0, files[j - 1].0) is Less);
                            law_path_rank_transitive(path, head.0, files[j - 1].0);
                        }
                    } else {
                        assert(r[i] == files[i - 1]);
                    }
                }
                assert forall|i: int| 0 <= i < r.len() implies (#[trigger] r[i]).0 == path
                    || exists|k: int| 0 <= k < files.len() && (#[trigger] files[k]).0 == r[i].0 by {
                    if i > 0 {
                        assert(files[i - 1].0 == r[i].0);
                    }
                }
            },
        }
    }
}

/// Adds a fix for a file.
pub fn add_fix(files: &mut Vec<(String, Vec<PlannedFix>)>, path: &str, fix: PlannedFix)
    ensures
        file_models(final(files)@) == insert_fix(file_models(old(files)@), path@, fix@),
{
    let ghost start = file_models(files@);
    let ghost f = fix@;
    let n: usize = files.len();
    let mut i: usize = 0;
    assert(start.skip(0) =~= start);
    assert(start.take(0) + insert_fix(start, path@, f) =~= insert_fix(start, path@, f));
    while i < n
        invariant
            *files == *old(files),
            start == file_models(files@),
            n == files@.len(),
            i <= n,
            f == fix@,
            insert_fix(start, path@, f) == start.take(i as int) + insert_fix(
                start.skip(i as int),
                path@,
                f,
            ),
        decreases n - i,
    {
        assert(start.skip(i as int)[0] == start[i as int]);
        assert(start[i as int].0 == files@[i as int].0@);
        match rank_paths(files[i].0.as_str(), path) {
            Rank::Less => {
                assert(start.skip(i as int).skip(1) =~= start.skip(i + 1));
                assert(start.take(i as int) + (seq![start[i as int]] + insert_fix(
                    start.skip(i + 1),
                    path@,
                    f,
                )) =~= start.take(i + 1) + insert_fix(start.skip(i + 1), path@, f));
                i = i + 1;
            },
            Rank::Same => {
                files[i].1.push(fix);
                assert(fix_models(files@[i as int].1@) =~= start[i as int].1.push(f));
                assert(file_models(files@) =~= start.take(i as int) + insert_fix(
                    start.skip(i as int),
                    path@,
                    f,
                ));
                return;
            },
            Rank::More => {
                let mut list: Vec<PlannedFix> = Vec::new();
                list.push(fix);
                assert(fix_models(list@) =~= seq![f]);
                files.insert(i, (path.to_owned(), list));
                assert(file_models(files@) =~= start.take(i as int) + insert_fix(
                    start.skip(i as int),
                    path@,
                    f,
                ));
                return;
            },
        }
    }
    let mut list: Vec<PlannedFix> = Vec::new();
    list.push(fix);
    assert(fix_models(list@) =~= seq![f]);
    files.push((path.to_owned(), list));
    assert(file_models(files@) =~= start.take(n as int) + insert_fix(
        start.skip(n as int),
        path@,
        f,
    ));
}

/// Fixes by falling line, with one more: behind those on its line or further down.
pub open spec fn insert_by_line(sorted: Seq<FixV>, f: FixV) -> Seq<FixV>
    decreases sorted.len(),
{
    if sorted.len() == 0 || sorted.last().line >= f.line {
        sorted.push(f)
    } else {
        insert_by_line(sorted.drop_last(), f).push(sorted.last())
    }
}

/// The first `n` fixes by falling line, those on one line in their order.
pub open spec fn by_falling_line(fixes: Seq<FixV>, n: int) -> Seq<FixV>
    decreases n,
{
    if n <= 0 || n > fixes.len() {
        Seq::empty()
    } else {
        insert_by_line(by_falling_line(fixes, n - 1), fixes[n - 1])
    }
}

/// Whether fixes stand by falling line.
pub open spec fn lines_fall(fixes: Seq<FixV>) -> bool {
    forall|i: int, j: int|
        0 <= i < j < fixes.len() ==> (#[trigger] fixes[i]).line >= (#[trigger] fixes[j]).line
}

proof fn lemma_insert_by_line(sorted: Seq<FixV>, f: FixV)
    requires
        lines_fall(sorted),
    ensures
        lines_fall(insert_by_line(sorted, f)),
        insert_by_line(sorted, f).len() == sorted.len() + 1,
        insert_by_line(sorted, f).to_multiset() == sorted.to_multiset().insert(f),
        forall|i: int|
            0 <= i < insert_by_line(sorted, f).len() ==> (#[trigger] insert_by_line(
                sorted,
                f,
            )[i]).line >= f.line || (sorted.len() > 0 && insert_by_line(sorted, f)[i].line
                >= sorted.last().line),
    decreases sorted.len(),
{
    broadcast use vstd::seq_lib::group_to_multiset_ensures;

    let r = insert_by_line(sorted, f);
    if sorted.len() > 0 && sorted.last().line < f.line {
        lemma_insert_by_line(sorted.drop_last(), f);
        let inner = insert_by_line(sorted.drop_last(), f);
        assert(r == inner.push(sorted.last()));
        assert(sorted =~= sorted.drop_last().push(sorted.last()));
        assert forall|i: int, j: int| 0 <= i < j < r.len() implies (#[trigger] r[i]).line
            >= (#[trigger] r[j]).line by {
            if j == r.len() - 1 {
                assert(r[i] == inner[i]);
                if sorted.len() > 1 {
                    assert(sorted[sorted.len() - 2].line >= sorted[sorted.len() - 1].line);
                }
            } else {
                assert(r[i] == inner[i]);
                assert(r[j] == inner[j]);
            }
        }
        assert(r.to_multiset() =~= sorted.to_multiset().insert(f));
        assert forall|i: int| 0 <= i < r.len() implies (#[trigger] r[i]).line >= f.line
            || r[i].line >= sorted.last().line by {
            if i < r.len() - 1 {
                assert(r[i] == inner[i]);
                if sorted.len() > 1 {
                    assert(sorted[sorted.len() - 2].line >= sorted[sorted.len() - 1].line);
                }
            }
        }
    } else {
        assert forall|i: int| 0 <= i < r.len() implies (#[trigger] r[i]).line >= f.line by {
            if i < sorted.len() {
                if i < sorted.len() - 1 {
                    assert(sorted[i].line >= sorted[sorted.len() - 1].line);
                }
            }
        }
        assert forall|i: int, j: int| 0 <= i < j < r.len() implies (#[trigger] r[i]).line
            >= (#[trigger] r[j]).line by {
            if j < sorted.len() {
                assert(sorted[i].line >= sorted[j].line);
            }
        }
    }
}

/// Sorting keeps the fixes and puts them by falling line, so that they can be applied from the
/// bottom up.
pub proof fn law_by_falling_line(fixes: Seq<FixV>, n: int)
    requires
        0 <= n <= fixes.len(),
    ensures
        lines_fall(by_falling_line(fixes, n)),
        by_falling_line(fixes, n).to_multiset() == fixes.take(n).to_multiset(),
    decreases n,
{
    broadcast use vstd::seq_lib::group_to_multiset_ensures;

    if n > 0 {
        law_by_falling_line(fixes, n - 1);
        lemma_insert_by_line(by_falling_line(fixes, n - 1), fixes[n - 1]);
        assert(fixes.take(n) =~= fixes.take(n - 1).push(fixes[n - 1]));
    } else {
        assert(fixes.take(0) =~= Seq::empty());
    }
}

fn insert_sorted(out: &mut Vec<PlannedFix>, fix: PlannedFix)
    ensures
        fix_models(final(out)@) == insert_by_line(fix_models(old(out)@), fix@),
{
    let ghost start = fix_models(out@);
    let ghost f = fix@;
    let mut n: usize = out.len();
    assert(start.take(start.len() as int) =~= start);
    assert(insert_by_line(start, f) =~= insert_by_line(start.take(n as int), f) + start.skip(
        n as int,
    ));
    while n > 0 && out[n - 1].line < fix.line
        invariant
            start == fix_models(out@),
            *out == *old(out),
            f == fix@,
            n <= out@.len(),
            insert_by_line(start, f) == insert_by_line(start.take(n as int), f) + start.skip(
                n as int,
            ),
        decreases n,
    {
        assert(start[n - 1].line == out@[n - 1].line);
        assert(start.take(n as int).last() == start[n - 1]);
        assert(start.take(n as int).drop_last() =~= start.take(n - 1));
        assert(insert_by_line(start.take(n - 1), f).push(start[n - 1]) + start.skip(n as int)
            =~= insert_by_line(start.take(n - 1), f) + start.skip(n - 1));
        n = n - 1;
    }
    if n > 0 {
        assert(start[n - 1].line == out@[n - 1].line);
        assert(start.take(n as int).last() == start[n - 1]);
    }
    assert(insert_by_line(start.take(n as int), f) == start.take(n as int).push(f));
    out.insert(n, fix);
    assert(fix_models(out@) =~= start.take(n as int).push(f) + start.skip(n as int));
}

/// The fixes by falling line.
pub fn sort_fixes(fixes: Vec<PlannedFix>) -> (out: Vec<PlannedFix>)
    ensures
        fix_models(out@) == by_falling_line(fix_models(fixes@), fixes@.len() as int),
{
    let ghost all = fix_models(fixes@);
    let mut rest = fixes;
    let mut out: Vec<PlannedFix> = Vec::new();
    let ghost mut done: int = 0;
    assert(fix_models(out@) =~= by_falling_line(all, 0));
    assert(all.skip(0) =~= all);
    while rest.len() > 0
        invariant
            0 <= done <= all.len(),
            all.len() == done + rest@.len(),
            fix_models(rest@) == all.skip(done),
            fix_models(out@) == by_falling_line(all, done),
        decreases rest.len(),
    {
        let ghost before_rest = fix_models(rest@);
        let f = rest.remove(0);
        assert(f@ == all.skip(done)[0]);
        assert(all.skip(done)[0] == all[done]);
        assert forall|k: int| 0 <= k < rest@.len() implies #[trigger] fix_models(rest@)[k]
            == all.skip(done + 1)[k] by {
            assert(fix_models(rest@)[k] == before_rest[k + 1]);
        }
        assert(fix_models(rest@) =~= all.skip(done + 1));
        insert_sorted(&mut out, f);
        proof {
            done = done + 1;
        }
    }
    out
}

/// The files of a plan with the fixes of each by falling line.
pub open spec fn sorted_files(files: Seq<(Seq<char>, Seq<FixV>)>) -> Seq<(Seq<char>, Seq<FixV>)> {
    files.map_values(
        |f: (Seq<char>, Seq<FixV>)| (f.0, by_falling_line(f.1, f.1.len() as int)),
    )
}

/// Sorts the fixes of each file by falling line.
pub fn sort_plan(plan: FixPlan) -> (r: FixPlan)
    ensures
        r@ == (PlanV { files: sorted_files(plan@.files), ..plan@ }),
{
    let ghost all = plan@.files;
    let ghost goal = sorted_files(all);
    let FixPlan { files, manual, pending_llm } = plan;
    let mut rest = files;
    let mut out: Vec<(String, Vec<PlannedFix>)> = Vec::new();
    let ghost mut done: int = 0;
    assert(file_models(out@) =~= goal.take(0));
    assert(all.skip(0) =~= all);
    while rest.len() > 0
        invariant
            0 <= done <= all.len(),
            goal == sorted_files(all),
            all.len() == done + rest@.len(),
            file_models(rest@) == all.skip(done),
            file_models(out@) == goal.take(done),
        decreases rest.len(),
    {
        let ghost before_rest = file_models(rest@);
        let (path, fixes) = rest.remove(0);
        assert((path@, fix_models(fixes@)) == all.skip(done)[0]);
        assert(all.skip(done)[0] == all[done]);
        assert forall|k: int| 0 <= k < rest@.len() implies #[trigger] file_models(rest@)[k]
            == all.skip(done + 1)[k] by {
            assert(file_models(rest@)[k] == before_rest[k + 1]);
        }
        assert(file_models(rest@) =~= all.skip(done + 1));
        let sorted = sort_fixes(fixes);
        let ghost before = file_models(out@);
        out.push((path, sorted));
        assert(file_models(out@) =~= before.push(goal[done]));
        assert(file_models(out@) =~= goal.take(done + 1));
        proof {
            done = done + 1;
        }
    }
    assert(goal.take(goal.len() as int) =~= goal);
    FixPlan { files: out, manual, pending_llm }
}

/// The content of a file, where it could be read.
pub open spec fn content_of(files: Seq<(Seq<char>, Seq<char>)>, path: Seq<char>, from: int) -> Option<
    Seq<char>,
>
    decreases files.len() - from,
{
    if from < 0 || from >= files.len() {
        None
    } else if files[from].0 == path {
        Some(files[from].1)
    } else {
        content_of(files, path, from + 1)
    }
}

/// The models of files that could be read.
pub open spec fn content_models(s: Seq<(String, String)>) -> Seq<(Seq<char>, Seq<char>)> {
    s.map_values(|f: (String, String)| (f.0@, f.1@))
}

/// The content of a file, where it could be read.
pub fn find_content<'a>(files: &'a Vec<(String, String)>, path: &str) -> (r: Option<&'a str>)
    ensures
        match r {
            Some(s) => content_of(content_models(files@), path@, 0) == Some(s@),
            None => content_of(content_models(files@), path@, 0) is None,
        },
{
    let ghost all = content_models(files@);
    let mut i: usize = 0;
    while i < files.len()
        invariant
            all == content_models(files@),
            i <= files@.len(),
            content_of(all, path@, 0) == content_of(all, path@, i as int),
        decreases files.len() - i,
    {
        assert(all[i as int] == (files@[i as int].0@, files@[i as int].1@));
        if same(files[i].0.as_str(), path) {
            return Some(files[i].1.as_str());
        }
        i = i + 1;
    }
    None
}

/// The line of an incident, zero where it has none.
pub open spec fn line_or_zero(i: IncidentV) -> u32 {
    match i.line_number {
        Some(l) => l,
        None => 0,
    }
}

/// The plan with an incident left for manual attention.
pub open spec fn with_manual(plan: PlanV, rule_id: Seq<char>, i: IncidentV) -> PlanV {
    PlanV {
        manual: plan.manual.push(
            ManualV {
                rule_id,
                file_uri: i.file_uri,
                line: line_or_zero(i),
                message: i.message,
                code_snip: i.code_snip,
            },
        ),
        ..plan
    }
}

/// The plan with an incident left to the language model.
pub open spec fn with_request(
    plan: PlanV,
    rule_id: Seq<char>,
    i: IncidentV,
    path: Seq<char>,
) -> PlanV {
    PlanV {
        pending: plan.pending.push(
            RequestV {
                rule_id,
                file_uri: i.file_uri,
                file_path: path,
                line: line_or_zero(i),
                message: i.message,
                code_snip: i.code_snip,
                source: None,
            },
        ),
        ..plan
    }
}

/// The plan with a fix, where there is one.
pub open spec fn with_fix(plan: PlanV, path: Seq<char>, fix: Option<FixV>) -> PlanV {
    match fix {
        Some(f) => PlanV { files: insert_fix(plan.files, path, f), ..plan },
        None => plan,
    }
}

/// The plan with one more incident dealt with, by the strategy for its rule.
pub open spec fn plan_step(
    plan: PlanV,
    rule_id: Seq<char>,
    strategy: StrategyV,
    i: IncidentV,
    path: Seq<char>,
    source: Option<Seq<char>>,
) -> PlanV {
    match strategy {
        StrategyV::Rename(ms) => with_fix(plan, path, rename_fix(i, ms, source, rule_id)),
        StrategyV::RemoveProp => with_fix(plan, path, remove_prop_fix(i, source, rule_id)),
        StrategyV::ImportPathChange(from, to) => with_fix(
            plan,
            path,
            import_path_fix(i, from, to, rule_id),
        ),
        StrategyV::CssVariablePrefix(from, to) => with_fix(
            plan,
            path,
            rename_fix(i, seq![(from, to)], source, rule_id),
        ),
        StrategyV::UpdateDependency(package, version) => with_fix(
            plan,
            path,
            update_dependency_fix(i, package, version, source, rule_id),
        ),
        StrategyV::Manual => with_manual(plan, rule_id, i),
        StrategyV::Llm => with_request(plan, rule_id, i, path),
    }
}

/// The plan with the first `n` incidents of a rule dealt with. Those in `node_modules` are left
/// out: such files are updated by a new version of the package.
pub open spec fn plan_incidents(
    plan: PlanV,
    rule_id: Seq<char>,
    strategy: StrategyV,
    incidents: Seq<IncidentV>,
    n: int,
    root: Seq<char>,
    files: Seq<(Seq<char>, Seq<char>)>,
) -> PlanV
    decreases n,
{
    if n <= 0 || n > incidents.len() {
        plan
    } else {
        let before = plan_incidents(plan, rule_id, strategy, incidents, n - 1, root, files);
        let path = path_of_uri(incidents[n - 1].file_uri, root);
        if has_component(path, "node_modules"@) {
            before
        } else {
            plan_step(
                before,
                rule_id,
                strategy,
                incidents[n - 1],
                path,
                content_of(files, path, 0),
            )
        }
    }
}

/// The plan with the first `n` violations of a rule set dealt with.
pub open spec fn plan_violations(
    plan: PlanV,
    violations: Seq<(Seq<char>, ViolationV)>,
    n: int,
    root: Seq<char>,
    table: Seq<(Seq<char>, StrategyV)>,
    files: Seq<(Seq<char>, Seq<char>)>,
) -> PlanV
    decreases n,
{
    if n <= 0 || n > violations.len() {
        plan
    } else {
        let (rule_id, violation) = violations[n - 1];
        plan_incidents(
            plan_violations(plan, violations, n - 1, root, table, files),
            rule_id,
            chosen_strategy(table, rule_id, violation.labels),
            violation.incidents,
            violation.incidents.len() as int,
            root,
            files,
        )
    }
}

/// The plan with the first `n` rule sets dealt with.
pub open spec fn plan_rulesets(
    output: Seq<Seq<(Seq<char>, ViolationV)>>,
    n: int,
    root: Seq<char>,
    table: Seq<(Seq<char>, StrategyV)>,
    files: Seq<(Seq<char>, Seq<char>)>,
) -> PlanV
    decreases n,
{
    if n <= 0 || n > output.len() {
        PlanV { files: Seq::empty(), manual: Seq::empty(), pending: Seq::empty() }
    } else {
        plan_violations(
            plan_rulesets(output, n - 1, root, table, files),
            output[n - 1],
            output[n - 1].len() as int,
            root,
            table,
            files,
        )
    }
}

/// The plan for an analysis: every incident dealt with in order, then the fixes of each file by
/// falling line.
pub open spec fn planned(
    output: Seq<Seq<(Seq<char>, ViolationV)>>,
    root: Seq<char>,
    table: Seq<(Seq<char>, StrategyV)>,
    files: Seq<(Seq<char>, Seq<char>)>,
) -> PlanV {
    let plan = plan_rulesets(output, output.len() as int, root, table, files);
    PlanV { files: sorted_files(plan.files), ..plan }
}

/// Whether the files of a plan stand in the order of their paths and lie outside of
/// `node_modules`.
pub open spec fn files_in_place(files: Seq<(Seq<char>, Seq<FixV>)>) -> bool {
    in_path_order(files) && forall|i: int|
        0 <= i < files.len() ==> !has_component((#[trigger] files[i]).0, "node_modules"@)
}

proof fn lemma_step_in_place(
    plan: PlanV,
    rule_id: Seq<char>,
    strategy: StrategyV,
    i: IncidentV,
    path: Seq<char>,
    source: Option<Seq<char>>,
)
    requires
        files_in_place(plan.files),
        !has_component(path, "node_modules"@),
    ensures
        files_in_place(plan_step(plan, rule_id, strategy, i, path, source).files),
{
    let r = plan_step(plan, rule_id, strategy, i, path, source).files;
    if r != plan.files {
        let f = choose|f: FixV| r == #[trigger] insert_fix(plan.files, path, f);
        assert(r == insert_fix(plan.files, path, f));
        law_insert_keeps_order(plan.files, path, f);
        assert forall|k: int| 0 <= k < r.len() implies !has_component(
            (#[trigger] r[k]).0,
            "node_modules"@,
        ) by {
            if r[k].0 != path {
                let j = choose|j: int|
                    0 <= j < plan.files.len() && (#[trigger] plan.files[j]).0 == r[k].0;
                assert(!has_component(plan.files[j].0, "node_modules"@));
            }
        }
    }
}

proof fn lemma_incidents_in_place(
    plan: PlanV,
    rule_id: Seq<char>,
    strategy: StrategyV,
    incidents: Seq<IncidentV>,
    n: int,
    root: Seq<char>,
    files: Seq<(Seq<char>, Seq<char>)>,
)
    requires
        files_in_place(plan.files),
    ensures
        files_in_place(
            plan_incidents(plan, rule_id, strategy, incidents, n, root, files).files,
        ),
    decreases n,
{
    if 0 < n && n <= incidents.len() {
        lemma_incidents_in_place(plan, rule_id, strategy, incidents, n - 1, root, files);
        let before = plan_incidents(plan, rule_id, strategy, incidents, n - 1, root, files);
        let path = path_of_uri(incidents[n - 1].file_uri, root);
        if !has_component(path, "node_modules"@) {
            lemma_step_in_place(
                before,
                rule_id,
                strategy,
                incidents[n - 1],
                path,
                content_of(files, path, 0),
            );
        }
    }
}

proof fn lemma_violations_in_place(
    plan: PlanV,
    violations: Seq<(Seq<char>, ViolationV)>,
    n: int,
    root: Seq<char>,
    table: Seq<(Seq<char>, StrategyV)>,
    files: Seq<(Seq<char>, Seq<char>)>,
)
    requires
        files_in_place(plan.files),
    ensures
        files_in_place(plan_violations(plan, violations, n, root, table, files).files),
    decreases n,
{
    if 0 < n && n <= violations.len() {
        lemma_violations_in_place(plan, violations, n - 1, root, table, files);
        let (rule_id, violation) = violations[n - 1];
        lemma_incidents_in_place(
            plan_violations(plan, violations, n - 1, root, table, files),
            rule_id,
            chosen_strategy(table, rule_id, violation.labels),
            violation.incidents,
            violation.incidents.len() as int,
            root,
            files,
        );
    }
}

proof fn lemma_rulesets_in_place(
    output: Seq<Seq<(Seq<char>, ViolationV)>>,
    n: int,
    root: Seq<char>,
    table: Seq<(Seq<char>, StrategyV)>,
    files: Seq<(Seq<char>, Seq<char>)>,
)
    ensures
        files_in_place(plan_rulesets(output, n, root, table, files).files),
    decreases n,
{
    if 0 < n && n <= output.len() {
        lemma_rulesets_in_place(output, n - 1, root, table, files);
        lemma_violations_in_place(
            plan_rulesets(output, n - 1, root, table, files),
            output[n - 1],
            output[n - 1].len() as int,
            root,
            table,
            files,
        );
    }
}

/// In every plan the files stand in the order of their paths, none twice and none below
/// `node_modules`, and the fixes of each file by falling line.
pub proof fn law_plan_in_order(
    output: Seq<Seq<(Seq<char>, ViolationV)>>,
    root: Seq<char>,
    table: Seq<(Seq<char>, StrategyV)>,
    files: Seq<(Seq<char>, Seq<char>)>,
)
    ensures
        files_in_place(planned(output, root, table, files).files),
        forall|i: int|
            0 <= i < planned(output, root, table, files).files.len() ==> lines_fall(
                (#[trigger] planned(output, root, table, files).files[i]).1,
            ),
{
    lemma_rulesets_in_place(output, output.len() as int, root, table, files);
    let before = plan_rulesets(output, output.len() as int, root, table, files).files;
    let after = planned(output, root, table, files).files;
    assert forall|i: int| 0 <= i < after.len() implies lines_fall((#[trigger] after[i]).1) by {
        law_by_falling_line(before[i].1, before[i].1.len() as int);
    }
    assert forall|i: int, j: int| 0 <= i < j < after.len() implies path_rank(
        (#[trigger] after[i]).0,
        (#[trigger] after[j]).0,
    ) is Less by {
        assert(path_rank(before[i].0, before[j].0) is Less);
    }
    assert forall|i: int| 0 <= i < after.len() implies !has_component(
        (#[trigger] after[i]).0,
        "node_modules"@,
    ) by {
        assert(!has_component(before[i].0, "node_modules"@));
    }
}

/// Leaves an incident for manual attention.
pub fn add_manual(plan: &mut FixPlan, rule_id: &str, incident: &Incident)
    ensures
        final(plan)@ == with_manual(old(plan)@, rule_id@, incident@),
{
    let line: u32 = match incident.line_number {
        Some(l) => l,
        None => 0,
    };
    let item = ManualFixItem {
        rule_id: rule_id.to_owned(),
        file_uri: incident.file_uri.clone(),
        line,
        message: incident.message.clone(),
        code_snip: copy_text(&incident.code_snip),
    };
    let ghost goal = with_manual(plan@, rule_id@, incident@);
    assert(item@ == goal.manual.last());
    plan.manual.push(item);
    assert(plan@.manual =~= goal.manual);
}

/// Leaves an incident to the language model.
pub fn add_request(plan: &mut FixPlan, rule_id: &str, incident: &Incident, path: &str)
    ensures
        final(plan)@ == with_request(old(plan)@, rule_id@, incident@, path@),
{
    let line: u32 = match incident.line_number {
        Some(l) => l,
        None => 0,
    };
    let request = LlmFixRequest {
        rule_id: rule_id.to_owned(),
        file_uri: incident.file_uri.clone(),
        file_path: path.to_owned(),
        line,
        message: incident.message.clone(),
        code_snip: copy_text(&incident.code_snip),
        source: None,
    };
    let ghost goal = with_request(plan@, rule_id@, incident@, path@);
    assert(request@ == goal.pending.last());
    plan.pending_llm.push(request);
    assert(plan@.pending =~= goal.pending);
}

/// A copy of an optional text.
pub fn copy_text(s: &Option<String>) -> (r: Option<String>)
    ensures
        opt_view(r) == opt_view(*s),
{
    match s {
        Some(x) => Some(x.clone()),
        None => None,
    }
}

/// Adds a fix, where there is one.
pub fn add_opt_fix(plan: &mut FixPlan, path: &str, fix: Option<PlannedFix>)
    ensures
        final(plan)@ == with_fix(old(plan)@, path@, opt_fix(fix)),
{
    if let Some(f) = fix {
        add_fix(&mut plan.files, path, f);
    }
}

fn step(
    plan: &mut FixPlan,
    rule_id: &str,
    strategy: &FixStrategy,
    incident: &Incident,
    path: &str,
    source: Option<&str>,
)
    ensures
        final(plan)@ == plan_step(
            old(plan)@,
            rule_id@,
            strategy@,
            incident@,
            path@,
            match source {
                Some(s) => Some(s@),
                None => None,
            },
        ),
{
    match strategy {
        FixStrategy::Rename(mappings) => {
            let fix = plan_rename(rule_id, incident, mappings, source);
            add_opt_fix(plan, path, fix);
        },
        FixStrategy::RemoveProp => {
            let fix = plan_remove_prop(rule_id, incident, source);
            add_opt_fix(plan, path, fix);
        },
        FixStrategy::ImportPathChange { old_path, new_path } => {
            let fix = plan_import_path_change(
                rule_id,
                incident,
                old_path.as_str(),
                new_path.as_str(),
            );
            add_opt_fix(plan, path, fix);
        },
        FixStrategy::CssVariablePrefix { old_prefix, new_prefix } => {
            let mut mappings: Vec<RenameMapping> = Vec::new();
            push_mapping(&mut mappings, old_prefix.as_str(), new_prefix.as_str());
            assert(mapping_models(mappings@) =~= seq![(old_prefix@, new_prefix@)]);
            let fix = plan_rename(rule_id, incident, &mappings, source);
            add_opt_fix(plan, path, fix);
        },
        FixStrategy::UpdateDependency { package, new_version } => {
            let fix = plan_update_dependency(
                rule_id,
                incident,
                package.as_str(),
                new_version.as_str(),
                source,
            );
            add_opt_fix(plan, path, fix);
        },
        FixStrategy::Manual => add_manual(plan, rule_id, incident),
        FixStrategy::Llm => add_request(plan, rule_id, incident, path),
    }
}

fn choose_strategy(
    table: &Vec<(String, FixStrategy)>,
    rule_id: &str,
    labels: &Vec<String>,
) -> (r: FixStrategy)
    ensures
        r@ == chosen_strategy(strategy_models(table@), rule_id@, texts(labels@)),
{
    match find_strategy(table, rule_id) {
        Some(s) => s.clone(),
        None => match infer_strategy_from_labels(labels) {
            Some(s) => s,
            None => FixStrategy::Llm,
        },
    }
}

fn add_violation(
    plan: &mut FixPlan,
    rule_id: &str,
    violation: &Violation,
    root: &str,
    table: &Vec<(String, FixStrategy)>,
    files: &Vec<(String, String)>,
)
    ensures
        final(plan)@ == plan_incidents(
            old(plan)@,
            rule_id@,
            chosen_strategy(strategy_models(table@), rule_id@, violation@.labels),
            violation@.incidents,
            violation@.incidents.len() as int,
            root@,
            content_models(files@),
        ),
{
    let strategy = choose_strategy(table, rule_id, &violation.labels);
    let ghost start = plan@;
    let ghost incidents = violation@.incidents;
    let mut i: usize = 0;
    while i < violation.incidents.len()
        invariant
            incidents == violation@.incidents,
            i <= violation.incidents@.len(),
            plan@ == plan_incidents(
                start,
                rule_id@,
                strategy@,
                incidents,
                i as int,
                root@,
                content_models(files@),
            ),
        decreases violation.incidents.len() - i,
    {
        let incident = &violation.incidents[i];
        assert(incidents[i as int] == incident@);
        let path = uri_to_path(incident.file_uri.as_str(), root);
        if !path_has(path.as_str(), "node_modules") {
            let source = find_content(files, path.as_str());
            step(plan, rule_id, &strategy, incident, path.as_str(), source);
        }
        i = i + 1;
    }
}

/// Build a fix plan from analysis output.
///
/// `strategies` holds the strategy of each rule that has one. Where a rule has none, its labels
/// are asked, and then the language model. `files` holds the content of the files that could be
/// read.
pub fn plan_fixes(
    output: &Vec<RuleSet>,
    project_root: &str,
    strategies: &Vec<(String, FixStrategy)>,
    files: &Vec<(String, String)>,
) -> (r: FixPlan)
    ensures
        r@ == planned(
            ruleset_models(output@),
            project_root@,
            strategy_models(strategies@),
            content_models(files@),
        ),
{
    let ghost all = ruleset_models(output@);
    let ghost table = strategy_models(strategies@);
    let ghost contents = content_models(files@);
    let mut plan = FixPlan::default();
    assert(plan@ =~= plan_rulesets(all, 0, project_root@, table, contents));
    let mut i: usize = 0;
    while i < output.len()
        invariant
            all == ruleset_models(output@),
            table == strategy_models(strategies@),
            contents == content_models(files@),
            i <= output@.len(),
            plan@ == plan_rulesets(all, i as int, project_root@, table, contents),
        decreases output.len() - i,
    {
        let violations = &output[i].violations;
        let ghost vs = all[i as int];
        let ghost start = plan@;
        let mut k: usize = 0;
        while k < violations.len()
            invariant
                vs == violations@.map_values(|v: (String, Violation)| (v.0@, v.1@)),
                table == strategy_models(strategies@),
                contents == content_models(files@),
                k <= violations@.len(),
                plan@ == plan_violations(start, vs, k as int, project_root@, table, contents),
            decreases violations.len() - k,
        {
            assert(vs[k as int] == (violations@[k as int].0@, violations@[k as int].1@));
            add_violation(
                &mut plan,
                violations[k].0.as_str(),
                &violations[k].1,
                project_root,
                strategies,
                files,
            );
            k = k + 1;
        }
        i = i + 1;
    }
    sort_plan(plan)
}

} // verus!
