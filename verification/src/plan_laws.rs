//! What a fix plan holds: what becomes of each incident, and nothing else.

use crate::engine::{
    by_falling_line, chosen_strategy, content_of, insert_fix, law_by_falling_line, path_of_uri,
    plan_incidents, plan_rulesets, plan_step, plan_violations, planned, sorted_files,
    strategy_of_labels,
};
use crate::fix::{strategy_for, FixV, ManualV, PlanV, RequestV, StrategyV};
use crate::fixers::{import_path_fix, remove_prop_fix, rename_fix, update_dependency_fix};
use crate::incident::IncidentV;
use crate::paths::{components, has_component, law_path_rank, path_rank};
use crate::report::ViolationV;
use crate::text::Rank;
use vstd::prelude::*;

verus! {

/// What a plan may hold: something for manual attention, a request to the language model, or a fix
/// for a file.
pub ghost enum Item {
    Manual(ManualV),
    Request(RequestV),
    Fix(Seq<char>, FixV),
}

/// Whether a plan has a fix for a file, however its path is spelled.
pub open spec fn has_fix(
    files: Seq<(Seq<char>, Seq<FixV>)>,
    path: Seq<char>,
    fix: FixV,
) -> bool {
    exists|k: int|
        0 <= k < files.len() && components((#[trigger] files[k]).0) == components(path)
            && files[k].1.contains(fix)
}

/// Whether a plan holds an item.
pub open spec fn holds(plan: PlanV, item: Item) -> bool {
    match item {
        Item::Manual(m) => plan.manual.contains(m),
        Item::Request(r) => plan.pending.contains(r),
        Item::Fix(path, fix) => has_fix(plan.files, path, fix),
    }
}

/// Whether two items are the same, the spelling of paths aside.
pub open spec fn same_item(a: Item, b: Item) -> bool {
    match (a, b) {
        (Item::Fix(p, f), Item::Fix(q, g)) => components(p) == components(q) && f == g,
        _ => a == b,
    }
}

/// The item for a fix of a file, where there is one.
pub open spec fn fix_at(path: Seq<char>, fix: Option<FixV>) -> Option<Item> {
    match fix {
        Some(f) => Some(Item::Fix(path, f)),
        None => None,
    }
}

pub proof fn lemma_pushed<T>(s: Seq<T>, x: T, y: T)
    ensures
        s.push(x).contains(y) <==> s.contains(y) || x == y,
{
    let t = s.push(x);
    assert(t[s.len() as int] == x);
    if s.contains(y) {
        let k = choose|k: int| 0 <= k < s.len() && s[k] == y;
        assert(t[k] == y);
    }
    if t.contains(y) {
        let k = choose|k: int| 0 <= k < t.len() && t[k] == y;
        if k < s.len() {
            assert(s[k] == y);
        }
    }
}

proof fn lemma_has_first(files: Seq<(Seq<char>, Seq<FixV>)>, path: Seq<char>, fix: FixV)
    requires
        files.len() > 0,
    ensures
        has_fix(files, path, fix) <==> (components(files[0].0) == components(path)
            && files[0].1.contains(fix)) || has_fix(files.skip(1), path, fix),
{
    let tail = files.skip(1);
    if has_fix(files, path, fix) {
        let k = choose|k: int|
            0 <= k < files.len() && components((#[trigger] files[k]).0) == components(path)
                && files[k].1.contains(fix);
        if k > 0 {
            assert(tail[k - 1] == files[k]);
        }
    }
    if has_fix(tail, path, fix) {
        let k = choose|k: int|
            0 <= k < tail.len() && components((#[trigger] tail[k]).0) == components(path)
                && tail[k].1.contains(fix);
        assert(files[k + 1] == tail[k]);
    }
}

/// A fix that is added to the files of a plan is there, for its file, and so are those that were,
/// and no other.
pub proof fn law_insert_fix(
    files: Seq<(Seq<char>, Seq<FixV>)>,
    path: Seq<char>,
    fix: FixV,
    other: Seq<char>,
    g: FixV,
)
    ensures
        has_fix(insert_fix(files, path, fix), other, g) <==> has_fix(files, other, g) || (
        components(path) == components(other) && fix == g),
    decreases files.len(),
{
    let r = insert_fix(files, path, fix);
    let one = seq![fix];
    assert(one[0] == fix);
    if files.len() == 0 {
        assert(r[0] == (path, one));
    } else {
        law_path_rank(files[0].0, path);
        lemma_has_first(files, other, g);
        match path_rank(files[0].0, path) {
            Rank::Less => {
                law_insert_fix(files.skip(1), path, fix, other, g);
                assert(r[0] == files[0]);
                assert(r.skip(1) =~= insert_fix(files.skip(1), path, fix));
            },
            Rank::Same => {
                assert(r[0] == (files[0].0, files[0].1.push(fix)));
                assert(r.skip(1) =~= files.skip(1));
                lemma_pushed(files[0].1, fix, g);
            },
            Rank::More => {
                assert(r[0] == (path, one));
                assert(r.skip(1) =~= files);
            },
        }
        lemma_has_first(r, other, g);
    }
}

/// Sorting the fixes of each file keeps them all.
pub proof fn law_sorting_keeps(
    files: Seq<(Seq<char>, Seq<FixV>)>,
    path: Seq<char>,
    fix: FixV,
)
    ensures
        has_fix(sorted_files(files), path, fix) == has_fix(files, path, fix),
{
    let after = sorted_files(files);
    assert forall|k: int| 0 <= k < files.len() implies (#[trigger] after[k]).0 == files[k].0
        && after[k].1.contains(fix) == files[k].1.contains(fix) by {
        let fixes = files[k].1;
        law_by_falling_line(fixes, fixes.len() as int);
        assert(fixes.take(fixes.len() as int) =~= fixes);
        let sorted = by_falling_line(fixes, fixes.len() as int);
        assert(after[k] == (files[k].0, sorted));
        sorted.to_multiset_ensures();
        fixes.to_multiset_ensures();
        assert(sorted.contains(fix) <==> sorted.to_multiset().count(fix) > 0);
        assert(fixes.contains(fix) <==> fixes.to_multiset().count(fix) > 0);
    }
    if has_fix(files, path, fix) {
        let k = choose|k: int|
            0 <= k < files.len() && components((#[trigger] files[k]).0) == components(path)
                && files[k].1.contains(fix);
        assert(after[k].1.contains(fix));
    }
    if has_fix(after, path, fix) {
        let k = choose|k: int|
            0 <= k < after.len() && components((#[trigger] after[k]).0) == components(path)
                && after[k].1.contains(fix);
        assert(files[k].1.contains(fix));
    }
}

/// The strategy of a rule is the one of the last entry for it.
pub proof fn law_last_entry_counts(
    table: Seq<(Seq<char>, StrategyV)>,
    rule_id: Seq<char>,
    k: int,
)
    requires
        0 <= k < table.len(),
        table[k].0 == rule_id,
        forall|j: int| k < j < table.len() ==> (#[trigger] table[j]).0 != rule_id,
    ensures
        strategy_for(table, rule_id) == Some(table[k].1),
    decreases table.len(),
{
    if k < table.len() - 1 {
        assert(table[table.len() - 1].0 != rule_id);
        let front = table.drop_last();
        assert(front[k] == table[k]);
        assert forall|j: int| k < j < front.len() implies (#[trigger] front[j]).0 != rule_id by {
            assert(front[j] == table[j]);
        }
        law_last_entry_counts(front, rule_id, k);
    }
}

/// A rule without an entry has no strategy of its own.
pub proof fn law_no_entry(table: Seq<(Seq<char>, StrategyV)>, rule_id: Seq<char>)
    requires
        forall|j: int| 0 <= j < table.len() ==> (#[trigger] table[j]).0 != rule_id,
    ensures
        strategy_for(table, rule_id) is None,
    decreases table.len(),
{
    if table.len() > 0 {
        assert(table[table.len() - 1].0 != rule_id);
        let front = table.drop_last();
        assert forall|j: int| 0 <= j < front.len() implies (#[trigger] front[j]).0 != rule_id by {
            assert(front[j] == table[j]);
        }
        law_no_entry(front, rule_id);
    }
}

/// Whether a label says that a prop was removed.
pub open spec fn asks_removal(label: Seq<char>) -> bool {
    label == "change-type=prop-removal"@
}

/// Whether a label asks for manual attention.
pub open spec fn asks_attention(label: Seq<char>) -> bool {
    ||| label == "change-type=dom-structure"@
    ||| label == "change-type=behavioral"@
    ||| label == "change-type=accessibility"@
    ||| label == "change-type=interface-removal"@
    ||| label == "change-type=module-export"@
    ||| label == "change-type=other"@
}

proof fn lemma_labels(labels: Seq<Seq<char>>, from: int, k: int)
    requires
        0 <= from <= k < labels.len(),
        forall|j: int|
            from <= j < k ==> !asks_removal(#[trigger] labels[j]) && !asks_attention(labels[j]),
        asks_removal(labels[k]) || asks_attention(labels[k]),
    ensures
        strategy_of_labels(labels, from) == Some(
            if asks_removal(labels[k]) {
                StrategyV::RemoveProp
            } else {
                StrategyV::Manual
            },
        ),
    decreases k - from,
{
    if from < k {
        assert(!asks_removal(labels[from]));
        lemma_labels(labels, from + 1, k);
    }
}

proof fn lemma_no_label(labels: Seq<Seq<char>>, from: int)
    requires
        0 <= from <= labels.len(),
        forall|j: int|
            from <= j < labels.len() ==> !asks_removal(#[trigger] labels[j]) && !asks_attention(
                labels[j],
            ),
    ensures
        strategy_of_labels(labels, from) is None,
    decreases labels.len() - from,
{
    if from < labels.len() {
        assert(!asks_removal(labels[from]));
        lemma_no_label(labels, from + 1);
    }
}

/// A rule without an entry goes by the first of its labels that says anything.
pub proof fn law_label_counts(
    table: Seq<(Seq<char>, StrategyV)>,
    rule_id: Seq<char>,
    labels: Seq<Seq<char>>,
    k: int,
)
    requires
        strategy_for(table, rule_id) is None,
        0 <= k < labels.len(),
        forall|j: int|
            0 <= j < k ==> !asks_removal(#[trigger] labels[j]) && !asks_attention(labels[j]),
        asks_removal(labels[k]) || asks_attention(labels[k]),
    ensures
        chosen_strategy(table, rule_id, labels) == if asks_removal(labels[k]) {
            StrategyV::RemoveProp
        } else {
            StrategyV::Manual
        },
{
    lemma_labels(labels, 0, k);
}

/// A rule without an entry and without a label that says anything is left to the language model.
pub proof fn law_else_language_model(
    table: Seq<(Seq<char>, StrategyV)>,
    rule_id: Seq<char>,
    labels: Seq<Seq<char>>,
)
    requires
        strategy_for(table, rule_id) is None,
        forall|j: int|
            0 <= j < labels.len() ==> !asks_removal(#[trigger] labels[j]) && !asks_attention(
                labels[j],
            ),
    ensures
        chosen_strategy(table, rule_id, labels) is Llm,
{
    lemma_no_label(labels, 0);
}

/// An entry for a rule goes before its labels.
pub proof fn law_entry_counts(
    table: Seq<(Seq<char>, StrategyV)>,
    rule_id: Seq<char>,
    labels: Seq<Seq<char>>,
)
    requires
        strategy_for(table, rule_id) is Some,
    ensures
        chosen_strategy(table, rule_id, labels) == strategy_for(table, rule_id)->0,
{
}

/// What a strategy makes of an incident in a file.
pub open spec fn outcome(
    rule_id: Seq<char>,
    strategy: StrategyV,
    i: IncidentV,
    path: Seq<char>,
    source: Option<Seq<char>>,
) -> Option<Item> {
    let line = if i.line_number is Some {
        i.line_number->0
    } else {
        0
    };
    match strategy {
        StrategyV::Manual => Some(
            Item::Manual(
                ManualV {
                    rule_id,
                    file_uri: i.file_uri,
                    line,
                    message: i.message,
                    code_snip: i.code_snip,
                },
            ),
        ),
        StrategyV::Llm => Some(
            Item::Request(
                RequestV {
                    rule_id,
                    file_uri: i.file_uri,
                    file_path: path,
                    line,
                    message: i.message,
                    code_snip: i.code_snip,
                    source: None,
                },
            ),
        ),
        StrategyV::Rename(ms) => fix_at(path, rename_fix(i, ms, source, rule_id)),
        StrategyV::RemoveProp => fix_at(path, remove_prop_fix(i, source, rule_id)),
        StrategyV::ImportPathChange(from, to) => fix_at(
            path,
            import_path_fix(i, from, to, rule_id),
        ),
        StrategyV::CssVariablePrefix(from, to) => fix_at(
            path,
            rename_fix(i, seq![(from, to)], source, rule_id),
        ),
        StrategyV::UpdateDependency(package, version) => fix_at(
            path,
            update_dependency_fix(i, package, version, source, rule_id),
        ),
    }
}

/// What becomes of an incident. Incidents in `node_modules` are left alone.
pub open spec fn due(
    rule_id: Seq<char>,
    strategy: StrategyV,
    i: IncidentV,
    root: Seq<char>,
    files: Seq<(Seq<char>, Seq<char>)>,
) -> Option<Item> {
    if has_component(path_of_uri(i.file_uri, root), "node_modules"@) {
        None
    } else {
        outcome(
            rule_id,
            strategy,
            i,
            path_of_uri(i.file_uri, root),
            content_of(files, path_of_uri(i.file_uri, root), 0),
        )
    }
}

proof fn lemma_step(
    plan: PlanV,
    rule_id: Seq<char>,
    strategy: StrategyV,
    i: IncidentV,
    path: Seq<char>,
    source: Option<Seq<char>>,
    item: Item,
)
    ensures
        holds(plan_step(plan, rule_id, strategy, i, path, source), item) <==> holds(plan, item) || (
        outcome(rule_id, strategy, i, path, source) is Some && same_item(
            outcome(rule_id, strategy, i, path, source)->0,
            item,
        )),
{
    match outcome(rule_id, strategy, i, path, source) {
        Some(Item::Manual(m)) => {
            if let Item::Manual(x) = item {
                lemma_pushed(plan.manual, m, x);
            }
        },
        Some(Item::Request(r)) => {
            if let Item::Request(x) = item {
                lemma_pushed(plan.pending, r, x);
            }
        },
        Some(Item::Fix(p, f)) => {
            if let Item::Fix(q, g) = item {
                law_insert_fix(plan.files, p, f, q, g);
            }
        },
        None => {},
    }
}

spec fn one_due(
    rule_id: Seq<char>,
    strategy: StrategyV,
    incidents: Seq<IncidentV>,
    n: int,
    root: Seq<char>,
    files: Seq<(Seq<char>, Seq<char>)>,
    item: Item,
) -> bool {
    exists|c: int|
        {
            &&& 0 <= c < n
            &&& due(rule_id, strategy, #[trigger] incidents[c], root, files) is Some
            &&& same_item(due(rule_id, strategy, incidents[c], root, files)->0, item)
        }
}

proof fn lemma_incidents(
    plan: PlanV,
    rule_id: Seq<char>,
    strategy: StrategyV,
    incidents: Seq<IncidentV>,
    n: int,
    root: Seq<char>,
    files: Seq<(Seq<char>, Seq<char>)>,
    item: Item,
)
    requires
        0 <= n <= incidents.len(),
    ensures
        holds(
            plan_incidents(plan, rule_id, strategy, incidents, n, root, files),
            item,
        ) <==> holds(plan, item) || one_due(
            rule_id,
            strategy,
            incidents,
            n,
            root,
            files,
            item,
        ),
    decreases n,
{
    if n > 0 {
        lemma_incidents(plan, rule_id, strategy, incidents, n - 1, root, files, item);
        let before = plan_incidents(plan, rule_id, strategy, incidents, n - 1, root, files);
        let path = path_of_uri(incidents[n - 1].file_uri, root);
        lemma_step(
            before,
            rule_id,
            strategy,
            incidents[n - 1],
            path,
            content_of(files, path, 0),
            item,
        );
        if one_due(rule_id, strategy, incidents, n - 1, root, files, item) {
            let c = choose|c: int|
                {
                    &&& 0 <= c < n - 1
                    &&& due(rule_id, strategy, #[trigger] incidents[c], root, files) is Some
                    &&& same_item(due(rule_id, strategy, incidents[c], root, files)->0, item)
                };
            assert(due(rule_id, strategy, incidents[c], root, files) is Some);
        }
    }
}

/// Whether an incident of a violation is to become an item.
pub open spec fn violation_due(
    violation: (Seq<char>, ViolationV),
    root: Seq<char>,
    table: Seq<(Seq<char>, StrategyV)>,
    files: Seq<(Seq<char>, Seq<char>)>,
    item: Item,
) -> bool {
    let strategy = chosen_strategy(table, violation.0, violation.1.labels);
    exists|c: int|
        {
            &&& 0 <= c < violation.1.incidents.len()
            &&& due(
                violation.0,
                strategy,
                #[trigger] violation.1.incidents[c],
                root,
                files,
            ) is Some
            &&& same_item(
                due(violation.0, strategy, violation.1.incidents[c], root, files)->0,
                item,
            )
        }
}

spec fn some_due(
    violations: Seq<(Seq<char>, ViolationV)>,
    n: int,
    root: Seq<char>,
    table: Seq<(Seq<char>, StrategyV)>,
    files: Seq<(Seq<char>, Seq<char>)>,
    item: Item,
) -> bool {
    exists|b: int|
        0 <= b < n && violation_due(#[trigger] violations[b], root, table, files, item)
}

proof fn lemma_violations(
    plan: PlanV,
    violations: Seq<(Seq<char>, ViolationV)>,
    n: int,
    root: Seq<char>,
    table: Seq<(Seq<char>, StrategyV)>,
    files: Seq<(Seq<char>, Seq<char>)>,
    item: Item,
)
    requires
        0 <= n <= violations.len(),
    ensures
        holds(plan_violations(plan, violations, n, root, table, files), item) <==> holds(
            plan,
            item,
        ) || some_due(violations, n, root, table, files, item),
    decreases n,
{
    if n > 0 {
        lemma_violations(plan, violations, n - 1, root, table, files, item);
        let (rule_id, violation) = violations[n - 1];
        lemma_incidents(
            plan_violations(plan, violations, n - 1, root, table, files),
            rule_id,
            chosen_strategy(table, rule_id, violation.labels),
            violation.incidents,
            violation.incidents.len() as int,
            root,
            files,
            item,
        );
        assert(one_due(
            rule_id,
            chosen_strategy(table, rule_id, violation.labels),
            violation.incidents,
            violation.incidents.len() as int,
            root,
            files,
            item,
        ) == violation_due(violations[n - 1], root, table, files, item));
        if some_due(violations, n - 1, root, table, files, item) {
            let b = choose|b: int|
                0 <= b < n - 1 && violation_due(
                    #[trigger] violations[b],
                    root,
                    table, files,
                    item,
                );
            assert(violation_due(violations[b], root, table, files, item));
        }
    }
}

spec fn set_due(
    output: Seq<Seq<(Seq<char>, ViolationV)>>,
    n: int,
    root: Seq<char>,
    table: Seq<(Seq<char>, StrategyV)>,
    files: Seq<(Seq<char>, Seq<char>)>,
    item: Item,
) -> bool {
    exists|a: int|
        0 <= a < n && some_due(
            #[trigger] output[a],
            output[a].len() as int,
            root,
            table, files,
            item,
        )
}

proof fn lemma_rulesets(
    output: Seq<Seq<(Seq<char>, ViolationV)>>,
    n: int,
    root: Seq<char>,
    table: Seq<(Seq<char>, StrategyV)>,
    files: Seq<(Seq<char>, Seq<char>)>,
    item: Item,
)
    requires
        0 <= n <= output.len(),
    ensures
        holds(plan_rulesets(output, n, root, table, files), item) <==> set_due(
            output,
            n,
            root,
            table, files,
            item,
        ),
    decreases n,
{
    if n > 0 {
        lemma_rulesets(output, n - 1, root, table, files, item);
        lemma_violations(
            plan_rulesets(output, n - 1, root, table, files),
            output[n - 1],
            output[n - 1].len() as int,
            root,
            table, files,
            item,
        );
        if set_due(output, n - 1, root, table, files, item) {
            let a = choose|a: int|
                0 <= a < n - 1 && some_due(
                    #[trigger] output[a],
                    output[a].len() as int,
                    root,
                    table, files,
                    item,
                );
            assert(some_due(output[a], output[a].len() as int, root, table, files, item));
        }
    }
}

/// A plan holds what becomes of each incident, by the strategy for its rule, and nothing else.
pub proof fn law_plan_holds(
    output: Seq<Seq<(Seq<char>, ViolationV)>>,
    root: Seq<char>,
    table: Seq<(Seq<char>, StrategyV)>,
    files: Seq<(Seq<char>, Seq<char>)>,
    item: Item,
)
    ensures
        holds(planned(output, root, table, files), item) <==> exists|a: int, b: int|
            0 <= a < output.len() && 0 <= b < output[a].len() && violation_due(
                #[trigger] output[a][b],
                root,
                table, files,
                item,
            ),
{
    let n = output.len() as int;
    let plan = plan_rulesets(output, n, root, table, files);
    lemma_rulesets(output, n, root, table, files, item);
    if let Item::Fix(path, fix) = item {
        law_sorting_keeps(plan.files, path, fix);
    }
    if set_due(output, n, root, table, files, item) {
        let a = choose|a: int|
            0 <= a < n && some_due(
                #[trigger] output[a],
                output[a].len() as int,
                root,
                table, files,
                item,
            );
        let b = choose|b: int|
            0 <= b < output[a].len() && violation_due(
                #[trigger] output[a][b],
                root,
                table, files,
                item,
            );
        assert(violation_due(output[a][b], root, table, files, item));
    }
    if exists|a: int, b: int|
        0 <= a < output.len() && 0 <= b < output[a].len() && violation_due(
            #[trigger] output[a][b],
            root,
            table, files,
            item,
        ) {
        let (a, b) = choose|a: int, b: int|
            0 <= a < output.len() && 0 <= b < output[a].len() && violation_due(
                #[trigger] output[a][b],
                root,
                table, files,
                item,
            );
        assert(violation_due(output[a][b], root, table, files, item));
        assert(some_due(output[a], output[a].len() as int, root, table, files, item));
    }
}

} // verus!
