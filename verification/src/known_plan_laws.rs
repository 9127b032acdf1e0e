//! What a fix plan by the known strategies holds: what becomes of each incident, and nothing else.

use crate::engine::{content_of, path_of_uri};
use crate::fix::{strategy_for, ManualV, PlanV, RequestV, StrategyV};
use crate::fix_engine::{
    chosen_strategy, known_strategies, plan_incidents, plan_rulesets, plan_step, plan_violations,
    planned, remove_prop_fix, strategy_of_labels,
};
use crate::fixers::{import_path_fix, rename_fix};
use crate::incident::IncidentV;
use crate::plan_laws::{
    fix_at, holds, law_insert_fix, law_sorting_keeps, lemma_pushed, same_item, Item,
};
use crate::report::ViolationV;
use vstd::prelude::*;

verus! {

/// Whether a label says that a prop was removed.
pub open spec fn asks_removal(label: Seq<char>) -> bool {
    label == "change-type=prop-removal"@
}

/// Whether a label asks for manual attention.
pub open spec fn asks_attention(label: Seq<char>) -> bool {
    ||| label == "change-type=dom-structure"@
    ||| label == "change-type=behavioral"@
    ||| label == "change-type=accessibility"@
}

proof fn lemma_labels(labels: Seq<Seq<char>>, from: int, k: int)
    requires
        0 <= from <= k < labels.len(),
        forall|j: int|
            from <= j < k ==> !asks_removal(#[trigger] labels[j]) && !asks_attention(labels[j]),
        asks_removal(labels[k]) || asks_attention(labels[k]),
    ensures
        strategy_of_labels(labels, from) == Some(
            if asks_removal(labels[k]) {
                StrategyV::RemoveProp
            } else {
                StrategyV::Manual
            },
        ),
    decreases k - from,
{
    if from < k {
        assert(!asks_removal(labels[from]));
        lemma_labels(labels, from + 1, k);
    }
}

proof fn lemma_no_label(labels: Seq<Seq<char>>, from: int)
    requires
        0 <= from <= labels.len(),
        forall|j: int|
            from <= j < labels.len() ==> !asks_removal(#[trigger] labels[j]) && !asks_attention(
                labels[j],
            ),
    ensures
        strategy_of_labels(labels, from) is None,
    decreases labels.len() - from,
{
    if from < labels.len() {
        assert(!asks_removal(labels[from]));
        lemma_no_label(labels, from + 1);
    }
}

/// A rule without an entry goes by the first of its labels that says anything.
pub proof fn law_label_counts(
    rule_id: Seq<char>,
    labels: Seq<Seq<char>>,
    k: int,
)
    requires
        strategy_for(known_strategies(), rule_id) is None,
        0 <= k < labels.len(),
        forall|j: int|
            0 <= j < k ==> !asks_removal(#[trigger] labels[j]) && !asks_attention(labels[j]),
        asks_removal(labels[k]) || asks_attention(labels[k]),
    ensures
        chosen_strategy(rule_id, labels) == if asks_removal(labels[k]) {
            StrategyV::RemoveProp
        } else {
            StrategyV::Manual
        },
{
    lemma_labels(labels, 0, k);
}

/// A rule without an entry and without a label that says anything is left to the language model.
pub proof fn law_else_language_model(
    rule_id: Seq<char>,
    labels: Seq<Seq<char>>,
)
    requires
        strategy_for(known_strategies(), rule_id) is None,
        forall|j: int|
            0 <= j < labels.len() ==> !asks_removal(#[trigger] labels[j]) && !asks_attention(
                labels[j],
            ),
    ensures
        chosen_strategy(rule_id, labels) is Llm,
{
    lemma_no_label(labels, 0);
}

/// An entry for a rule goes before its labels.
pub proof fn law_entry_counts(
    rule_id: Seq<char>,
    labels: Seq<Seq<char>>,
)
    requires
        strategy_for(known_strategies(), rule_id) is Some,
    ensures
        chosen_strategy(rule_id, labels) == strategy_for(known_strategies(), rule_id)->0,
{
}

/// What a strategy makes of an incident in a file.
pub open spec fn outcome(
    rule_id: Seq<char>,
    strategy: StrategyV,
    i: IncidentV,
    path: Seq<char>,
    source: Option<Seq<char>>,
) -> Option<Item> {
    let line = if i.line_number is Some {
        i.line_number->0
    } else {
        0
    };
    match strategy {
        StrategyV::Manual => Some(
            Item::Manual(
                ManualV {
                    rule_id,
                    file_uri: i.file_uri,
                    line,
                    message: i.message,
                    code_snip: i.code_snip,
                },
            ),
        ),
        StrategyV::Llm => Some(
            Item::Request(
                RequestV {
                    rule_id,
                    file_uri: i.file_uri,
                    file_path: path,
                    line,
                    message: i.message,
                    code_snip: i.code_snip,
                    source: None,
                },
            ),
        ),
        StrategyV::Rename(ms) => fix_at(path, rename_fix(i, ms, source, rule_id)),
        StrategyV::RemoveProp => fix_at(path, remove_prop_fix(i, source, rule_id)),
        StrategyV::ImportPathChange(from, to) => fix_at(
            path,
            import_path_fix(i, from, to, rule_id),
        ),
        _ => None,
    }
}

/// What becomes of an incident. None is left alone.
pub open spec fn due(
    rule_id: Seq<char>,
    strategy: StrategyV,
    i: IncidentV,
    root: Seq<char>,
    files: Seq<(Seq<char>, Seq<char>)>,
) -> Option<Item> {
    outcome(
        rule_id,
        strategy,
        i,
        path_of_uri(i.file_uri, root),
        content_of(files, path_of_uri(i.file_uri, root), 0),
    )
}

proof fn lemma_step(
    plan: PlanV,
    rule_id: Seq<char>,
    strategy: StrategyV,
    i: IncidentV,
    path: Seq<char>,
    source: Option<Seq<char>>,
    item: Item,
)
    ensures
        holds(plan_step(plan, rule_id, strategy, i, path, source), item) <==> holds(plan, item) || (
        outcome(rule_id, strategy, i, path, source) is Some && same_item(
            outcome(rule_id, strategy, i, path, source)->0,
            item,
        )),
{
    match outcome(rule_id, strategy, i, path, source) {
        Some(Item::Manual(m)) => {
            if let Item::Manual(x) = item {
                lemma_pushed(plan.manual, m, x);
            }
        },
        Some(Item::Request(r)) => {
            if let Item::Request(x) = item {
                lemma_pushed(plan.pending, r, x);
            }
        },
        Some(Item::Fix(p, f)) => {
            if let Item::Fix(q, g) = item {
                law_insert_fix(plan.files, p, f, q, g);
            }
        },
        None => {},
    }
}

spec fn one_due(
    rule_id: Seq<char>,
    strategy: StrategyV,
    incidents: Seq<IncidentV>,
    n: int,
    root: Seq<char>,
    files: Seq<(Seq<char>, Seq<char>)>,
    item: Item,
) -> bool {
    exists|c: int|
        {
            &&& 0 <= c < n
            &&& due(rule_id, strategy, #[trigger] incidents[c], root, files) is Some
            &&& same_item(due(rule_id, strategy, incidents[c], root, files)->0, item)
        }
}

proof fn lemma_incidents(
    plan: PlanV,
    rule_id: Seq<char>,
    strategy: StrategyV,
    incidents: Seq<IncidentV>,
    n: int,
    root: Seq<char>,
    files: Seq<(Seq<char>, Seq<char>)>,
    item: Item,
)
    requires
        0 <= n <= incidents.len(),
    ensures
        holds(
            plan_incidents(plan, rule_id, strategy, incidents, n, root, files),
            item,
        ) <==> holds(plan, item) || one_due(
            rule_id,
            strategy,
            incidents,
            n,
            root,
            files,
            item,
        ),
    decreases n,
{
    if n > 0 {
        lemma_incidents(plan, rule_id, strategy, incidents, n - 1, root, files, item);
        let before = plan_incidents(plan, rule_id, strategy, incidents, n - 1, root, files);
        let path = path_of_uri(incidents[n - 1].file_uri, root);
        lemma_step(
            before,
            rule_id,
            strategy,
            incidents[n - 1],
            path,
            content_of(files, path, 0),
            item,
        );
        if one_due(rule_id, strategy, incidents, n - 1, root, files, item) {
            let c = choose|c: int|
                {
                    &&& 0 <= c < n - 1
                    &&& due(rule_id, strategy, #[trigger] incidents[c], root, files) is Some
                    &&& same_item(due(rule_id, strategy, incidents[c], root, files)->0, item)
                };
            assert(due(rule_id, strategy, incidents[c], root, files) is Some);
        }
    }
}

/// Whether an incident of a violation is to become an item.
pub open spec fn violation_due(
    violation: (Seq<char>, ViolationV),
    root: Seq<char>,
    files: Seq<(Seq<char>, Seq<char>)>,
    item: Item,
) -> bool {
    let strategy = chosen_strategy(violation.0, violation.1.labels);
    exists|c: int|
        {
            &&& 0 <= c < violation.1.incidents.len()
            &&& due(
                violation.0,
                strategy,
                #[trigger] violation.1.incidents[c],
                root,
                files,
            ) is Some
            &&& same_item(
                due(violation.0, strategy, violation.1.incidents[c], root, files)->0,
                item,
            )
        }
}

spec fn some_due(
    violations: Seq<(Seq<char>, ViolationV)>,
    n: int,
    root: Seq<char>,
    files: Seq<(Seq<char>, Seq<char>)>,
    item: Item,
) -> bool {
    exists|b: int|
        0 <= b < n && violation_due(#[trigger] violations[b], root, files, item)
}

proof fn lemma_violations(
    plan: PlanV,
    violations: Seq<(Seq<char>, ViolationV)>,
    n: int,
    root: Seq<char>,
    files: Seq<(Seq<char>, Seq<char>)>,
    item: Item,
)
    requires
        0 <= n <= violations.len(),
    ensures
        holds(plan_violations(plan, violations, n, root, files), item) <==> holds(
            plan,
            item,
        ) || some_due(violations, n, root, files, item),
    decreases n,
{
    if n > 0 {
        lemma_violations(plan, violations, n - 1, root, files, item);
        let (rule_id, violation) = violations[n - 1];
        lemma_incidents(
            plan_violations(plan, violations, n - 1, root, files),
            rule_id,
            chosen_strategy(rule_id, violation.labels),
            violation.incidents,
            violation.incidents.len() as int,
            root,
            files,
            item,
        );
        assert(one_due(
            rule_id,
            chosen_strategy(rule_id, violation.labels),
            violation.incidents,
            violation.incidents.len() as int,
            root,
            files,
            item,
        ) == violation_due(violations[n - 1], root, files, item));
        if some_due(violations, n - 1, root, files, item) {
            let b = choose|b: int|
                0 <= b < n - 1 && violation_due(
                    #[trigger] violations[b],
                    root,
                    files,
                    item,
                );
            assert(violation_due(violations[b], root, files, item));
        }
    }
}

spec fn set_due(
    output: Seq<Seq<(Seq<char>, ViolationV)>>,
    n: int,
    root: Seq<char>,
    files: Seq<(Seq<char>, Seq<char>)>,
    item: Item,
) -> bool {
    exists|a: int|
        0 <= a < n && some_due(
            #[trigger] output[a],
            output[a].len() as int,
            root,
            files,
            item,
        )
}

proof fn lemma_rulesets(
    output: Seq<Seq<(Seq<char>, ViolationV)>>,
    n: int,
    root: Seq<char>,
    files: Seq<(Seq<char>, Seq<char>)>,
    item: Item,
)
    requires
        0 <= n <= output.len(),
    ensures
        holds(plan_rulesets(output, n, root, files), item) <==> set_due(
            output,
            n,
            root,
            files,
            item,
        ),
    decreases n,
{
    if n > 0 {
        lemma_rulesets(output, n - 1, root, files, item);
        lemma_violations(
            plan_rulesets(output, n - 1, root, files),
            output[n - 1],
            output[n - 1].len() as int,
            root,
            files,
            item,
        );
        if set_due(output, n - 1, root, files, item) {
            let a = choose|a: int|
                0 <= a < n - 1 && some_due(
                    #[trigger] output[a],
                    output[a].len() as int,
                    root,
                    files,
                    item,
                );
            assert(some_due(output[a], output[a].len() as int, root, files, item));
        }
    }
}

/// A plan holds what becomes of each incident, by the strategy for its rule, and nothing else.
pub proof fn law_plan_holds(
    output: Seq<Seq<(Seq<char>, ViolationV)>>,
    root: Seq<char>,
    files: Seq<(Seq<char>, Seq<char>)>,
    item: Item,
)
    ensures
        holds(planned(output, root, files), item) <==> exists|a: int, b: int|
            0 <= a < output.len() && 0 <= b < output[a].len() && violation_due(
                #[trigger] output[a][b],
                root,
                files,
                item,
            ),
{
    let n = output.len() as int;
    let plan = plan_rulesets(output, n, root, files);
    lemma_rulesets(output, n, root, files, item);
    if let Item::Fix(path, fix) = item {
        law_sorting_keeps(plan.files, path, fix);
    }
    if set_due(output, n, root, files, item) {
        let a = choose|a: int|
            0 <= a < n && some_due(
                #[trigger] output[a],
                output[a].len() as int,
                root,
                files,
                item,
            );
        let b = choose|b: int|
            0 <= b < output[a].len() && violation_due(
                #[trigger] output[a][b],
                root,
                files,
                item,
            );
        assert(violation_due(output[a][b], root, files, item));
    }
    if exists|a: int, b: int|
        0 <= a < output.len() && 0 <= b < output[a].len() && violation_due(
            #[trigger] output[a][b],
            root,
            files,
            item,
        ) {
        let (a, b) = choose|a: int, b: int|
            0 <= a < output.len() && 0 <= b < output[a].len() && violation_due(
                #[trigger] output[a][b],
                root,
                files,
                item,
            );
        assert(violation_due(output[a][b], root, files, item));
        assert(some_due(output[a], output[a].len() as int, root, files, item));
    }
}

} // verus!
