//! Fix generation by the goose agent: prompts, batching, and what follows from its replies.
//!
//! The agent itself is run elsewhere. Here stands what it is asked, in which order, how often,
//! and what its replies come to.

use crate::fix::{request_models, LlmFixRequest, RequestV};
use crate::incident::opt_view;
use crate::paths::{law_path_rank, law_path_rank_transitive, path_rank, rank_paths};
use crate::text::{
    concat, concat3, contains, decimal, has_text, join, join_texts, lines, lines_of, rank_texts,
    show_number, text_rank, texts, Rank,
};
use vstd::prelude::*;

verus! {

/// The most fixes that one run is asked for.
pub const MAX_FIXES_PER_BATCH: usize = 8;

/// What the agent must keep to.
pub const CONSTRAINTS: &'static str = "IMPORTANT constraints:\n- NEVER use deep import paths like '@patternfly/react-core/dist/esm/...' or '@patternfly/react-core/next'. Always use the public barrel import '@patternfly/react-core'.\n- NEVER replace PatternFly components (Button, MenuToggle, etc.) with raw HTML elements (<button>, <a>, <div>). If a component still exists in PF6, keep using it.\n- NEVER remove data-ouia-component-id, ouiaId, or other test identifier props unless the migration rule specifically says to.\n- NEVER invent or use component names that are not mentioned in the migration rules or already imported in the file. Only use components explicitly named in the rule message.\n- When adding new components (ModalHeader, ModalBody, ModalFooter, etc.), import them from the same package as the parent component.\n- If the migration rule says a component was \"restructured\" or \"still exists\", keep the component and only restructure its props/children as described. If the rule says a component was \"removed\" and tells you to remove the import, DO remove it and migrate to the replacement described in the rule.\n- When a prop migration says to pass a prop to a child component (e.g., 'actions → pass as children of <ModalFooter>'), you MUST create that child component element, import it, and render the prop value within it.";

/// How the prompt for a single fix ends.
pub const SINGLE_END: &'static str = "\n\nDo not explain what you're doing. Just read the file, make the edit, and write it.";

/// How the prompt for several fixes ends.
pub const BATCH_END: &'static str = "\n\nDo not explain what you're doing. Just read the file, make the edits, and write it.";

/// What requests hold.
pub open spec fn ref_models(s: Seq<&LlmFixRequest>) -> Seq<RequestV> {
    s.map_values(|r: &LlmFixRequest| (*r)@)
}

/// A text, or another where it is absent.
pub open spec fn text_or(s: Option<Seq<char>>, other: Seq<char>) -> Seq<char> {
    match s {
        Some(x) => x,
        None => other,
    }
}

fn or_text<'a>(s: &'a Option<String>, other: &'a str) -> (r: &'a str)
    ensures
        r@ == text_or(opt_view(*s), other@),
{
    match s {
        Some(x) => x.as_str(),
        None => other,
    }
}

/// The prompt for a single fix.
pub open spec fn single_prompt(r: RequestV) -> Seq<char> {
    let line = decimal(r.line as nat);
    "You are applying a PatternFly v5 to v6 migration fix.\n\nFile: "@ + r.file_path + "\nLine: "@
        + line + "\n\nMigration rule ["@ + r.rule_id + "]:\n"@ + r.message
        + "\n\nCode context around line "@ + line + ":\n```\n"@ + text_or(
        r.code_snip,
        "(no code snippet available)"@,
    ) + "\n```\n\nInstructions:\n1. Read the file at "@ + r.file_path
        + "\n2. Apply ONLY the change described by the migration rule at or near line "@ + line
        + "\n3. Make the minimum edit necessary — do not change unrelated code\n4. Write the fixed file\n\n"@
        + CONSTRAINTS@ + SINGLE_END@
}

/// The prompt for a single fix.
pub fn build_prompt(request: &LlmFixRequest) -> (out: String)
    ensures
        out@ == single_prompt(request@),
{
    let line = show_number(request.line as u64);
    let mut out = "You are applying a PatternFly v5 to v6 migration fix.\n\nFile: ".to_owned();
    out.append(request.file_path.as_str());
    out.append("\nLine: ");
    out.append(line.as_str());
    out.append("\n\nMigration rule [");
    out.append(request.rule_id.as_str());
    out.append("]:\n");
    out.append(request.message.as_str());
    out.append("\n\nCode context around line ");
    out.append(line.as_str());
    out.append(":\n```\n");
    out.append(or_text(&request.code_snip, "(no code snippet available)"));
    out.append("\n```\n\nInstructions:\n1. Read the file at ");
    out.append(request.file_path.as_str());
    out.append("\n2. Apply ONLY the change described by the migration rule at or near line ");
    out.append(line.as_str());
    out.append(
        "\n3. Make the minimum edit necessary — do not change unrelated code\n4. Write the fixed file\n\n",
    );
    out.append(CONSTRAINTS);
    out.append(SINGLE_END);
    out
}

/// Requests by rule, in the order of the rule IDs, with one more.
pub open spec fn insert_by_rule(
    groups: Seq<(Seq<char>, Seq<RequestV>)>,
    r: RequestV,
) -> Seq<(Seq<char>, Seq<RequestV>)>
    decreases groups.len(),
{
    if groups.len() == 0 {
        seq![(r.rule_id, seq![r])]
    } else {
        match text_rank(groups[0].0, r.rule_id) {
            Rank::Less => seq![groups[0]] + insert_by_rule(groups.skip(1), r),
            Rank::Same => groups.update(0, (groups[0].0, groups[0].1.push(r))),
            Rank::More => seq![(r.rule_id, seq![r])] + groups,
        }
    }
}

/// The first `n` requests by rule.
pub open spec fn by_rule(requests: Seq<RequestV>, n: int) -> Seq<(Seq<char>, Seq<RequestV>)>
    decreases n,
{
    if n <= 0 || n > requests.len() {
        Seq::empty()
    } else {
        insert_by_rule(by_rule(requests, n - 1), requests[n - 1])
    }
}

/// Requests by file, in the order of the paths, with one more.
pub open spec fn insert_by_file(
    groups: Seq<(Seq<char>, Seq<RequestV>)>,
    r: RequestV,
) -> Seq<(Seq<char>, Seq<RequestV>)>
    decreases groups.len(),
{
    if groups.len() == 0 {
        seq![(r.file_path, seq![r])]
    } else {
        match path_rank(groups[0].0, r.file_path) {
            Rank::Less => seq![groups[0]] + insert_by_file(groups.skip(1), r),
            Rank::Same => groups.update(0, (groups[0].0, groups[0].1.push(r))),
            Rank::More => seq![(r.file_path, seq![r])] + groups,
        }
    }
}

/// The first `n` requests by file.
pub open spec fn by_file(requests: Seq<RequestV>, n: int) -> Seq<(Seq<char>, Seq<RequestV>)>
    decreases n,
{
    if n <= 0 || n > requests.len() {
        Seq::empty()
    } else {
        insert_by_file(by_file(requests, n - 1), requests[n - 1])
    }
}

/// How many requests there are in groups.
pub open spec fn group_total(groups: Seq<(Seq<char>, Seq<RequestV>)>) -> nat
    decreases groups.len(),
{
    if groups.len() == 0 {
        0
    } else {
        groups[0].1.len() + group_total(groups.skip(1))
    }
}

proof fn lemma_insert_by_file_total(groups: Seq<(Seq<char>, Seq<RequestV>)>, r: RequestV)
    ensures
        group_total(insert_by_file(groups, r)) == group_total(groups) + 1,
    decreases groups.len(),
{
    let now = insert_by_file(groups, r);
    if groups.len() == 0 {
        assert(now.skip(1) =~= Seq::empty());
        assert(group_total(now.skip(1)) == 0);
    } else {
        match path_rank(groups[0].0, r.file_path) {
            Rank::Less => {
                lemma_insert_by_file_total(groups.skip(1), r);
                assert(now.skip(1) =~= insert_by_file(groups.skip(1), r));
            },
            Rank::Same => {
                assert(now.skip(1) =~= groups.skip(1));
            },
            Rank::More => {
                assert(now.skip(1) =~= groups);
            },
        }
    }
}

/// Grouping by file loses no request and adds none.
pub proof fn law_by_file_total(requests: Seq<RequestV>, n: int)
    requires
        0 <= n <= requests.len(),
    ensures
        group_total(by_file(requests, n)) == n,
    decreases n,
{
    if n > 0 {
        law_by_file_total(requests, n - 1);
        lemma_insert_by_file_total(by_file(requests, n - 1), requests[n - 1]);
    }
}

/// Whether groups stand in the order of their paths, no path twice.
pub open spec fn groups_in_order(groups: Seq<(Seq<char>, Seq<RequestV>)>) -> bool {
    forall|i: int, j: int|
        0 <= i < j < groups.len() ==> path_rank(
            (#[trigger] groups[i]).0,
            (#[trigger] groups[j]).0,
        ) is Less
}

/// Whether one of some groups is that of a path.
pub open spec fn groups_list(groups: Seq<(Seq<char>, Seq<RequestV>)>, path: Seq<char>) -> bool {
    exists|i: int| 0 <= i < groups.len() && path_rank((#[trigger] groups[i]).0, path) is Same
}

/// Whether the requests of each group are for its path.
pub open spec fn groups_hold_own(groups: Seq<(Seq<char>, Seq<RequestV>)>) -> bool {
    forall|i: int, k: int|
        #![trigger groups[i].1[k]]
        0 <= i < groups.len() && 0 <= k < groups[i].1.len() ==> path_rank(
            groups[i].0,
            groups[i].1[k].file_path,
        ) is Same
}

/// Groups stay in order when a request is added, and each path is one that there was or that of
/// the request.
proof fn lemma_insert_by_file_order(groups: Seq<(Seq<char>, Seq<RequestV>)>, r: RequestV)
    requires
        groups_in_order(groups),
    ensures
        groups_in_order(insert_by_file(groups, r)),
        forall|i: int|
            0 <= i < insert_by_file(groups, r).len() ==> (#[trigger] insert_by_file(groups, r)[i]).0
                == r.file_path || exists|k: int|
                0 <= k < groups.len() && (#[trigger] groups[k]).0 == insert_by_file(groups, r)[i].0,
    decreases groups.len(),
{
    let now = insert_by_file(groups, r);
    if groups.len() > 0 {
        let head = groups[0];
        law_path_rank(r.file_path, head.0);
        match path_rank(head.0, r.file_path) {
            Rank::Less => {
                let tail = groups.skip(1);
                assert forall|i: int, j: int| 0 <= i < j < tail.len() implies path_rank(
                    (#[trigger] tail[i]).0,
                    (#[trigger] tail[j]).0,
                ) is Less by {
                    assert(tail[i] == groups[i + 1] && tail[j] == groups[j + 1]);
                }
                lemma_insert_by_file_order(tail, r);
                let rest = insert_by_file(tail, r);
                assert forall|i: int| 0 <= i < rest.len() implies path_rank(
                    head.0,
                    (#[trigger] rest[i]).0,
                ) is Less && (rest[i].0 == r.file_path || exists|k: int|
                    0 <= k < groups.len() && (#[trigger] groups[k]).0 == rest[i].0) by {
                    if rest[i].0 != r.file_path {
                        let k = choose|k: int|
                            0 <= k < tail.len() && (#[trigger] tail[k]).0 == rest[i].0;
                        assert(tail[k] == groups[k + 1]);
                        assert(path_rank(groups[0].0, groups[k + 1].0) is Less);
                    }
                }
                assert forall|i: int| 0 <= i < now.len() implies (#[trigger] now[i]) == if i == 0 {
                    head
                } else {
                    rest[i - 1]
                } by {}
            },
            Rank::Same => {
                assert forall|i: int| 0 <= i < now.len() implies (#[trigger] now[i]).0
                    == groups[i].0 by {}
            },
            Rank::More => {
                assert forall|i: int| 0 <= i < now.len() implies (#[trigger] now[i]) == if i == 0 {
                    (r.file_path, seq![r])
                } else {
                    groups[i - 1]
                } by {}
                assert forall|j: int| 0 <= j < groups.len() implies path_rank(
                    r.file_path,
                    (#[trigger] groups[j]).0,
                ) is Less by {
                    if j > 0 {
                        assert(path_rank(groups[0].0, groups[j].0) is Less);
                        law_path_rank_transitive(r.file_path, head.0, groups[j].0);
                    }
                }
            },
        }
    }
}

/// A group holds requests for its own path only, also when a request is added.
proof fn lemma_insert_by_file_own(groups: Seq<(Seq<char>, Seq<RequestV>)>, r: RequestV)
    requires
        groups_hold_own(groups),
    ensures
        groups_hold_own(insert_by_file(groups, r)),
    decreases groups.len(),
{
    let now = insert_by_file(groups, r);
    law_path_rank(r.file_path, r.file_path);
    if groups.len() > 0 && path_rank(groups[0].0, r.file_path) is Less {
        let tail = groups.skip(1);
        assert forall|i: int, k: int|
            #![trigger tail[i].1[k]]
            0 <= i < tail.len() && 0 <= k < tail[i].1.len() implies path_rank(
            tail[i].0,
            tail[i].1[k].file_path,
        ) is Same by {
            assert(tail[i].1[k] == groups[i + 1].1[k]);
        }
        lemma_insert_by_file_own(tail, r);
        let rest = insert_by_file(tail, r);
        assert forall|i: int, k: int|
            #![trigger now[i].1[k]]
            0 <= i < now.len() && 0 <= k < now[i].1.len() implies path_rank(
            now[i].0,
            now[i].1[k].file_path,
        ) is Same by {
            if i > 0 {
                assert(now[i].1[k] == rest[i - 1].1[k]);
            } else {
                assert(now[i].1[k] == groups[0].1[k]);
            }
        }
    } else {
        assert forall|i: int, k: int|
            #![trigger now[i].1[k]]
            0 <= i < now.len() && 0 <= k < now[i].1.len() implies path_rank(
            now[i].0,
            now[i].1[k].file_path,
        ) is Same by {
            if groups.len() > 0 && path_rank(groups[0].0, r.file_path) is Same {
                if i > 0 || k < groups[0].1.len() {
                    assert(now[i].1[k] == groups[i].1[k]);
                }
            } else if i > 0 {
                assert(now[i].1[k] == groups[i - 1].1[k]);
            }
        }
    }
}

/// A path that groups list is listed when a request is added, and so is that of the request.
proof fn lemma_insert_by_file_lists(
    groups: Seq<(Seq<char>, Seq<RequestV>)>,
    r: RequestV,
    path: Seq<char>,
)
    requires
        groups_list(groups, path) || path == r.file_path,
    ensures
        groups_list(insert_by_file(groups, r), path),
    decreases groups.len(),
{
    let now = insert_by_file(groups, r);
    law_path_rank(r.file_path, r.file_path);
    if groups.len() == 0 {
        assert(path_rank(now[0].0, path) is Same);
    } else {
        let tail = groups.skip(1);
        if path == r.file_path {
            match path_rank(groups[0].0, r.file_path) {
                Rank::Less => {
                    lemma_insert_by_file_lists(tail, r, path);
                    let rest = insert_by_file(tail, r);
                    let i = choose|i: int|
                        0 <= i < rest.len() && path_rank((#[trigger] rest[i]).0, path) is Same;
                    assert(now[i + 1] == rest[i]);
                },
                _ => {
                    assert(path_rank(now[0].0, path) is Same);
                },
            }
        } else {
            let i = choose|i: int|
                0 <= i < groups.len() && path_rank((#[trigger] groups[i]).0, path) is Same;
            match path_rank(groups[0].0, r.file_path) {
                Rank::Less => {
                    if i == 0 {
                        assert(now[0] == groups[0]);
                    } else {
                        assert(tail[i - 1] == groups[i]);
                        lemma_insert_by_file_lists(tail, r, path);
                        let rest = insert_by_file(tail, r);
                        let j = choose|j: int|
                            0 <= j < rest.len() && path_rank((#[trigger] rest[j]).0, path) is Same;
                        assert(now[j + 1] == rest[j]);
                    }
                },
                Rank::Same => {
                    assert(now[i].0 == groups[i].0);
                },
                Rank::More => {
                    assert(now[i + 1] == groups[i]);
                },
            }
        }
    }
}

/// The groups of requests stand in the strictly rising order of their paths, so one for each path;
/// the path of every request is among them, and each holds requests for its own path only.
pub proof fn law_by_file_in_order(requests: Seq<RequestV>, n: int)
    requires
        0 <= n <= requests.len(),
    ensures
        groups_in_order(by_file(requests, n)),
        groups_hold_own(by_file(requests, n)),
        forall|k: int|
            0 <= k < n ==> groups_list(by_file(requests, n), (#[trigger] requests[k]).file_path),
    decreases n,
{
    if n > 0 {
        law_by_file_in_order(requests, n - 1);
        let before = by_file(requests, n - 1);
        lemma_insert_by_file_order(before, requests[n - 1]);
        lemma_insert_by_file_own(before, requests[n - 1]);
        assert forall|k: int| 0 <= k < n implies groups_list(
            by_file(requests, n),
            (#[trigger] requests[k]).file_path,
        ) by {
            if k < n - 1 {
                assert(groups_list(before, requests[k].file_path));
            }
            lemma_insert_by_file_lists(before, requests[n - 1], requests[k].file_path);
        }
    }
}

/// The models of groups.
pub open spec fn group_models(s: Seq<(String, Vec<&LlmFixRequest>)>) -> Seq<
    (Seq<char>, Seq<RequestV>),
> {
    s.map_values(|g: (String, Vec<&LlmFixRequest>)| (g.0@, ref_models(g.1@)))
}

fn single_group<'a>(name: &str, r: &'a LlmFixRequest) -> (out: (String, Vec<&'a LlmFixRequest>))
    ensures
        (out.0@, ref_models(out.1@)) == (name@, seq![r@]),
{
    let mut list: Vec<&'a LlmFixRequest> = Vec::new();
    list.push(r);
    assert(ref_models(list@) =~= seq![r@]);
    (name.to_owned(), list)
}

fn add_by_rule<'a>(groups: &mut Vec<(String, Vec<&'a LlmFixRequest>)>, r: &'a LlmFixRequest)
    ensures
        group_models(final(groups)@) == insert_by_rule(group_models(old(groups)@), r@),
{
    let ghost start = group_models(groups@);
    let n: usize = groups.len();
    let mut i: usize = 0;
    assert(start.skip(0) =~= start);
    assert(start.take(0) + insert_by_rule(start, r@) =~= insert_by_rule(start, r@));
    while i < n
        invariant
            *groups == *old(groups),
            start == group_models(groups@),
            n == groups@.len(),
            i <= n,
            insert_by_rule(start, r@) == start.take(i as int) + insert_by_rule(
                start.skip(i as int),
                r@,
            ),
        decreases n - i,
    {
        assert(start.skip(i as int)[0] == start[i as int]);
        assert(start[i as int].0 == groups@[i as int].0@);
        match rank_texts(groups[i].0.as_str(), r.rule_id.as_str()) {
            Rank::Less => {
                assert(start.skip(i as int).skip(1) =~= start.skip(i + 1));
                assert(start.take(i as int) + (seq![start[i as int]] + insert_by_rule(
                    start.skip(i + 1),
                    r@,
                )) =~= start.take(i + 1) + insert_by_rule(start.skip(i + 1), r@));
                i = i + 1;
            },
            Rank::Same => {
                groups[i].1.push(r);
                assert(ref_models(groups@[i as int].1@) =~= start[i as int].1.push(r@));
                assert(group_models(groups@) =~= start.take(i as int) + insert_by_rule(
                    start.skip(i as int),
                    r@,
                ));
                return;
            },
            Rank::More => {
                groups.insert(i, single_group(r.rule_id.as_str(), r));
                assert(group_models(groups@) =~= start.take(i as int) + insert_by_rule(
                    start.skip(i as int),
                    r@,
                ));
                return;
            },
        }
    }
    groups.push(single_group(r.rule_id.as_str(), r));
    assert(group_models(groups@) =~= start.take(n as int) + insert_by_rule(
        start.skip(n as int),
        r@,
    ));
}

fn add_by_file<'a>(groups: &mut Vec<(String, Vec<&'a LlmFixRequest>)>, r: &'a LlmFixRequest)
    ensures
        group_models(final(groups)@) == insert_by_file(group_models(old(groups)@), r@),
{
    let ghost start = group_models(groups@);
    let n: usize = groups.len();
    let mut i: usize = 0;
    assert(start.skip(0) =~= start);
    assert(start.take(0) + insert_by_file(start, r@) =~= insert_by_file(start, r@));
    while i < n
        invariant
            *groups == *old(groups),
            start == group_models(groups@),
            n == groups@.len(),
            i <= n,
            insert_by_file(start, r@) == start.take(i as int) + insert_by_file(
                start.skip(i as int),
                r@,
            ),
        decreases n - i,
    {
        assert(start.skip(i as int)[0] == start[i as int]);
        assert(start[i as int].0 == groups@[i as int].0@);
        match rank_paths(groups[i].0.as_str(), r.file_path.as_str()) {
            Rank::Less => {
                assert(start.skip(i as int).skip(1) =~= start.skip(i + 1));
                assert(start.take(i as int) + (seq![start[i as int]] + insert_by_file(
                    start.skip(i + 1),
                    r@,
                )) =~= start.take(i + 1) + insert_by_file(start.skip(i + 1), r@));
                i = i + 1;
            },
            Rank::Same => {
                groups[i].1.push(r);
                assert(ref_models(groups@[i as int].1@) =~= start[i as int].1.push(r@));
                assert(group_models(groups@) =~= start.take(i as int) + insert_by_file(
                    start.skip(i as int),
                    r@,
                ));
                return;
            },
            Rank::More => {
                groups.insert(i, single_group(r.file_path.as_str(), r));
                assert(group_models(groups@) =~= start.take(i as int) + insert_by_file(
                    start.skip(i as int),
                    r@,
                ));
                return;
            },
        }
    }
    groups.push(single_group(r.file_path.as_str(), r));
    assert(group_models(groups@) =~= start.take(n as int) + insert_by_file(
        start.skip(n as int),
        r@,
    ));
}

/// The requests by file, in the order of the paths.
pub fn group_by_file<'a>(requests: &'a Vec<LlmFixRequest>) -> (out: Vec<
    (String, Vec<&'a LlmFixRequest>),
>)
    ensures
        group_models(out@) == by_file(request_models(requests@), requests@.len() as int),
{
    let ghost all = request_models(requests@);
    let mut out: Vec<(String, Vec<&'a LlmFixRequest>)> = Vec::new();
    let mut i: usize = 0;
    assert(group_models(out@) =~= by_file(all, 0));
    while i < requests.len()
        invariant
            all == request_models(requests@),
            i <= requests@.len(),
            group_models(out@) == by_file(all, i as int),
        decreases requests.len() - i,
    {
        assert(all[i as int] == requests@[i as int]@);
        add_by_file(&mut out, &requests[i]);
        i = i + 1;
    }
    out
}

/// The lines of the first `n` requests.
pub open spec fn line_list(requests: Seq<RequestV>, n: int) -> Seq<Seq<char>>
    decreases n,
{
    if n <= 0 || n > requests.len() {
        Seq::empty()
    } else {
        line_list(requests, n - 1).push(decimal(requests[n - 1].line as nat))
    }
}

/// The code around the first `n` requests, where they have any.
pub open spec fn snippets(requests: Seq<RequestV>, n: int) -> Seq<char>
    decreases n,
{
    if n <= 0 || n > requests.len() {
        Seq::empty()
    } else {
        match requests[n - 1].code_snip {
            Some(s) => snippets(requests, n - 1) + ("  (line "@ + decimal(
                requests[n - 1].line as nat,
            ) + "):\n"@ + s + "\n"@),
            None => snippets(requests, n - 1),
        }
    }
}

/// What a prompt says of the requests of one rule.
pub open spec fn rule_section(
    number: nat,
    rule_id: Seq<char>,
    requests: Seq<RequestV>,
) -> Seq<char> {
    if requests.len() == 1 {
        "\n### Fix "@ + decimal(number) + "\nLine: "@ + decimal(requests[0].line as nat)
            + "\nRule ["@ + rule_id + "]:\n"@ + requests[0].message + "\n\nCode context:\n```\n"@
            + text_or(requests[0].code_snip, "(no snippet)"@) + "\n```\n"@
    } else {
        "\n### Fix "@ + decimal(number) + "\nLines: "@ + join(
            line_list(requests, requests.len() as int),
            ", "@,
        ) + "\nRule ["@ + rule_id + "]:\n"@ + requests[0].message
            + "\n\nThis rule affects multiple locations in the file. Apply ALL steps together as one logical change.\n\nCode contexts:\n```\n"@
            + snippets(requests, requests.len() as int) + "```\n"@
    }
}

/// What a prompt says of the requests of the first `n` rules.
pub open spec fn rule_sections(groups: Seq<(Seq<char>, Seq<RequestV>)>, n: int) -> Seq<char>
    decreases n,
{
    if n <= 0 || n > groups.len() {
        Seq::empty()
    } else {
        rule_sections(groups, n - 1) + rule_section(n as nat, groups[n - 1].0, groups[n - 1].1)
    }
}

/// What a prompt says of fixes that were applied before.
pub open spec fn context_section(applied: Seq<Seq<char>>) -> Seq<char> {
    if applied.len() == 0 {
        Seq::empty()
    } else {
        "\n## Previously applied fixes (DO NOT revert these):\nThe following fixes were already applied to this file in a previous pass.\nThe file on disk already reflects these changes. Do NOT undo them.\n"@
            + join(applied, "\n"@) + "\n\n"@
    }
}

/// The prompt for several fixes to one file.
pub open spec fn batch_prompt(
    path: Seq<char>,
    requests: Seq<RequestV>,
    applied: Seq<Seq<char>>,
) -> Seq<char> {
    let groups = by_rule(requests, requests.len() as int);
    let count = decimal(groups.len());
    "You are applying PatternFly v5 to v6 migration fixes to a single file.\n\nFile: "@ + path
        + "\n"@ + context_section(applied) + "\nApply ALL of the following "@ + count
        + " fixes to this file:\n"@ + rule_sections(groups, groups.len() as int)
        + "\nInstructions:\n1. Read the file at "@ + path + "\n2. Apply ALL "@ + count
        + " fixes described above\n3. Make the minimum edits necessary — do not change unrelated code\n4. Do NOT revert any changes that were already applied in previous passes\n5. Write the fixed file once with all changes applied\n\n"@
        + CONSTRAINTS@ + BATCH_END@
}

proof fn lemma_by_rule_nonempty(requests: Seq<RequestV>, n: int)
    ensures
        forall|i: int|
            0 <= i < by_rule(requests, n).len() ==> (#[trigger] by_rule(requests, n)[i]).1.len()
                > 0,
    decreases n,
{
    if 0 < n && n <= requests.len() {
        lemma_by_rule_nonempty(requests, n - 1);
        lemma_insert_nonempty(by_rule(requests, n - 1), requests[n - 1]);
    }
}

proof fn lemma_insert_nonempty(groups: Seq<(Seq<char>, Seq<RequestV>)>, r: RequestV)
    requires
        forall|i: int| 0 <= i < groups.len() ==> (#[trigger] groups[i]).1.len() > 0,
    ensures
        forall|i: int|
            0 <= i < insert_by_rule(groups, r).len() ==> (#[trigger] insert_by_rule(
                groups,
                r,
            )[i]).1.len() > 0,
    decreases groups.len(),
{
    let now = insert_by_rule(groups, r);
    if groups.len() > 0 {
        match text_rank(groups[0].0, r.rule_id) {
            Rank::Less => {
                let tail = groups.skip(1);
                assert forall|i: int| 0 <= i < tail.len() implies (#[trigger] tail[i]).1.len() > 0 by {
                    assert(groups[i + 1].1.len() > 0);
                }
                lemma_insert_nonempty(tail, r);
                assert forall|i: int| 0 <= i < now.len() implies (#[trigger] now[i]).1.len() > 0 by {
                    if i > 0 {
                        assert(now[i] == insert_by_rule(tail, r)[i - 1]);
                    } else {
                        assert(now[0] == groups[0]);
                    }
                }
            },
            Rank::Same => {
                assert forall|i: int| 0 <= i < now.len() implies (#[trigger] now[i]).1.len() > 0 by {
                    if i > 0 {
                        assert(now[i] == groups[i]);
                    }
                }
            },
            Rank::More => {
                assert forall|i: int| 0 <= i < now.len() implies (#[trigger] now[i]).1.len() > 0 by {
                    if i > 0 {
                        assert(now[i] == groups[i - 1]);
                    }
                }
            },
        }
    }
}

/// What a prompt says of the requests of one rule.
fn describe_rule(number: u64, rule_id: &str, requests: &Vec<&LlmFixRequest>) -> (out: String)
    requires
        requests@.len() > 0,
    ensures
        out@ == rule_section(number as nat, rule_id@, ref_models(requests@)),
{
    let ghost all = ref_models(requests@);
    assert(all[0] == requests@[0]@);
    let shown = show_number(number);
    let mut out = "\n### Fix ".to_owned();
    out.append(shown.as_str());
    if requests.len() == 1 {
        let req = requests[0];
        let line = show_number(req.line as u64);
        out.append("\nLine: ");
        out.append(line.as_str());
        out.append("\nRule [");
        out.append(rule_id);
        out.append("]:\n");
        out.append(req.message.as_str());
        out.append("\n\nCode context:\n```\n");
        out.append(or_text(&req.code_snip, "(no snippet)"));
        out.append("\n```\n");
        return out;
    }
    let mut numbers: Vec<String> = Vec::new();
    let mut code = String::new();
    let mut i: usize = 0;
    assert(texts(numbers@) =~= line_list(all, 0));
    while i < requests.len()
        invariant
            all == ref_models(requests@),
            i <= requests@.len(),
            texts(numbers@) == line_list(all, i as int),
            code@ == snippets(all, i as int),
        decreases requests.len() - i,
    {
        let req = requests[i];
        assert(all[i as int] == req@);
        let line = show_number(req.line as u64);
        if let Some(snip) = &req.code_snip {
            let mut piece = "  (line ".to_owned();
            piece.append(line.as_str());
            piece.append("):\n");
            piece.append(snip.as_str());
            piece.append("\n");
            code.append(piece.as_str());
        }
        let ghost before = texts(numbers@);
        numbers.push(line);
        assert(texts(numbers@) =~= before.push(line@));
        i = i + 1;
    }
    let joined = join_texts(&numbers, ", ");
    out.append("\nLines: ");
    out.append(joined.as_str());
    out.append("\nRule [");
    out.append(rule_id);
    out.append("]:\n");
    out.append(requests[0].message.as_str());
    out.append(
        "\n\nThis rule affects multiple locations in the file. Apply ALL steps together as one logical change.\n\nCode contexts:\n```\n",
    );
    out.append(code.as_str());
    out.append("```\n");
    out
}

/// What a prompt says of fixes that were applied before.
fn describe_context(applied: &Vec<String>) -> (out: String)
    ensures
        out@ == context_section(texts(applied@)),
{
    assert(texts(applied@).len() == applied@.len());
    if applied.len() == 0 {
        return String::new();
    }
    let joined = join_texts(applied, "\n");
    concat3(
        "\n## Previously applied fixes (DO NOT revert these):\nThe following fixes were already applied to this file in a previous pass.\nThe file on disk already reflects these changes. Do NOT undo them.\n",
        joined.as_str(),
        "\n\n",
    )
}

/// The prompt for several fixes to one file. Requests of one rule are merged into one fix, so
/// that the agent sees all the places that the rule concerns together. `applied` lists what
/// earlier runs have done.
pub fn build_batch_prompt_with_context(
    file_path: &str,
    requests: &Vec<&LlmFixRequest>,
    applied: &Vec<String>,
) -> (out: String)
    ensures
        out@ == batch_prompt(file_path@, ref_models(requests@), texts(applied@)),
{
    let ghost all = ref_models(requests@);
    let mut groups: Vec<(String, Vec<&LlmFixRequest>)> = Vec::new();
    let mut i: usize = 0;
    assert(group_models(groups@) =~= by_rule(all, 0));
    while i < requests.len()
        invariant
            all == ref_models(requests@),
            i <= requests@.len(),
            group_models(groups@) == by_rule(all, i as int),
        decreases requests.len() - i,
    {
        assert(all[i as int] == requests@[i as int]@);
        add_by_rule(&mut groups, requests[i]);
        i = i + 1;
    }
    let ghost gs = by_rule(all, all.len() as int);
    proof {
        lemma_by_rule_nonempty(all, all.len() as int);
    }
    let mut fixes = String::new();
    let mut k: usize = 0;
    while k < groups.len()
        invariant
            gs == group_models(groups@),
            forall|j: int| 0 <= j < gs.len() ==> (#[trigger] gs[j]).1.len() > 0,
            k <= groups@.len(),
            fixes@ == rule_sections(gs, k as int),
        decreases groups.len() - k,
    {
        assert(gs[k as int] == (groups@[k as int].0@, ref_models(groups@[k as int].1@)));
        let section = describe_rule(k as u64 + 1, groups[k].0.as_str(), &groups[k].1);
        fixes.append(section.as_str());
        k = k + 1;
    }
    assert(gs.len() == groups@.len());
    let count = show_number(groups.len() as u64);
    let context = describe_context(applied);
    let mut out =
        "You are applying PatternFly v5 to v6 migration fixes to a single file.\n\nFile: ".to_owned();
    out.append(file_path);
    out.append("\n");
    out.append(context.as_str());
    out.append("\nApply ALL of the following ");
    out.append(count.as_str());
    out.append(" fixes to this file:\n");
    out.append(fixes.as_str());
    out.append("\nInstructions:\n1. Read the file at ");
    out.append(file_path);
    out.append("\n2. Apply ALL ");
    out.append(count.as_str());
    out.append(
        " fixes described above\n3. Make the minimum edits necessary — do not change unrelated code\n4. Do NOT revert any changes that were already applied in previous passes\n5. Write the fixed file once with all changes applied\n\n",
    );
    out.append(CONSTRAINTS);
    out.append(BATCH_END);
    out
}

/// The prompt for several fixes to one file.
pub fn build_batch_prompt(file_path: &str, requests: &Vec<&LlmFixRequest>) -> (out: String)
    ensures
        out@ == batch_prompt(file_path@, ref_models(requests@), Seq::empty()),
{
    let none: Vec<String> = Vec::new();
    assert(texts(none@) =~= Seq::<Seq<char>>::empty());
    build_batch_prompt_with_context(file_path, requests, &none)
}

/// Result of a goose fix attempt.
#[derive(Debug)]
pub struct GooseFixResult {
    pub file_path: String,
    pub rule_id: String,
    pub success: bool,
    pub output: String,
}

/// What a result holds.
pub ghost struct ResultV {
    pub file_path: Seq<char>,
    pub rule_id: Seq<char>,
    pub success: bool,
    pub output: Seq<char>,
}

impl View for GooseFixResult {
    type V = ResultV;

    open spec fn view(&self) -> ResultV {
        ResultV {
            file_path: self.file_path@,
            rule_id: self.rule_id@,
            success: self.success,
            output: self.output@,
        }
    }
}

/// What a run of the agent gave: whether it succeeded and what it printed, or the reason why it
/// did not come to an end.
#[derive(Debug)]
pub enum Reply {
    Finished(bool, String),
    Failed(String),
}

/// What a reply holds.
pub ghost enum ReplyV {
    Finished(bool, Seq<char>),
    Failed(Seq<char>),
}

impl View for Reply {
    type V = ReplyV;

    open spec fn view(&self) -> ReplyV {
        match self {
            Reply::Finished(success, output) => ReplyV::Finished(*success, output@),
            Reply::Failed(message) => ReplyV::Failed(message@),
        }
    }
}

/// What the work on a file is at.
#[derive(Debug, Clone, Copy, PartialEq, Eq, Structural)]
pub enum Stage {
    /// The next batch is to be run.
    Ready,
    /// The batch timed out and is to be run once more.
    Retry,
    /// Nothing more is to be run.
    Done,
}

/// The work on the requests for one file.
#[derive(Debug)]
pub struct Session<'a> {
    pub file_path: String,
    pub requests: Vec<&'a LlmFixRequest>,
    /// How many requests lie behind.
    pub next: usize,
    pub stage: Stage,
    /// What was applied so far, for the prompts to come.
    pub applied: Vec<String>,
    /// The prompts given so far.
    pub prompts: Vec<String>,
    /// The last reply that counts.
    pub reply: Option<Reply>,
}

/// What the work on a file holds.
#[verifier::ext_equal]
pub ghost struct SessionV {
    pub file_path: Seq<char>,
    pub requests: Seq<RequestV>,
    pub next: int,
    pub stage: Stage,
    pub applied: Seq<Seq<char>>,
    pub prompts: Seq<Seq<char>>,
    pub reply: Option<ReplyV>,
}

impl<'a> View for Session<'a> {
    type V = SessionV;

    open spec fn view(&self) -> SessionV {
        SessionV {
            file_path: self.file_path@,
            requests: ref_models(self.requests@),
            next: self.next as int,
            stage: self.stage,
            applied: texts(self.applied@),
            prompts: texts(self.prompts@),
            reply: match self.reply {
                Some(r) => Some(r@),
                None => None,
            },
        }
    }
}

impl SessionV {
    /// Whether there is a batch to be run wherever the work is not done.
    pub open spec fn wf(self) -> bool {
        &&& 0 <= self.next <= self.requests.len()
        &&& !(self.stage is Done) ==> self.next < self.requests.len()
    }

    /// Where the current batch ends.
    pub open spec fn batch_end(self) -> int {
        if self.requests.len() - self.next <= MAX_FIXES_PER_BATCH {
            self.requests.len() as int
        } else {
            self.next + MAX_FIXES_PER_BATCH
        }
    }

    /// The requests of the current batch.
    pub open spec fn batch(self) -> Seq<RequestV> {
        self.requests.subrange(self.next, self.batch_end())
    }

    /// The prompt for the current batch.
    pub open spec fn prompt(self) -> Seq<char> {
        if self.requests.len() == 1 {
            single_prompt(self.requests[0])
        } else {
            batch_prompt(self.file_path, self.batch(), self.applied)
        }
    }

    /// How many turns the agent gets: five, and one for each fix of several, at most twenty.
    pub open spec fn max_turns(self) -> int {
        if self.requests.len() == 1 {
            5
        } else if 5 + self.batch().len() < 20 {
            5 + self.batch().len() as int
        } else {
            20
        }
    }

    /// How many runs may still be made.
    pub open spec fn runs_left(self) -> int {
        match self.stage {
            Stage::Done => 0,
            Stage::Ready => 2 * (self.requests.len() - self.next),
            Stage::Retry => 2 * (self.requests.len() - self.next) - 1,
        }
    }
}

/// What is said of a request once it was applied: its rule, its line, and the first line of its
/// message.
pub open spec fn summary_of(r: RequestV) -> Seq<char> {
    let first = if lines_of(r.message).len() > 0 {
        lines_of(r.message)[0]
    } else {
        Seq::empty()
    };
    "- "@ + r.rule_id + " (line "@ + decimal(r.line as nat) + "): "@ + first
}

/// The work on a file at its beginning.
pub open spec fn started(file_path: Seq<char>, requests: Seq<RequestV>) -> SessionV {
    SessionV {
        file_path,
        requests,
        next: 0,
        stage: if requests.len() == 0 {
            Stage::Done
        } else {
            Stage::Ready
        },
        applied: Seq::empty(),
        prompts: Seq::empty(),
        reply: None,
    }
}

/// The work on a file after a reply.
///
/// A batch that came to an end leads to the next, unless it failed at its first attempt. One
/// that timed out at its first attempt is run once more. Any other error ends the work. A single
/// request is run once.
pub open spec fn after(s: SessionV, reply: ReplyV) -> SessionV {
    if s.stage is Done {
        s
    } else {
        let prompts = if s.stage is Ready {
            s.prompts.push(s.prompt())
        } else {
            s.prompts
        };
        if s.requests.len() == 1 {
            SessionV { next: 1, stage: Stage::Done, prompts, reply: Some(reply), ..s }
        } else {
            match reply {
                ReplyV::Finished(success, _) => SessionV {
                    next: s.batch_end(),
                    stage: if (!success && s.stage is Ready) || s.batch_end() >= s.requests.len() {
                        Stage::Done
                    } else {
                        Stage::Ready
                    },
                    applied: s.applied + s.batch().map_values(|r: RequestV| summary_of(r)),
                    prompts,
                    reply: Some(reply),
                    ..s
                },
                ReplyV::Failed(message) => if s.stage is Ready && contains(
                    message,
                    "timed out"@,
                ) {
                    SessionV { stage: Stage::Retry, prompts, ..s }
                } else {
                    SessionV { stage: Stage::Done, prompts, reply: Some(reply), ..s }
                },
            }
        }
    }
}

/// The rules of requests.
pub open spec fn rule_ids(requests: Seq<RequestV>) -> Seq<Seq<char>> {
    requests.map_values(|r: RequestV| r.rule_id)
}

/// What the work on a file came to.
pub open spec fn result_of(s: SessionV) -> ResultV {
    match s.reply {
        None => ResultV {
            file_path: s.file_path,
            rule_id: Seq::empty(),
            success: true,
            output: Seq::empty(),
        },
        Some(ReplyV::Finished(success, output)) => ResultV {
            file_path: s.file_path,
            rule_id: join(rule_ids(s.requests), ", "@),
            success,
            output,
        },
        Some(ReplyV::Failed(message)) => ResultV {
            file_path: s.file_path,
            rule_id: join(rule_ids(s.requests), ", "@),
            success: false,
            output: "Error: "@ + message,
        },
    }
}

/// Every reply brings the work on a file nearer to its end: each batch is run at most twice.
pub proof fn law_session_ends(s: SessionV, reply: ReplyV)
    requires
        s.wf(),
        !(s.stage is Done),
    ensures
        after(s, reply).wf(),
        0 <= after(s, reply).runs_left() < s.runs_left(),
        after(s, reply).stage is Retry ==> s.stage is Ready && after(s, reply).prompt()
            == s.prompt(),
{
}

/// An error other than a time-out ends the work on a file at once, and is what it comes to.
pub proof fn law_error_ends_session(s: SessionV, message: Seq<char>)
    requires
        s.wf(),
        !(s.stage is Done),
        !contains(message, "timed out"@),
    ensures
        after(s, ReplyV::Failed(message)).stage is Done,
        !result_of(after(s, ReplyV::Failed(message))).success,
        result_of(after(s, ReplyV::Failed(message))).output == "Error: "@ + message,
{
}

/// What is to be done next.
#[derive(Debug)]
pub enum Action {
    /// Run the agent after a pause.
    Run { prompt: String, max_turns: u64, pause_secs: u64 },
    /// Nothing.
    Finish,
}

/// The rules of requests.
fn list_rules(requests: &Vec<&LlmFixRequest>) -> (out: Vec<String>)
    ensures
        texts(out@) == rule_ids(ref_models(requests@)),
{
    let ghost goal = rule_ids(ref_models(requests@));
    let mut out: Vec<String> = Vec::new();
    let mut i: usize = 0;
    assert(texts(out@) =~= goal.take(0));
    while i < requests.len()
        invariant
            goal == rule_ids(ref_models(requests@)),
            i <= requests@.len(),
            texts(out@) == goal.take(i as int),
        decreases requests.len() - i,
    {
        let ghost before = texts(out@);
        out.push(requests[i].rule_id.clone());
        assert(texts(out@) =~= before.push(goal[i as int]));
        i = i + 1;
        assert(texts(out@) =~= goal.take(i as int));
    }
    assert(goal.take(goal.len() as int) =~= goal);
    out
}

/// What is said of a request once it was applied.
fn summarize(r: &LlmFixRequest) -> (out: String)
    ensures
        out@ == summary_of(r@),
{
    let message = lines(r.message.as_str());
    assert(texts(message@).len() == message@.len());
    let line = show_number(r.line as u64);
    let mut out = "- ".to_owned();
    out.append(r.rule_id.as_str());
    out.append(" (line ");
    out.append(line.as_str());
    out.append("): ");
    if message.len() > 0 {
        assert(lines_of(r.message@)[0] == message@[0]@);
        out.append(message[0].as_str());
    } else {
        assert(out@ =~= out@ + Seq::<char>::empty());
    }
    out
}

impl<'a> Session<'a> {
    /// The work on a file at its beginning.
    pub fn start(file_path: &str, requests: Vec<&'a LlmFixRequest>) -> (r: Session<'a>)
        ensures
            r@ == started(file_path@, ref_models(requests@)),
            r@.wf(),
    {
        assert(ref_models(requests@).len() == requests@.len());
        let stage = if requests.len() == 0 {
            Stage::Done
        } else {
            Stage::Ready
        };
        let r = Session {
            file_path: file_path.to_owned(),
            requests,
            next: 0,
            stage,
            applied: Vec::new(),
            prompts: Vec::new(),
            reply: None,
        };
        assert(r@ =~= started(file_path@, ref_models(requests@)));
        r
    }

    fn end_of_batch(&self) -> (r: usize)
        requires
            self@.wf(),
        ensures
            r == self@.batch_end(),
            self.next <= r <= self.requests@.len(),
    {
        let n: usize = self.requests.len();
        if n - self.next <= MAX_FIXES_PER_BATCH {
            n
        } else {
            self.next + MAX_FIXES_PER_BATCH
        }
    }

    fn current_batch(&self) -> (out: Vec<&'a LlmFixRequest>)
        requires
            self@.wf(),
        ensures
            ref_models(out@) == self@.batch(),
    {
        let end = self.end_of_batch();
        let ghost goal = self@.batch();
        let mut out: Vec<&'a LlmFixRequest> = Vec::new();
        let mut i: usize = self.next;
        assert(ref_models(out@) =~= goal.take(0));
        while i < end
            invariant
                goal == self@.batch(),
                end == self@.batch_end(),
                self.next <= i <= end <= self.requests@.len(),
                ref_models(out@) == goal.take(i - self.next),
            decreases end - i,
        {
            let ghost before = ref_models(out@);
            out.push(self.requests[i]);
            assert(ref_models(out@) =~= before.push(goal[i - self.next]));
            i = i + 1;
            assert(ref_models(out@) =~= goal.take(i - self.next));
        }
        assert(goal.take(goal.len() as int) =~= goal);
        out
    }

    fn current_prompt(&self) -> (out: String)
        requires
            self@.wf(),
        ensures
            out@ == self@.prompt(),
    {
        if self.requests.len() == 1 {
            assert(self@.requests[0] == self.requests@[0]@);
            build_prompt(self.requests[0])
        } else {
            let batch = self.current_batch();
            build_batch_prompt_with_context(self.file_path.as_str(), &batch, &self.applied)
        }
    }

    /// What is to be done next: run the current batch, after ten seconds where it timed out
    /// before, or nothing.
    pub fn next_action(&self) -> (r: Action)
        requires
            self@.wf(),
        ensures
            match r {
                Action::Finish => self@.stage is Done,
                Action::Run { prompt, max_turns, pause_secs } => {
                    &&& !(self@.stage is Done)
                    &&& prompt@ == self@.prompt()
                    &&& max_turns == self@.max_turns()
                    &&& pause_secs == (if self@.stage is Retry {
                        10int
                    } else {
                        0
                    })
                },
            },
    {
        let pause_secs: u64 = match self.stage {
            Stage::Done => return Action::Finish,
            Stage::Ready => 0,
            Stage::Retry => 10,
        };
        let max_turns: u64 = if self.requests.len() == 1 {
            5
        } else {
            let size: usize = self.end_of_batch() - self.next;
            if size < 15 {
                5 + size as u64
            } else {
                20
            }
        };
        Action::Run { prompt: self.current_prompt(), max_turns, pause_secs }
    }

    fn record_batch(&mut self)
        requires
            old(self)@.wf(),
        ensures
            final(self)@ == (SessionV {
                next: old(self)@.batch_end(),
                applied: old(self)@.applied + old(self)@.batch().map_values(
                    |r: RequestV| summary_of(r),
                ),
                ..old(self)@
            }),
    {
        let batch = self.current_batch();
        let end = self.end_of_batch();
        let ghost start = texts(self.applied@);
        let ghost goal = self@.batch().map_values(|r: RequestV| summary_of(r));
        let ghost before = self@;
        let mut i: usize = 0;
        assert(texts(self.applied@) =~= start + goal.take(0));
        while i < batch.len()
            invariant
                goal == ref_models(batch@).map_values(|r: RequestV| summary_of(r)),
                i <= batch@.len(),
                texts(self.applied@) == start + goal.take(i as int),
                self@ == (SessionV { applied: texts(self.applied@), ..before }),
            decreases batch.len() - i,
        {
            assert(ref_models(batch@)[i as int] == batch@[i as int]@);
            let line = summarize(batch[i]);
            let ghost now = texts(self.applied@);
            self.applied.push(line);
            assert(texts(self.applied@) =~= now.push(goal[i as int]));
            i = i + 1;
            assert(texts(self.applied@) =~= start + goal.take(i as int));
        }
        assert(goal.take(goal.len() as int) =~= goal);
        self.next = end;
    }

    /// Takes in a reply.
    pub fn on_reply(&mut self, reply: Reply)
        requires
            old(self)@.wf(),
        ensures
            final(self)@ == after(old(self)@, reply@),
            final(self)@.wf(),
    {
        proof {
            if !(self@.stage is Done) {
                law_session_ends(self@, reply@);
            }
        }
        let first = match self.stage {
            Stage::Done => return,
            Stage::Ready => true,
            Stage::Retry => false,
        };
        let ghost start = self@;
        if first {
            let prompt = self.current_prompt();
            self.prompts.push(prompt);
            assert(texts(self.prompts@) =~= start.prompts.push(start.prompt()));
        }
        let n: usize = self.requests.len();
        assert(start.requests.len() == n);
        if n == 1 {
            self.next = 1;
            self.stage = Stage::Done;
            self.reply = Some(reply);
            return;
        }
        match reply {
            Reply::Finished(success, output) => {
                self.record_batch();
                self.stage = if (!success && first) || self.next >= n {
                    Stage::Done
                } else {
                    Stage::Ready
                };
                self.reply = Some(Reply::Finished(success, output));
            },
            Reply::Failed(message) => {
                if first && has_text(message.as_str(), "timed out") {
                    self.stage = Stage::Retry;
                } else {
                    self.stage = Stage::Done;
                    self.reply = Some(Reply::Failed(message));
                }
            },
        }
    }

    /// What the work on a file came to.
    pub fn result(&self) -> (r: GooseFixResult)
        ensures
            r@ == result_of(self@),
    {
        match &self.reply {
            None => GooseFixResult {
                file_path: self.file_path.clone(),
                rule_id: String::new(),
                success: true,
                output: String::new(),
            },
            Some(Reply::Finished(success, output)) => {
                let rules = list_rules(&self.requests);
                GooseFixResult {
                    file_path: self.file_path.clone(),
                    rule_id: join_texts(&rules, ", "),
                    success: *success,
                    output: output.clone(),
                }
            },
            Some(Reply::Failed(message)) => {
                let rules = list_rules(&self.requests);
                GooseFixResult {
                    file_path: self.file_path.clone(),
                    rule_id: join_texts(&rules, ", "),
                    success: false,
                    output: concat("Error: ", message.as_str()),
                }
            },
        }
    }

    /// All the prompts given, for a log.
    pub fn prompt_log(&self) -> (out: String)
        ensures
            out@ == join(self@.prompts, "\n\n--- NEXT CHUNK ---\n\n"@),
    {
        join_texts(&self.prompts, "\n\n--- NEXT CHUNK ---\n\n")
    }
}

/// The rules of requests in brief: all of up to three, else the first two and the number of the
/// others.
pub open spec fn brief_rules(requests: Seq<RequestV>) -> Seq<char> {
    let ids = rule_ids(requests);
    if ids.len() <= 3 {
        join(ids, ", "@)
    } else {
        join(ids.take(2), ", "@) + ", ... +"@ + decimal((ids.len() - 2) as nat) + " more"@
    }
}

/// The rules of requests in brief.
pub fn rules_display(requests: &Vec<&LlmFixRequest>) -> (out: String)
    ensures
        out@ == brief_rules(ref_models(requests@)),
{
    let mut ids = list_rules(requests);
    let ghost all = rule_ids(ref_models(requests@));
    assert(all.len() == ids@.len());
    let n: usize = ids.len();
    if n <= 3 {
        return join_texts(&ids, ", ");
    }
    let rest = show_number((n - 2) as u64);
    ids.truncate(2);
    assert(texts(ids@) =~= all.take(2));
    let mut out = join_texts(&ids, ", ");
    out.append(", ... +");
    out.append(rest.as_str());
    out.append(" more");
    out
}

/// The most turns for a batch that is run by itself: five and one for each fix, at most thirty.
pub fn batch_max_turns(fixes: usize) -> (r: u64)
    ensures
        r == (if fixes < 25 {
            5 + fixes
        } else {
            30
        }),
{
    if fixes < 25 {
        5 + fixes as u64
    } else {
        30
    }
}

/// The name of the log file for the file at an index.
pub open spec fn log_name(index: nat) -> Seq<char> {
    let number = decimal(index + 1);
    let padded = if number.len() == 1 {
        "00"@ + number
    } else if number.len() == 2 {
        "0"@ + number
    } else {
        number
    };
    "goose-fix-"@ + padded + ".json"@
}

/// The name of the log file for the file at an index: its number in at least three digits.
pub fn log_file_name(index: u32) -> (out: String)
    ensures
        out@ == log_name(index as nat),
{
    let number = show_number(index as u64 + 1);
    let digits: usize = crate::text::chars_of(number.as_str()).len();
    let padded = if digits == 1 {
        concat("00", number.as_str())
    } else if digits == 2 {
        concat("0", number.as_str())
    } else {
        number
    };
    concat3("goose-fix-", padded.as_str(), ".json")
}

} // verus!
