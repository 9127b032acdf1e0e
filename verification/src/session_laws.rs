//! What the prompts to the language model say, and how a session goes through its requests.

use crate::fix::RequestV;
use crate::goose_client::{
    after, batch_prompt, by_rule, context_section, insert_by_rule, line_list, result_of, rule_ids,
    rule_section, rule_sections, single_prompt, snippets, started, summary_of, ReplyV, SessionV,
    MAX_FIXES_PER_BATCH,
};
use crate::plan_laws::lemma_pushed;
use crate::text::{contains, decimal, has_at, join, law_text_rank, text_rank, Rank};
use vstd::prelude::*;

verus! {

// ---- What a text says ----

pub proof fn lemma_says_itself(x: Seq<char>)
    ensures
        contains(x, x),
{
    assert(x.subrange(0, x.len() as int) =~= x);
    assert(has_at(x, x, 0));
}

/// What one of two texts says, the two together say.
pub broadcast proof fn lemma_says(a: Seq<char>, b: Seq<char>, x: Seq<char>)
    ensures
        contains(a, x) || contains(b, x) ==> #[trigger] contains(a + b, x),
{
    let s = a + b;
    if contains(a, x) {
        let i = choose|i: int| has_at(a, x, i);
        assert(s.subrange(i, i + x.len()) =~= a.subrange(i, i + x.len()));
        assert(has_at(s, x, i));
    }
    if contains(b, x) {
        let i = choose|i: int| has_at(b, x, i);
        assert(s.subrange(a.len() + i, a.len() + i + x.len()) =~= b.subrange(i, i + x.len()));
        assert(has_at(s, x, a.len() + i));
    }
}

pub proof fn lemma_join_says(parts: Seq<Seq<char>>, sep: Seq<char>, k: int)
    requires
        0 <= k < parts.len(),
    ensures
        contains(join(parts, sep), parts[k]),
    decreases parts.len(),
{
    broadcast use lemma_says;

    lemma_says_itself(parts[k]);
    if parts.len() > 1 {
        if k < parts.len() - 1 {
            assert(parts.drop_last()[k] == parts[k]);
            lemma_join_says(parts.drop_last(), sep, k);
        }
        assert(contains(join(parts.drop_last(), sep) + sep, parts[k]) || parts.last() == parts[k]);
    }
}

/// The prompt for a single fix names the file, the line and the rule, and holds the message of the
/// rule and the code around the line, where there is any.
pub proof fn law_single_prompt(r: RequestV)
    ensures
        contains(single_prompt(r), r.file_path),
        contains(single_prompt(r), decimal(r.line as nat)),
        contains(single_prompt(r), r.rule_id),
        contains(single_prompt(r), r.message),
        r.code_snip is Some ==> contains(single_prompt(r), r.code_snip->0),
{
    broadcast use lemma_says;

    lemma_says_itself(r.file_path);
    lemma_says_itself(decimal(r.line as nat));
    lemma_says_itself(r.rule_id);
    lemma_says_itself(r.message);
    if let Some(s) = r.code_snip {
        lemma_says_itself(s);
    }
}

// ---- Requests by rule ----

/// Whether a group of requests is that of a rule and holds a request.
pub open spec fn grouped(
    groups: Seq<(Seq<char>, Seq<RequestV>)>,
    rule_id: Seq<char>,
    r: RequestV,
) -> bool {
    exists|k: int|
        0 <= k < groups.len() && (#[trigger] groups[k]).0 == rule_id && groups[k].1.contains(r)
}

proof fn lemma_grouped_first(
    groups: Seq<(Seq<char>, Seq<RequestV>)>,
    rule_id: Seq<char>,
    r: RequestV,
)
    requires
        groups.len() > 0,
    ensures
        grouped(groups, rule_id, r) <==> (groups[0].0 == rule_id && groups[0].1.contains(r))
            || grouped(groups.skip(1), rule_id, r),
{
    let tail = groups.skip(1);
    if grouped(groups, rule_id, r) {
        let k = choose|k: int|
            0 <= k < groups.len() && (#[trigger] groups[k]).0 == rule_id && groups[k].1.contains(r);
        if k > 0 {
            assert(tail[k - 1] == groups[k]);
        }
    }
    if grouped(tail, rule_id, r) {
        let k = choose|k: int|
            0 <= k < tail.len() && (#[trigger] tail[k]).0 == rule_id && tail[k].1.contains(r);
        assert(groups[k + 1] == tail[k]);
    }
}

proof fn lemma_insert_by_rule(
    groups: Seq<(Seq<char>, Seq<RequestV>)>,
    x: RequestV,
    rule_id: Seq<char>,
    r: RequestV,
)
    ensures
        grouped(insert_by_rule(groups, x), rule_id, r) <==> grouped(groups, rule_id, r) || (x
            == r && x.rule_id == rule_id),
    decreases groups.len(),
{
    let now = insert_by_rule(groups, x);
    let one = seq![x];
    assert(one[0] == x);
    if groups.len() == 0 {
        assert(now[0] == (x.rule_id, one));
    } else {
        law_text_rank(groups[0].0, x.rule_id);
        lemma_grouped_first(groups, rule_id, r);
        match text_rank(groups[0].0, x.rule_id) {
            Rank::Less => {
                lemma_insert_by_rule(groups.skip(1), x, rule_id, r);
                assert(now[0] == groups[0]);
                assert(now.skip(1) =~= insert_by_rule(groups.skip(1), x));
            },
            Rank::Same => {
                assert(now[0] == (groups[0].0, groups[0].1.push(x)));
                assert(now.skip(1) =~= groups.skip(1));
                lemma_pushed(groups[0].1, x, r);
            },
            Rank::More => {
                assert(now[0] == (x.rule_id, one));
                assert(now.skip(1) =~= groups);
            },
        }
        lemma_grouped_first(now, rule_id, r);
    }
}

/// Each request stands in the group of its rule, and nothing else stands in a group.
pub proof fn law_by_rule(requests: Seq<RequestV>, n: int, rule_id: Seq<char>, r: RequestV)
    requires
        0 <= n <= requests.len(),
    ensures
        grouped(by_rule(requests, n), rule_id, r) <==> r.rule_id == rule_id && exists|k: int|
            0 <= k < n && #[trigger] requests[k] == r,
    decreases n,
{
    if n > 0 {
        law_by_rule(requests, n - 1, rule_id, r);
        lemma_insert_by_rule(by_rule(requests, n - 1), requests[n - 1], rule_id, r);
        if exists|k: int| 0 <= k < n - 1 && #[trigger] requests[k] == r {
            let k = choose|k: int| 0 <= k < n - 1 && #[trigger] requests[k] == r;
            assert(requests[k] == r);
        }
    }
}

// ---- The prompt for several fixes ----

proof fn lemma_line_list(requests: Seq<RequestV>, n: int, k: int)
    requires
        0 <= k < n <= requests.len(),
    ensures
        line_list(requests, n).len() == n,
        line_list(requests, n)[k] == decimal(requests[k].line as nat),
    decreases n,
{
    if n > 1 {
        lemma_line_list(requests, n - 1, if k < n - 1 {
            k
        } else {
            0
        });
    } else {
        assert(line_list(requests, 0).len() == 0);
    }
}

proof fn lemma_snippets(requests: Seq<RequestV>, n: int, k: int)
    requires
        0 <= k < n <= requests.len(),
        requests[k].code_snip is Some,
    ensures
        contains(snippets(requests, n), requests[k].code_snip->0),
    decreases n,
{
    broadcast use lemma_says;

    lemma_says_itself(requests[k].code_snip->0);
    if k < n - 1 {
        lemma_snippets(requests, n - 1, k);
    }
}

proof fn lemma_rule_section(number: nat, rule_id: Seq<char>, requests: Seq<RequestV>, k: int)
    requires
        0 <= k < requests.len(),
    ensures
        contains(rule_section(number, rule_id, requests), rule_id),
        contains(rule_section(number, rule_id, requests), requests[0].message),
        contains(rule_section(number, rule_id, requests), decimal(requests[k].line as nat)),
        requests[k].code_snip is Some ==> contains(
            rule_section(number, rule_id, requests),
            requests[k].code_snip->0,
        ),
{
    broadcast use lemma_says;

    lemma_says_itself(rule_id);
    lemma_says_itself(requests[0].message);
    lemma_says_itself(decimal(requests[k].line as nat));
    if requests.len() > 1 {
        let list = line_list(requests, requests.len() as int);
        lemma_line_list(requests, requests.len() as int, k);
        lemma_join_says(list, ", "@, k);
        if requests[k].code_snip is Some {
            lemma_snippets(requests, requests.len() as int, k);
        }
    } else if requests[k].code_snip is Some {
        lemma_says_itself(requests[k].code_snip->0);
    }
}

proof fn lemma_rule_sections(groups: Seq<(Seq<char>, Seq<RequestV>)>, n: int, g: int, x: Seq<char>)
    requires
        0 <= g < n <= groups.len(),
        contains(rule_section((g + 1) as nat, groups[g].0, groups[g].1), x),
    ensures
        contains(rule_sections(groups, n), x),
    decreases n,
{
    broadcast use lemma_says;

    if g < n - 1 {
        lemma_rule_sections(groups, n - 1, g, x);
    }
}

/// The prompt for several fixes names the file, and of each request the rule and the line, and
/// holds the code around it, where there is any.
pub proof fn law_batch_prompt(
    path: Seq<char>,
    requests: Seq<RequestV>,
    applied: Seq<Seq<char>>,
    k: int,
)
    requires
        0 <= k < requests.len(),
    ensures
        contains(batch_prompt(path, requests, applied), path),
        contains(batch_prompt(path, requests, applied), requests[k].rule_id),
        contains(batch_prompt(path, requests, applied), decimal(requests[k].line as nat)),
        requests[k].code_snip is Some ==> contains(
            batch_prompt(path, requests, applied),
            requests[k].code_snip->0,
        ),
{
    broadcast use lemma_says;

    lemma_says_itself(path);
    let groups = by_rule(requests, requests.len() as int);
    let r = requests[k];
    law_by_rule(requests, requests.len() as int, r.rule_id, r);
    let g = choose|g: int|
        0 <= g < groups.len() && (#[trigger] groups[g]).0 == r.rule_id && groups[g].1.contains(r);
    let own = groups[g].1;
    let j = choose|j: int| 0 <= j < own.len() && own[j] == r;
    lemma_rule_section((g + 1) as nat, r.rule_id, own, j);
    lemma_rule_sections(groups, groups.len() as int, g, r.rule_id);
    lemma_rule_sections(groups, groups.len() as int, g, decimal(r.line as nat));
    if r.code_snip is Some {
        lemma_rule_sections(groups, groups.len() as int, g, r.code_snip->0);
    }
}

/// The prompt repeats what was applied before.
pub proof fn law_prompt_repeats_applied(
    path: Seq<char>,
    requests: Seq<RequestV>,
    applied: Seq<Seq<char>>,
    k: int,
)
    requires
        0 <= k < applied.len(),
    ensures
        contains(batch_prompt(path, requests, applied), applied[k]),
{
    broadcast use lemma_says;

    lemma_join_says(applied, "\n"@, k);
    assert(contains(context_section(applied), applied[k]));
}

// ---- Sessions ----

/// A batch is the next requests in their order, at most as many as go into one, and all that are
/// left where those are fewer.
pub proof fn law_batch(s: SessionV)
    requires
        s.wf(),
        !(s.stage is Done),
    ensures
        0 < s.batch().len() <= MAX_FIXES_PER_BATCH,
        forall|k: int| 0 <= k < s.batch().len() ==> s.batch()[k] == #[trigger] s.requests[s.next + k],
        s.next + s.batch().len() == s.requests.len() || s.batch().len() == MAX_FIXES_PER_BATCH,
        s.batch_end() == s.next + s.batch().len(),
{
}

/// A batch that is done is followed by the next one, until no request is left, and each of its
/// requests is summed up for the prompts to come.
pub proof fn law_batch_done(s: SessionV, output: Seq<char>)
    requires
        s.wf(),
        !(s.stage is Done),
        s.requests.len() > 1,
    ensures
        ({
            let t = after(s, ReplyV::Finished(true, output));
            &&& t.next == s.next + s.batch().len()
            &&& t.stage is Done <==> t.next == s.requests.len()
            &&& !(t.stage is Done) ==> t.stage is Ready
            &&& t.applied.len() == s.applied.len() + s.batch().len()
            &&& forall|k: int|
                0 <= k < s.batch().len() ==> #[trigger] t.applied[s.applied.len() + k]
                    == summary_of(s.batch()[k])
            &&& forall|k: int|
                0 <= k < s.applied.len() ==> #[trigger] t.applied[k] == s.applied[k]
            &&& t.requests == s.requests
            &&& t.file_path == s.file_path
        }),
{
}

/// The summary of a request names its rule and its line.
pub proof fn law_summary(r: RequestV)
    ensures
        contains(summary_of(r), r.rule_id),
        contains(summary_of(r), decimal(r.line as nat)),
{
    broadcast use lemma_says;

    lemma_says_itself(r.rule_id);
    lemma_says_itself(decimal(r.line as nat));
}

/// A batch that fails at its first run ends the session; one that is run again does not.
pub proof fn law_batch_failed(s: SessionV, output: Seq<char>)
    requires
        s.wf(),
        s.requests.len() > 1,
    ensures
        s.stage is Ready ==> after(s, ReplyV::Finished(false, output)).stage is Done,
        s.stage is Retry && s.batch_end() < s.requests.len() ==> after(
            s,
            ReplyV::Finished(false, output),
        ).stage is Ready,
{
}

/// A run that times out is tried once more, with the same requests.
pub proof fn law_timeout_tried_again(s: SessionV, message: Seq<char>)
    requires
        s.wf(),
        s.requests.len() > 1,
        contains(message, "timed out"@),
    ensures
        s.stage is Ready ==> {
            let t = after(s, ReplyV::Failed(message));
            t.stage is Retry && t.next == s.next && t.batch() == s.batch() && t.applied == s.applied
        },
        s.stage is Retry ==> after(s, ReplyV::Failed(message)).stage is Done,
{
}

/// A single request has one run, whatever comes of it.
pub proof fn law_single_request(s: SessionV, reply: ReplyV)
    requires
        s.wf(),
        !(s.stage is Done),
        s.requests.len() == 1,
    ensures
        after(s, reply).stage is Done,
        after(s, reply).reply == Some(reply),
        s.prompt() == single_prompt(s.requests[0]),
        s.max_turns() == 5,
{
}

/// Every prompt of a session is kept, once for each batch.
pub proof fn law_prompts_kept(s: SessionV, reply: ReplyV)
    requires
        s.wf(),
    ensures
        s.stage is Ready ==> after(s, reply).prompts == s.prompts.push(s.prompt()),
        s.stage is Retry ==> after(s, reply).prompts == s.prompts,
{
}

/// The turns of a run grow with its requests, from five up to twenty.
pub proof fn law_turns(s: SessionV)
    requires
        s.wf(),
        !(s.stage is Done),
    ensures
        5 <= s.max_turns() <= 20,
        s.requests.len() > 1 && s.batch().len() <= 15 ==> s.max_turns() == 5 + s.batch().len(),
{
}

/// A session has succeeded where its last run did, and tells what that put out. One without
/// requests has nothing to do and succeeds.
pub proof fn law_result(s: SessionV, path: Seq<char>)
    ensures
        result_of(s).file_path == s.file_path,
        s.reply matches Some(ReplyV::Finished(success, output)) ==> result_of(s).success == success
            && result_of(s).output == output,
        s.reply matches Some(ReplyV::Failed(_)) ==> !result_of(s).success,
        started(path, Seq::empty()).stage is Done,
        result_of(started(path, Seq::empty())).success,
{
}

/// Where there was a run, the result names the rule of each request.
pub proof fn law_result_rules(s: SessionV, k: int)
    requires
        s.reply is Some,
        0 <= k < s.requests.len(),
    ensures
        contains(result_of(s).rule_id, s.requests[k].rule_id),
{
    let ids = rule_ids(s.requests);
    assert(ids[k] == s.requests[k].rule_id);
    lemma_join_says(ids, ", "@, k);
}

} // verus!
