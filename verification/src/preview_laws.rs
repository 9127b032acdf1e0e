//! What a preview shows, what stands between two offsets of a text, and what snippets hold.

use crate::apply::{
    deduped, file_preview, hunk, hunks, preview_all, preview_edits, preview_of, shown_line,
    shown_lines,
};
use crate::code_snip::{numbered, numbered_lines};
use crate::fix::{EditV, FixV, RequestV};
use crate::goose_client::{brief_rules, log_name, rule_ids};
use crate::incident::IncidentV;
use crate::scanner::{code_snip_text, with_snip};
use crate::session_laws::{lemma_join_says, lemma_says, lemma_says_itself};
use crate::spans::{place_from, text_between, text_within, utf8_len, PlaceV};
use crate::text::{contains, decimal, lines_of};
use vstd::prelude::*;

verus! {

// ---- Previews ----

proof fn lemma_shown_lines(
    file: Seq<Seq<char>>,
    changed: Seq<Option<Seq<char>>>,
    from: int,
    to: int,
    k: int,
)
    requires
        from <= k < to,
    ensures
        contains(shown_lines(file, changed, from, to), shown_line(file[k], changed[k])),
    decreases to - from,
{
    broadcast use lemma_says;

    lemma_says_itself(shown_line(file[k], changed[k]));
    if k < to - 1 {
        lemma_shown_lines(file, changed, from, to - 1, k);
    }
}

/// The hunk around a line shows it, and the three lines before and after it, as far as there are
/// any.
pub proof fn law_hunk(file: Seq<Seq<char>>, changed: Seq<Option<Seq<char>>>, at: int, k: int)
    requires
        0 <= at < file.len(),
        0 <= k < file.len(),
        at - 3 <= k <= at + 3,
    ensures
        contains(hunk(file, changed, at), shown_line(file[k], changed[k])),
{
    broadcast use lemma_says;

    lemma_shown_lines(
        file,
        changed,
        if at >= 3 {
            at - 3
        } else {
            0
        },
        if at + 4 <= file.len() {
            at + 4
        } else {
            file.len() as int
        },
        k,
    );
}

proof fn lemma_hunks(
    file: Seq<Seq<char>>,
    changed: Seq<Option<Seq<char>>>,
    n: int,
    k: int,
    x: Seq<char>,
)
    requires
        0 <= k < n <= changed.len(),
        changed[k] is Some,
        contains(hunk(file, changed, k), x),
    ensures
        contains(hunks(file, changed, n), x),
    decreases n,
{
    broadcast use lemma_says;

    if k < n - 1 {
        lemma_hunks(file, changed, n - 1, k, x);
    }
}

proof fn lemma_edits_len(
    file: Seq<Seq<char>>,
    changed: Seq<Option<Seq<char>>>,
    edits: Seq<EditV>,
    n: int,
)
    requires
        changed.len() == file.len(),
    ensures
        preview_edits(file, changed, edits, n).len() == changed.len(),
    decreases n,
{
    if 0 < n <= edits.len() {
        lemma_edits_len(file, changed, edits, n - 1);
    }
}

proof fn lemma_preview_len(file: Seq<Seq<char>>, fixes: Seq<FixV>, n: int)
    ensures
        preview_all(file, fixes, n).len() == file.len(),
    decreases n,
{
    if 0 < n <= fixes.len() {
        lemma_preview_len(file, fixes, n - 1);
        let edits = fixes[n - 1].edits;
        lemma_edits_len(file, preview_all(file, fixes, n - 1), edits, edits.len() as int);
    }
}

/// A preview names the file and shows every changed line, as it was and as it will be.
pub proof fn law_change_shown(
    path: Seq<char>,
    source: Seq<char>,
    fixes: Seq<FixV>,
    k: int,
    new_text: Seq<char>,
)
    requires
        0 <= k < lines_of(source).len(),
        preview_all(lines_of(source), fixes, fixes.len() as int)[k] == Some(new_text),
    ensures
        contains(file_preview(path, source, fixes), path),
        contains(
            file_preview(path, source, fixes),
            "-"@ + lines_of(source)[k] + "\n+"@ + deduped(new_text) + "\n"@,
        ),
{
    broadcast use lemma_says;

    let file = lines_of(source);
    let changed = preview_all(file, fixes, fixes.len() as int);
    lemma_preview_len(file, fixes, fixes.len() as int);
    assert(changed[k] is Some);
    lemma_says_itself(path);
    law_hunk(file, changed, k, k);
    lemma_hunks(
        file,
        changed,
        changed.len() as int,
        k,
        shown_line(file[k], changed[k]),
    );
}

/// The preview of a plan holds that of every file that can be read.
pub proof fn law_every_file_shown(
    files: Seq<(Seq<char>, Seq<FixV>)>,
    sources: Seq<Result<Seq<char>, Seq<char>>>,
    n: int,
    k: int,
)
    requires
        0 <= k < n <= files.len(),
        files.len() == sources.len(),
        sources[k] is Ok,
    ensures
        contains(
            preview_of(files, sources, n),
            file_preview(files[k].0, sources[k]->Ok_0, files[k].1),
        ),
    decreases n,
{
    broadcast use lemma_says;

    lemma_says_itself(file_preview(files[k].0, sources[k]->Ok_0, files[k].1));
    if k < n - 1 {
        law_every_file_shown(files, sources, n - 1, k);
    }
}

// ---- Offsets ----

/// The bytes that the first `n` characters of a text take.
pub open spec fn bytes_before(s: Seq<char>, n: int) -> nat
    decreases n,
{
    if n <= 0 || n > s.len() {
        0
    } else {
        bytes_before(s, n - 1) + utf8_len(s[n - 1])
    }
}

proof fn lemma_bytes_grow(s: Seq<char>, a: int, b: int)
    requires
        0 <= a < b <= s.len(),
    ensures
        bytes_before(s, a) < bytes_before(s, b),
    decreases b - a,
{
    if a < b - 1 {
        lemma_bytes_grow(s, a, b - 1);
    }
}

proof fn lemma_place(s: Seq<char>, k: int, n: int)
    requires
        0 <= k <= n <= s.len(),
    ensures
        place_from(s, k, bytes_before(s, k) as int, bytes_before(s, n) as int) == PlaceV::At(n),
    decreases n - k,
{
    if k < n {
        lemma_bytes_grow(s, k, n);
        assert(bytes_before(s, k + 1) == bytes_before(s, k) + utf8_len(s[k]));
        lemma_place(s, k + 1, n);
    }
}

/// The text between the byte offsets of two characters is what stands from the first up to the
/// second.
pub proof fn law_text_between(s: Seq<char>, p: int, q: int)
    requires
        0 <= p <= q <= s.len(),
    ensures
        text_between(s, bytes_before(s, p) as int, bytes_before(s, q) as int) == Some(
            s.subrange(p, q),
        ),
        text_within(s, bytes_before(s, p) as int, bytes_before(s, q) as int) == s.subrange(p, q),
{
    lemma_place(s, 0, p);
    lemma_place(s, 0, q);
}

/// A character takes from one to four bytes, the more the higher its number.
pub proof fn law_character_bytes(c: char)
    ensures
        (c as u32) <= 0x7f ==> utf8_len(c) == 1,
        0x7f < (c as u32) <= 0x7ff ==> utf8_len(c) == 2,
        0x7ff < (c as u32) <= 0xffff ==> utf8_len(c) == 3,
        (c as u32) > 0xffff ==> utf8_len(c) == 4,
{
}

// ---- Snippets ----

proof fn lemma_snip_line(lines: Seq<Seq<char>>, from: int, to: int, width: nat, k: int)
    requires
        0 <= from <= k < to <= lines.len(),
    ensures
        contains(
            numbered_lines(lines, from, to, width),
            numbered((k + 1) as nat, lines[k], width),
        ),
    decreases to - from,
{
    broadcast use lemma_says;

    lemma_says_itself(numbered((k + 1) as nat, lines[k], width));
    if k < to - 1 {
        lemma_snip_line(lines, from, to - 1, width, k);
    }
}

/// The code around a line holds the line, and as many lines before and after it as are asked for,
/// as far as there are any, each behind its number.
pub proof fn law_code_around(source: Seq<char>, line: u32, context: u32, k: int)
    requires
        lines_of(source).len() <= u32::MAX,
        0 <= k < lines_of(source).len(),
        line - context <= k + 1 <= line + context,
    ensures
        exists|width: nat|
            contains(
                code_snip_text(source, line, context),
                #[trigger] numbered((k + 1) as nat, lines_of(source)[k], width),
            ),
{
    let lines = lines_of(source);
    let total = lines.len() as int;
    let from = if line > context {
        line - context - 1
    } else {
        0
    };
    let to = if line + context < total {
        line + context
    } else {
        total
    };
    let width = decimal(to as nat).len();
    lemma_snip_line(lines, from, to, width, k);
    assert(contains(
        code_snip_text(source, line, context),
        numbered((k + 1) as nat, lines[k], width),
    ));
}

/// An incident gets the code around its line, and keeps everything else.
pub proof fn law_snippet_given(i: IncidentV, source: Seq<char>, line: u32)
    requires
        i.line_number == Some(line),
        line <= u32::MAX - 5,
    ensures
        with_snip(i, source).code_snip == Some(code_snip_text(source, line, 5)),
        with_snip(i, source).file_uri == i.file_uri,
        with_snip(i, source).line_number == i.line_number,
        with_snip(i, source).code_location == i.code_location,
        with_snip(i, source).message == i.message,
        with_snip(i, source).variables == i.variables,
{
}

// ---- Names ----

/// Up to three rules are all named; of more the first two are, with the number of the others.
pub proof fn law_brief_rules(requests: Seq<RequestV>, k: int)
    requires
        0 <= k < requests.len(),
        requests.len() <= 3 || k < 2,
    ensures
        contains(brief_rules(requests), requests[k].rule_id),
        requests.len() > 3 ==> contains(
            brief_rules(requests),
            decimal((requests.len() - 2) as nat),
        ),
{
    broadcast use lemma_says;

    let ids = rule_ids(requests);
    assert(ids[k] == requests[k].rule_id);
    if ids.len() <= 3 {
        lemma_join_says(ids, ", "@, k);
    } else {
        assert(ids.take(2)[k] == ids[k]);
        lemma_join_says(ids.take(2), ", "@, k);
        lemma_says_itself(decimal((requests.len() - 2) as nat));
    }
}

/// The name of a log file holds the number of the file, counted from one.
pub proof fn law_log_name(index: nat)
    ensures
        contains(log_name(index), decimal(index + 1)),
{
    broadcast use lemma_says;

    lemma_says_itself(decimal(index + 1));
}

} // verus!
