//! What applying edits does to the lines of a file, and what is counted and written.

use crate::apply::{
    apply_all, apply_edit, apply_edits, new_content, outcome, rewritten, untouched, with_file,
    writes_of, Applied, ResultV,
};
use crate::fix::{EditV, FixV};
use crate::plan_laws::lemma_pushed;
use crate::text::{
    contains, find_from, has_at, is_space, lemma_find_from, lemma_split_len, replaced_first, split,
    trim_end, trim_start, trimmed,
};
use vstd::prelude::*;

verus! {

// ---- Texts ----

/// None of the parts of a text that is split holds the separator.
pub proof fn law_parts_lack_separator(s: Seq<char>, c: char, k: int)
    requires
        0 <= k < split(s, c).len(),
    ensures
        !split(s, c)[k].contains(c),
    decreases s.len(),
{
    if s.len() > 0 {
        let before = split(s.drop_last(), c);
        lemma_split_len(s.drop_last(), c);
        let now = split(s, c);
        if k < before.len() {
            law_parts_lack_separator(s.drop_last(), c, k);
            if s.last() != c && k == before.len() - 1 {
                assert(now[k] == before[k].push(s.last()));
                lemma_pushed(before[k], s.last(), c);
            } else {
                assert(now[k] == before[k]);
            }
        }
    }
}

/// Whether a text is white space only.
pub open spec fn blank(s: Seq<char>) -> bool {
    forall|k: int| 0 <= k < s.len() ==> is_space(#[trigger] s[k])
}

proof fn lemma_trim_start(s: Seq<char>) -> (a: Seq<char>)
    ensures
        s == a + trim_start(s),
        blank(a),
        trim_start(s).len() > 0 ==> !is_space(trim_start(s)[0]),
    decreases s.len(),
{
    if s.len() > 0 && is_space(s[0]) {
        let b = lemma_trim_start(s.skip(1));
        let a = seq![s[0]] + b;
        assert(s =~= seq![s[0]] + s.skip(1));
        assert(s =~= a + trim_start(s));
        assert forall|k: int| 0 <= k < a.len() implies is_space(#[trigger] a[k]) by {
            if k > 0 {
                assert(a[k] == b[k - 1]);
            }
        }
        a
    } else {
        assert(s =~= Seq::<char>::empty() + s);
        Seq::empty()
    }
}

proof fn lemma_trim_end(s: Seq<char>) -> (b: Seq<char>)
    ensures
        s == trim_end(s) + b,
        blank(b),
        trim_end(s).len() > 0 ==> !is_space(trim_end(s).last()),
    decreases s.len(),
{
    if s.len() > 0 && is_space(s.last()) {
        let a = lemma_trim_end(s.drop_last());
        let b = a.push(s.last());
        assert(s =~= s.drop_last().push(s.last()));
        assert(s =~= trim_end(s) + b);
        assert forall|k: int| 0 <= k < b.len() implies is_space(#[trigger] b[k]) by {
            if k < a.len() {
                assert(b[k] == a[k]);
            }
        }
        b
    } else {
        assert(s =~= s + Seq::<char>::empty());
        Seq::empty()
    }
}

/// A trimmed text is what is left of the text without white space at both ends, and has none there.
pub proof fn law_trimmed(s: Seq<char>)
    ensures
        exists|a: Seq<char>, b: Seq<char>|
            blank(a) && blank(b) && s == #[trigger] (a + trimmed(s) + b),
        trimmed(s).len() > 0 ==> !is_space(trimmed(s)[0]) && !is_space(trimmed(s).last()),
{
    let a = lemma_trim_start(s);
    let b = lemma_trim_end(trim_start(s));
    assert(s =~= a + trimmed(s) + b);
    assert(trim_start(s) == trimmed(s) + b);
}

// ---- Edits ----

/// Whether a text is another with the first occurrence of a text replaced.
pub open spec fn swaps_first(
    before: Seq<char>,
    after: Seq<char>,
    old_text: Seq<char>,
    new_text: Seq<char>,
) -> bool {
    exists|a: Seq<char>, b: Seq<char>|
        {
            &&& before == a + old_text + b
            &&& after == #[trigger] (a + new_text + b)
            &&& forall|k: int| 0 <= k < a.len() ==> !#[trigger] has_at(before, old_text, k)
        }
}

/// Replacing the first occurrence leaves what stands before and after it.
pub proof fn law_replaced_first(s: Seq<char>, old_text: Seq<char>, new_text: Seq<char>)
    ensures
        contains(s, old_text) ==> swaps_first(
            s,
            replaced_first(s, old_text, new_text),
            old_text,
            new_text,
        ),
        !contains(s, old_text) ==> replaced_first(s, old_text, new_text) == s,
{
    lemma_find_from(s, old_text, 0);
    if contains(s, old_text) {
        let at = choose|at: int| has_at(s, old_text, at);
        let i = find_from(s, old_text, 0)->0;
        let a = s.take(i);
        let b = s.skip(i + old_text.len());
        assert(s =~= a + old_text + b);
        assert(replaced_first(s, old_text, new_text) == a + new_text + b);
    } else if find_from(s, old_text, 0) is Some {
        assert(has_at(s, old_text, find_from(s, old_text, 0)->0));
    }
}

/// Whether an edit was met.
pub open spec fn met(a: Applied, e: EditV) -> bool {
    a.seen.contains((e.line, e.old_text, e.new_text))
}

/// An edit that is met for the first time, and whose old text stands on its line, is applied: the
/// first occurrence there gives way to the new text, and no other line changes.
pub proof fn law_edit_applied(a: Applied, e: EditV)
    requires
        !met(a, e),
        1 <= e.line <= a.file.len(),
        contains(a.file[e.line - 1], e.old_text),
    ensures
        ({
            let after = apply_edit(a, e);
            &&& after.file.len() == a.file.len()
            &&& swaps_first(
                a.file[e.line - 1],
                after.file[e.line - 1],
                e.old_text,
                e.new_text,
            )
            &&& forall|k: int|
                0 <= k < a.file.len() && k != e.line - 1 ==> after.file[k] == #[trigger] a.file[k]
            &&& after.applied == a.applied + 1
            &&& after.skipped == a.skipped
            &&& met(after, e)
        }),
{
    law_replaced_first(a.file[e.line - 1], e.old_text, e.new_text);
    lemma_pushed(
        a.seen,
        (e.line, e.old_text, e.new_text),
        (e.line, e.old_text, e.new_text),
    );
}

/// An edit that is met for the first time, and whose line or old text is not there, is skipped.
pub proof fn law_edit_skipped(a: Applied, e: EditV)
    requires
        !met(a, e),
        e.line >= 1,
        e.line > a.file.len() || !contains(a.file[e.line - 1], e.old_text),
    ensures
        ({
            let after = apply_edit(a, e);
            &&& after.file == a.file
            &&& after.applied == a.applied
            &&& after.skipped == a.skipped + 1
            &&& met(after, e)
        }),
{
    lemma_pushed(
        a.seen,
        (e.line, e.old_text, e.new_text),
        (e.line, e.old_text, e.new_text),
    );
}

proof fn lemma_stays_met(a: Applied, edits: Seq<EditV>, n: int, e: EditV)
    requires
        met(a, e),
    ensures
        met(apply_edits(a, edits, n), e),
    decreases n,
{
    if 0 < n <= edits.len() {
        lemma_stays_met(a, edits, n - 1, e);
        let before = apply_edits(a, edits, n - 1);
        let x = edits[n - 1];
        lemma_pushed(
            before.seen,
            (x.line, x.old_text, x.new_text),
            (e.line, e.old_text, e.new_text),
        );
    }
}

proof fn lemma_all_met(a: Applied, edits: Seq<EditV>, n: int, k: int)
    requires
        0 <= k < n <= edits.len(),
    ensures
        met(apply_edits(a, edits, n), edits[k]),
    decreases n,
{
    let before = apply_edits(a, edits, n - 1);
    let x = edits[n - 1];
    let e = edits[k];
    if k < n - 1 {
        lemma_all_met(a, edits, n - 1, k);
    }
    lemma_pushed(
        before.seen,
        (x.line, x.old_text, x.new_text),
        (e.line, e.old_text, e.new_text),
    );
}

proof fn lemma_fixes_met(a: Applied, fixes: Seq<FixV>, n: int, f: int, k: int)
    requires
        0 <= f < n <= fixes.len(),
        0 <= k < fixes[f].edits.len(),
    ensures
        met(apply_all(a, fixes, n), fixes[f].edits[k]),
    decreases n,
{
    let before = apply_all(a, fixes, n - 1);
    let edits = fixes[n - 1].edits;
    if f < n - 1 {
        lemma_fixes_met(a, fixes, n - 1, f, k);
        lemma_stays_met(before, edits, edits.len() as int, fixes[f].edits[k]);
    } else {
        lemma_all_met(before, edits, edits.len() as int, k);
    }
}

/// Every edit of every fix of a file is met: none is left out.
pub proof fn law_every_edit_met(source: Seq<char>, fixes: Seq<FixV>, f: int, k: int)
    requires
        0 <= f < fixes.len(),
        0 <= k < fixes[f].edits.len(),
    ensures
        met(outcome(source, fixes), fixes[f].edits[k]),
{
    lemma_fixes_met(untouched(source), fixes, fixes.len() as int, f, k);
}

// ---- Files ----

/// The new content of a file ends with a line feed where the old one did.
pub proof fn law_final_line_feed(source: Seq<char>, fixes: Seq<FixV>)
    requires
        source.len() > 0,
        source.last() == '\n',
    ensures
        rewritten(source, fixes).len() > 0,
        rewritten(source, fixes).last() == '\n',
{
}

/// A file that cannot be read is named in an error, with the reason, and nothing else is counted.
pub proof fn law_unreadable_file(
    r: ResultV,
    path: Seq<char>,
    message: Seq<char>,
    fixes: Seq<FixV>,
)
    ensures
        ({
            let after = with_file(r, path, Err(message), fixes);
            &&& after.errors.len() == r.errors.len() + 1
            &&& after.errors.drop_last() == r.errors
            &&& path.is_prefix_of(after.errors.last())
            &&& message.is_suffix_of(after.errors.last())
            &&& after.files_modified == r.files_modified
            &&& after.edits_applied == r.edits_applied
            &&& after.edits_skipped == r.edits_skipped
        }),
{
    let line = path + ": "@ + message;
    assert(line.subrange(0, path.len() as int) =~= path);
    assert(line.subrange(line.len() - message.len(), line.len() as int) =~= message);
    let after = with_file(r, path, Err::<Seq<char>, Seq<char>>(message), fixes);
    assert(after.errors.drop_last() =~= r.errors);
}

/// A file that can be read counts as modified where an edit applies, and adds what was applied and
/// what was skipped. The counts stop at the largest number.
pub proof fn law_file_counted(
    r: ResultV,
    path: Seq<char>,
    source: Seq<char>,
    fixes: Seq<FixV>,
)
    ensures
        ({
            let after = with_file(r, path, Ok(source), fixes);
            let a = outcome(source, fixes);
            &&& after.errors == r.errors
            &&& a.applied == 0 ==> after.files_modified == r.files_modified
            &&& a.applied > 0 && r.files_modified < usize::MAX ==> after.files_modified
                == r.files_modified + 1
            &&& r.edits_applied + a.applied <= usize::MAX ==> after.edits_applied
                == r.edits_applied + a.applied
            &&& r.edits_skipped + a.skipped <= usize::MAX ==> after.edits_skipped
                == r.edits_skipped + a.skipped
        }),
{
}

/// A file is written where it can be read and an edit applies, with its new content, and no other
/// file is.
pub proof fn law_files_written(
    files: Seq<(Seq<char>, Seq<FixV>)>,
    sources: Seq<Result<Seq<char>, Seq<char>>>,
    n: int,
    w: (Seq<char>, Seq<char>),
)
    requires
        0 <= n <= files.len(),
        files.len() == sources.len(),
    ensures
        writes_of(files, sources, n).contains(w) <==> exists|k: int|
            {
                &&& 0 <= k < n
                &&& (#[trigger] files[k]).0 == w.0
                &&& sources[k] is Ok
                &&& outcome(sources[k]->Ok_0, files[k].1).applied > 0
                &&& rewritten(sources[k]->Ok_0, files[k].1) == w.1
            },
    decreases n,
{
    if n > 0 {
        law_files_written(files, sources, n - 1, w);
        let before = writes_of(files, sources, n - 1);
        match new_content(sources[n - 1], files[n - 1].1) {
            Some(s) => {
                lemma_pushed(before, (files[n - 1].0, s), w);
                if (files[n - 1].0, s) == w {
                    assert(files[n - 1].0 == w.0);
                }
            },
            None => {},
        }
    }
}

} // verus!
