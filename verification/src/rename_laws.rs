//! What the edits of a rename do: every name that is to be replaced is, and no edit gets in the way
//! of another.

use crate::fix::EditV;
use crate::fixers::{
    at_least_zero, byte_len, covered, import_edits, import_line_edits, insert_by_len, least,
    line_edits, line_index, line_no, longest_first, mapping_index, matched_text, rename_edit,
    rename_edits, window_edits,
};
use crate::incident::IncidentV;
use crate::text::{contains, has_at, lines_of};
use vstd::prelude::*;

verus! {

/// Whether names stand by falling length: none is longer than one before it.
pub open spec fn lengths_fall(ms: Seq<(Seq<char>, Seq<char>)>) -> bool {
    forall|i: int, j: int|
        0 <= i < j < ms.len() ==> byte_len((#[trigger] ms[i]).0) >= byte_len((#[trigger] ms[j]).0)
}

/// Whether a mapping changes anything.
pub open spec fn changes(m: (Seq<char>, Seq<char>)) -> bool {
    m.0 != m.1
}

proof fn lemma_insert_by_len(sorted: Seq<(Seq<char>, Seq<char>)>, m: (Seq<char>, Seq<char>))
    requires
        lengths_fall(sorted),
    ensures
        lengths_fall(insert_by_len(sorted, m)),
        insert_by_len(sorted, m).to_multiset() == sorted.to_multiset().insert(m),
        insert_by_len(sorted, m).len() == sorted.len() + 1,
        forall|i: int|
            0 <= i < insert_by_len(sorted, m).len() ==> byte_len(
                (#[trigger] insert_by_len(sorted, m)[i]).0,
            ) >= byte_len(m.0) || (sorted.len() > 0 && byte_len(insert_by_len(sorted, m)[i].0)
                >= byte_len(sorted.last().0)),
    decreases sorted.len(),
{
    broadcast use vstd::seq_lib::group_to_multiset_ensures;

    let r = insert_by_len(sorted, m);
    if sorted.len() == 0 || byte_len(sorted.last().0) >= byte_len(m.0) {
        assert(r == sorted.push(m));
        assert forall|i: int| 0 <= i < r.len() implies byte_len((#[trigger] r[i]).0) >= byte_len(
            m.0,
        ) by {
            if i < sorted.len() - 1 {
                assert(byte_len(sorted[i].0) >= byte_len(sorted[sorted.len() - 1].0));
            }
        }
        assert forall|i: int, j: int| 0 <= i < j < r.len() implies byte_len((#[trigger] r[i]).0)
            >= byte_len((#[trigger] r[j]).0) by {
            if j < sorted.len() {
                assert(byte_len(sorted[i].0) >= byte_len(sorted[j].0));
            }
        }
    } else {
        let front = sorted.drop_last();
        assert(lengths_fall(front)) by {
            assert forall|i: int, j: int| 0 <= i < j < front.len() implies byte_len(
                (#[trigger] front[i]).0,
            ) >= byte_len((#[trigger] front[j]).0) by {
                assert(front[i] == sorted[i] && front[j] == sorted[j]);
            }
        }
        lemma_insert_by_len(front, m);
        let inner = insert_by_len(front, m);
        let last = sorted.last();
        assert(r == inner.push(last));
        assert(sorted =~= front.push(last));
        assert(r.to_multiset() =~= sorted.to_multiset().insert(m));
        assert forall|i: int| 0 <= i < inner.len() implies byte_len((#[trigger] inner[i]).0)
            >= byte_len(last.0) by {
            if front.len() > 0 {
                assert(front.last() == sorted[sorted.len() - 2]);
                assert(byte_len(sorted[sorted.len() - 2].0) >= byte_len(
                    sorted[sorted.len() - 1].0,
                ));
            }
        }
        assert forall|i: int, j: int| 0 <= i < j < r.len() implies byte_len((#[trigger] r[i]).0)
            >= byte_len((#[trigger] r[j]).0) by {
            assert(r[i] == inner[i]);
            if j < inner.len() {
                assert(r[j] == inner[j]);
            }
        }
        assert forall|i: int| 0 <= i < r.len() implies byte_len((#[trigger] r[i]).0) >= byte_len(
            last.0,
        ) by {
            if i < inner.len() {
                assert(r[i] == inner[i]);
            }
        }
    }
}

/// The mappings that a rename goes through are those that change anything, longest old name first,
/// so that a name is looked for before any part of it.
pub proof fn law_longest_first(ms: Seq<(Seq<char>, Seq<char>)>, n: int)
    requires
        0 <= n <= ms.len(),
    ensures
        lengths_fall(longest_first(ms, n)),
        longest_first(ms, n).to_multiset() == ms.take(n).filter(
            |m: (Seq<char>, Seq<char>)| changes(m),
        ).to_multiset(),
    decreases n,
{
    broadcast use vstd::seq_lib::group_to_multiset_ensures;

    reveal(Seq::filter);
    let p = |m: (Seq<char>, Seq<char>)| changes(m);
    if n > 0 {
        law_longest_first(ms, n - 1);
        assert(ms.take(n).drop_last() =~= ms.take(n - 1));
        assert(ms.take(n).last() == ms[n - 1]);
        if changes(ms[n - 1]) {
            lemma_insert_by_len(longest_first(ms, n - 1), ms[n - 1]);
            assert(ms.take(n).filter(p) == ms.take(n - 1).filter(p).push(ms[n - 1]));
        } else {
            assert(ms.take(n).filter(p) == ms.take(n - 1).filter(p));
        }
    } else {
        assert(ms.take(0).filter(p) =~= Seq::empty());
        assert(longest_first(ms, 0) =~= Seq::empty());
    }
}

proof fn lemma_byte_len_add(a: Seq<char>, b: Seq<char>)
    ensures
        byte_len(a + b) == byte_len(a) + byte_len(b),
    decreases a.len(),
{
    if a.len() == 0 {
        assert(a + b =~= b);
    } else {
        lemma_byte_len_add(a.drop_first(), b);
        assert((a + b).drop_first() =~= a.drop_first() + b);
        assert((a + b)[0] == a[0]);
    }
}

proof fn lemma_byte_len_some(a: Seq<char>)
    requires
        a.len() > 0,
    ensures
        byte_len(a) > 0,
{
}

/// A part of a text is no longer than the text, and as long only where it is the whole.
proof fn lemma_part_shorter(s: Seq<char>, p: Seq<char>)
    requires
        contains(s, p),
    ensures
        byte_len(p) <= byte_len(s),
        byte_len(p) == byte_len(s) ==> p == s,
{
    let i = choose|i: int| has_at(s, p, i);
    let a = s.take(i);
    let b = s.skip(i + p.len());
    assert(s =~= a + p + b);
    lemma_byte_len_add(a + p, b);
    lemma_byte_len_add(a, p);
    if a.len() > 0 {
        lemma_byte_len_some(a);
    }
    if b.len() > 0 {
        lemma_byte_len_some(b);
    }
    if a.len() == 0 && b.len() == 0 {
        assert(s =~= p);
    }
}

/// Whether the edits on a line keep out of each other's way: no old text is a part of another.
pub open spec fn apart(edits: Seq<EditV>) -> bool {
    forall|i: int, j: int|
        0 <= i < edits.len() && 0 <= j < edits.len() && i != j ==> !contains(
            (#[trigger] edits[i]).old_text,
            (#[trigger] edits[j]).old_text,
        )
}

proof fn lemma_line_step(
    text: Seq<char>,
    ms: Seq<(Seq<char>, Seq<char>)>,
    n: int,
    line: u32,
    rule_id: Seq<char>,
) -> (added: bool)
    requires
        0 < n <= ms.len(),
    ensures
        ({
            let before = import_line_edits(text, ms, n - 1, line, rule_id);
            let now = import_line_edits(text, ms, n, line, rule_id);
            if added {
                &&& contains(text, ms[n - 1].0)
                &&& !covered(before, ms[n - 1].0)
                &&& now == before.push(rename_edit(line, ms[n - 1], rule_id))
            } else {
                &&& contains(text, ms[n - 1].0) ==> covered(before, ms[n - 1].0)
                &&& now == before
            }
        }),
{
    let before = import_line_edits(text, ms, n - 1, line, rule_id);
    contains(text, ms[n - 1].0) && !covered(before, ms[n - 1].0)
}

/// Each edit on a line of an import rename replaces the old name of a mapping, which stands on the
/// line, by the new one.
proof fn lemma_line_sound(
    text: Seq<char>,
    ms: Seq<(Seq<char>, Seq<char>)>,
    n: int,
    line: u32,
    rule_id: Seq<char>,
    i: int,
)
    requires
        0 <= n <= ms.len(),
        0 <= i < import_line_edits(text, ms, n, line, rule_id).len(),
    ensures
        replaces_one(import_line_edits(text, ms, n, line, rule_id)[i], text, ms, n, line),
    decreases n,
{
    if n > 0 {
        let added = lemma_line_step(text, ms, n, line, rule_id);
        let before = import_line_edits(text, ms, n - 1, line, rule_id);
        let now = import_line_edits(text, ms, n, line, rule_id);
        if i < before.len() {
            lemma_line_sound(text, ms, n - 1, line, rule_id, i);
            assert(now[i] == before[i]);
            let k = choose|k: int|
                0 <= k < n - 1 && before[i].old_text == (#[trigger] ms[k]).0 && before[i].new_text
                    == ms[k].1;
            assert(ms[k].0 == now[i].old_text);
        } else {
            assert(ms[n - 1].0 == now[i].old_text);
        }
    }
}

/// Each name that stands on the line is replaced, by itself or as a part of a longer one.
proof fn lemma_line_covers(
    text: Seq<char>,
    ms: Seq<(Seq<char>, Seq<char>)>,
    n: int,
    line: u32,
    rule_id: Seq<char>,
    k: int,
)
    requires
        0 <= k < n <= ms.len(),
        contains(text, ms[k].0),
    ensures
        covered(import_line_edits(text, ms, n, line, rule_id), ms[k].0),
    decreases n,
{
    let added = lemma_line_step(text, ms, n, line, rule_id);
    let before = import_line_edits(text, ms, n - 1, line, rule_id);
    let now = import_line_edits(text, ms, n, line, rule_id);
    if k < n - 1 || !added {
        if k < n - 1 {
            lemma_line_covers(text, ms, n - 1, line, rule_id, k);
        }
        assert(covered(before, ms[k].0));
        let i = choose|i: int|
            0 <= i < before.len() && contains((#[trigger] before[i]).old_text, ms[k].0);
        assert(now[i] == before[i]);
    } else {
        let name = ms[k].0;
        assert(name.subrange(0, name.len() as int) =~= name);
        assert(has_at(name, name, 0));
        assert(contains(now[before.len() as int].old_text, name));
    }
}

/// Of two edits on a line the first replaces a name that does not hold that of the second, and is
/// no shorter.
proof fn lemma_line_order(
    text: Seq<char>,
    ms: Seq<(Seq<char>, Seq<char>)>,
    n: int,
    line: u32,
    rule_id: Seq<char>,
    i: int,
    j: int,
)
    requires
        0 <= n <= ms.len(),
        lengths_fall(ms),
        0 <= i < j < import_line_edits(text, ms, n, line, rule_id).len(),
    ensures
        ({
            let edits = import_line_edits(text, ms, n, line, rule_id);
            &&& !contains(edits[i].old_text, edits[j].old_text)
            &&& byte_len(edits[i].old_text) >= byte_len(edits[j].old_text)
        }),
    decreases n,
{
    if n > 0 {
        let added = lemma_line_step(text, ms, n, line, rule_id);
        let before = import_line_edits(text, ms, n - 1, line, rule_id);
        let now = import_line_edits(text, ms, n, line, rule_id);
        assert(now[i] == before[i]);
        if j < before.len() {
            lemma_line_order(text, ms, n - 1, line, rule_id, i, j);
            assert(now[j] == before[j]);
        } else {
            lemma_line_sound(text, ms, n - 1, line, rule_id, i);
            let k = choose|k: int|
                0 <= k < n - 1 && before[i].old_text == (#[trigger] ms[k]).0 && before[i].new_text
                    == ms[k].1;
            assert(byte_len(ms[k].0) >= byte_len(ms[n - 1].0));
            assert(now[j] == rename_edit(line, ms[n - 1], rule_id));
        }
    }
}

/// Whether an edit is for a line and replaces the old name of one of the first `n` mappings, which
/// stands there, by the new one.
pub open spec fn replaces_one(
    e: EditV,
    text: Seq<char>,
    ms: Seq<(Seq<char>, Seq<char>)>,
    n: int,
    line: u32,
) -> bool {
    &&& e.line == line
    &&& contains(text, e.old_text)
    &&& exists|k: int| 0 <= k < n && e.old_text == (#[trigger] ms[k]).0 && e.new_text == ms[k].1
}

/// The edits of an import rename on one line: each replaces a name that stands on the line as its
/// mapping says, every name that stands there is replaced, by itself or with a longer one that it
/// is a part of, and the old text of none is a part of that of another.
pub proof fn law_import_line_edits(
    text: Seq<char>,
    ms: Seq<(Seq<char>, Seq<char>)>,
    line: u32,
    rule_id: Seq<char>,
)
    ensures
        ({
            let sorted = longest_first(ms, ms.len() as int);
            let edits = import_line_edits(text, sorted, sorted.len() as int, line, rule_id);
            &&& forall|i: int|
                0 <= i < edits.len() ==> replaces_one(
                    #[trigger] edits[i],
                    text,
                    ms,
                    ms.len() as int,
                    line,
                )
            &&& forall|k: int|
                0 <= k < ms.len() && changes(ms[k]) && contains(text, (#[trigger] ms[k]).0)
                    ==> covered(edits, ms[k].0)
            &&& apart(edits)
        }),
{
    let sorted = longest_first(ms, ms.len() as int);
    let edits = import_line_edits(text, sorted, sorted.len() as int, line, rule_id);
    law_longest_first(ms, ms.len() as int);
    lemma_same_mappings(ms);
    assert forall|i: int| 0 <= i < edits.len() implies replaces_one(
        #[trigger] edits[i],
        text,
        ms,
        ms.len() as int,
        line,
    ) by {
        lemma_line_sound(text, sorted, sorted.len() as int, line, rule_id, i);
        let k = choose|k: int|
            0 <= k < sorted.len() && edits[i].old_text == (#[trigger] sorted[k]).0
                && edits[i].new_text == sorted[k].1;
        assert(sorted.contains(sorted[k]));
        let j = choose|j: int| 0 <= j < ms.len() && ms[j] == sorted[k];
        assert(ms[j].0 == edits[i].old_text);
    }
    assert forall|k: int|
        0 <= k < ms.len() && changes(ms[k]) && contains(text, (#[trigger] ms[k]).0) implies covered(
        edits,
        ms[k].0,
    ) by {
        assert(ms.contains(ms[k]));
        assert(sorted.contains(ms[k]));
        let j = choose|j: int| 0 <= j < sorted.len() && sorted[j] == ms[k];
        lemma_line_covers(text, sorted, sorted.len() as int, line, rule_id, j);
    }
    assert forall|i: int, j: int|
        0 <= i < edits.len() && 0 <= j < edits.len() && i != j implies !contains(
        (#[trigger] edits[i]).old_text,
        (#[trigger] edits[j]).old_text,
    ) by {
        if i < j {
            lemma_line_order(text, sorted, sorted.len() as int, line, rule_id, i, j);
        } else if contains(edits[i].old_text, edits[j].old_text) {
            lemma_line_order(text, sorted, sorted.len() as int, line, rule_id, j, i);
            lemma_part_shorter(edits[i].old_text, edits[j].old_text);
            assert(byte_len(edits[j].old_text) >= byte_len(edits[i].old_text));
            assert(edits[i].old_text == edits[j].old_text);
            assert(!contains(edits[j].old_text, edits[i].old_text));
        }
    }
}

/// The sorted mappings are the given ones that change anything.
proof fn lemma_same_mappings(ms: Seq<(Seq<char>, Seq<char>)>)
    ensures
        forall|m: (Seq<char>, Seq<char>)|
            #[trigger] longest_first(ms, ms.len() as int).contains(m) ==> ms.contains(m)
                && changes(m),
        forall|m: (Seq<char>, Seq<char>)|
            #[trigger] ms.contains(m) && changes(m) ==> longest_first(
                ms,
                ms.len() as int,
            ).contains(m),
{
    broadcast use vstd::seq_lib::group_to_multiset_ensures;

    let sorted = longest_first(ms, ms.len() as int);
    let p = |m: (Seq<char>, Seq<char>)| changes(m);
    law_longest_first(ms, ms.len() as int);
    assert(ms.take(ms.len() as int) =~= ms);
    let kept = ms.filter(p);
    assert forall|m: (Seq<char>, Seq<char>)| #[trigger] sorted.contains(m) implies ms.contains(m)
        && changes(m) by {
        assert(sorted.to_multiset().count(m) > 0);
        assert(kept.contains(m));
        ms.lemma_filter_contains_rev(p, m);
        ms.lemma_filter_pred(p, choose|i: int| 0 <= i < kept.len() && kept[i] == m);
    }
    assert forall|m: (Seq<char>, Seq<char>)| #[trigger] ms.contains(m) && changes(m) implies
        sorted.contains(m) by {
        let i = choose|i: int| 0 <= i < ms.len() && ms[i] == m;
        ms.lemma_filter_contains(p, i);
        assert(kept.contains(m));
        assert(kept.to_multiset().count(m) > 0);
        assert(sorted.to_multiset().count(m) > 0);
    }
}

/// Whether one of some edits is for a line and replaces a name, by itself or with a longer one that
/// it is a part of.
pub open spec fn replaced_on(edits: Seq<EditV>, line: u32, name: Seq<char>) -> bool {
    exists|i: int|
        0 <= i < edits.len() && (#[trigger] edits[i]).line == line && contains(
            edits[i].old_text,
            name,
        )
}

/// Whether one of some edits is for a line and replaces a name by another.
pub open spec fn renamed_on(
    edits: Seq<EditV>,
    line: u32,
    m: (Seq<char>, Seq<char>),
) -> bool {
    exists|i: int|
        0 <= i < edits.len() && (#[trigger] edits[i]).line == line && edits[i].old_text == m.0
            && edits[i].new_text == m.1
}

proof fn lemma_import_edits(
    file: Seq<Seq<char>>,
    n: int,
    ms: Seq<(Seq<char>, Seq<char>)>,
    rule_id: Seq<char>,
    l: int,
    k: int,
)
    requires
        0 <= l < n <= file.len(),
        0 <= k < ms.len(),
        changes(ms[k]),
        contains(file[l], ms[k].0),
    ensures
        replaced_on(
            import_edits(file, n, longest_first(ms, ms.len() as int), rule_id),
            line_no(l),
            ms[k].0,
        ),
    decreases n,
{
    let sorted = longest_first(ms, ms.len() as int);
    let before = import_edits(file, n - 1, sorted, rule_id);
    let now = import_edits(file, n, sorted, rule_id);
    let more = import_line_edits(
        file[n - 1],
        sorted,
        sorted.len() as int,
        line_no(n - 1),
        rule_id,
    );
    assert(now == before + more);
    if l < n - 1 {
        lemma_import_edits(file, n - 1, ms, rule_id, l, k);
        let i = choose|i: int|
            0 <= i < before.len() && (#[trigger] before[i]).line == line_no(l) && contains(
                before[i].old_text,
                ms[k].0,
            );
        assert(now[i] == before[i]);
    } else {
        law_import_line_edits(file[n - 1], ms, line_no(n - 1), rule_id);
        assert(covered(more, ms[k].0));
        let i = choose|i: int|
            0 <= i < more.len() && contains((#[trigger] more[i]).old_text, ms[k].0);
        assert(now[before.len() + i] == more[i]);
        assert(replaces_one(more[i], file[n - 1], ms, ms.len() as int, line_no(n - 1)));
    }
}

proof fn lemma_import_edits_sound(
    file: Seq<Seq<char>>,
    n: int,
    ms: Seq<(Seq<char>, Seq<char>)>,
    rule_id: Seq<char>,
    i: int,
) -> (l: int)
    requires
        0 <= n <= file.len(),
        0 <= i < import_edits(file, n, longest_first(ms, ms.len() as int), rule_id).len(),
    ensures
        0 <= l < n,
        replaces_one(
            import_edits(file, n, longest_first(ms, ms.len() as int), rule_id)[i],
            file[l],
            ms,
            ms.len() as int,
            line_no(l),
        ),
    decreases n,
{
    let sorted = longest_first(ms, ms.len() as int);
    let before = import_edits(file, n - 1, sorted, rule_id);
    let now = import_edits(file, n, sorted, rule_id);
    let more = import_line_edits(
        file[n - 1],
        sorted,
        sorted.len() as int,
        line_no(n - 1),
        rule_id,
    );
    assert(now == before + more);
    if i < before.len() {
        assert(now[i] == before[i]);
        lemma_import_edits_sound(file, n - 1, ms, rule_id, i)
    } else {
        assert(now[i] == more[i - before.len()]);
        law_import_line_edits(file[n - 1], ms, line_no(n - 1), rule_id);
        n - 1
    }
}

/// A rename for an import goes through the whole file: wherever the old name of a mapping stands,
/// on any line, it is replaced.
pub proof fn law_import_rename_complete(
    i: IncidentV,
    line: u32,
    ms: Seq<(Seq<char>, Seq<char>)>,
    source: Seq<char>,
    rule_id: Seq<char>,
    l: int,
    k: int,
)
    requires
        i.variables.dom().contains("importedName"@),
        0 <= l < lines_of(source).len(),
        0 <= k < ms.len(),
        ms[k].0 != ms[k].1,
        contains(lines_of(source)[l], ms[k].0),
    ensures
        replaced_on(rename_edits(i, line, ms, source, rule_id), line_no(l), ms[k].0),
{
    let file = lines_of(source);
    lemma_import_edits(file, file.len() as int, ms, rule_id, l, k);
}

/// Every edit of a rename for an import replaces the old name of a mapping, which stands on the
/// line, by its new name.
pub proof fn law_import_rename_sound(
    i: IncidentV,
    line: u32,
    ms: Seq<(Seq<char>, Seq<char>)>,
    source: Seq<char>,
    rule_id: Seq<char>,
    e: int,
)
    requires
        i.variables.dom().contains("importedName"@),
        0 <= e < rename_edits(i, line, ms, source, rule_id).len(),
    ensures
        exists|l: int|
            0 <= l < lines_of(source).len() && replaces_one(
                rename_edits(i, line, ms, source, rule_id)[e],
                #[trigger] lines_of(source)[l],
                ms,
                ms.len() as int,
                line_no(l),
            ),
{
    let file = lines_of(source);
    let l = lemma_import_edits_sound(file, file.len() as int, ms, rule_id, e);
    assert(replaces_one(
        rename_edits(i, line, ms, source, rule_id)[e],
        file[l],
        ms,
        ms.len() as int,
        line_no(l),
    ));
}

proof fn lemma_line_edits(
    text: Seq<char>,
    ms: Seq<(Seq<char>, Seq<char>)>,
    n: int,
    left_out: Option<int>,
    line: u32,
    rule_id: Seq<char>,
    k: int,
)
    requires
        0 <= k < n <= ms.len(),
        ms[k].0 != ms[k].1,
        left_out != Some(k),
        contains(text, ms[k].0),
    ensures
        renamed_on(line_edits(text, ms, n, left_out, line, rule_id), line, ms[k]),
    decreases n,
{
    let before = line_edits(text, ms, n - 1, left_out, line, rule_id);
    let now = line_edits(text, ms, n, left_out, line, rule_id);
    if k < n - 1 {
        lemma_line_edits(text, ms, n - 1, left_out, line, rule_id, k);
        let i = choose|i: int|
            0 <= i < before.len() && (#[trigger] before[i]).line == line && before[i].old_text
                == ms[k].0 && before[i].new_text == ms[k].1;
        assert(now[i] == before[i]);
    } else {
        assert(now == before.push(rename_edit(line, ms[k], rule_id)));
        assert(now[before.len() as int].line == line);
    }
}

proof fn lemma_line_edits_sound(
    text: Seq<char>,
    ms: Seq<(Seq<char>, Seq<char>)>,
    n: int,
    left_out: Option<int>,
    line: u32,
    rule_id: Seq<char>,
    i: int,
)
    requires
        0 <= n <= ms.len(),
        0 <= i < line_edits(text, ms, n, left_out, line, rule_id).len(),
    ensures
        replaces_one(
            line_edits(text, ms, n, left_out, line, rule_id)[i],
            text,
            ms,
            ms.len() as int,
            line,
        ),
    decreases n,
{
    let before = line_edits(text, ms, n - 1, left_out, line, rule_id);
    let now = line_edits(text, ms, n, left_out, line, rule_id);
    if i < before.len() {
        lemma_line_edits_sound(text, ms, n - 1, left_out, line, rule_id, i);
        assert(now[i] == before[i]);
    } else {
        assert(now == before.push(rename_edit(line, ms[n - 1], rule_id)));
        assert(now[i].old_text == ms[n - 1].0);
    }
}

proof fn lemma_window_edits(
    file: Seq<Seq<char>>,
    from: int,
    to: int,
    ms: Seq<(Seq<char>, Seq<char>)>,
    primary: int,
    line: u32,
    rule_id: Seq<char>,
    l: int,
    k: int,
)
    requires
        0 <= from <= l < to <= file.len(),
        0 <= k < ms.len(),
        ms[k].0 != ms[k].1,
        !(line_no(l) == line && k == primary),
        contains(file[l], ms[k].0),
    ensures
        renamed_on(window_edits(file, from, to, ms, primary, line, rule_id), line_no(l), ms[k]),
    decreases to - from,
{
    let before = window_edits(file, from, to - 1, ms, primary, line, rule_id);
    let left_out = if line_no(to - 1) == line {
        Some(primary)
    } else {
        None
    };
    let more = line_edits(
        file[to - 1],
        ms,
        ms.len() as int,
        left_out,
        line_no(to - 1),
        rule_id,
    );
    let now = window_edits(file, from, to, ms, primary, line, rule_id);
    assert(now == before + more);
    if l < to - 1 {
        lemma_window_edits(file, from, to - 1, ms, primary, line, rule_id, l, k);
        let i = choose|i: int|
            0 <= i < before.len() && (#[trigger] before[i]).line == line_no(l)
                && before[i].old_text == ms[k].0 && before[i].new_text == ms[k].1;
        assert(now[i] == before[i]);
    } else {
        lemma_line_edits(
            file[l],
            ms,
            ms.len() as int,
            left_out,
            line_no(l),
            rule_id,
            k,
        );
        let i = choose|i: int|
            0 <= i < more.len() && (#[trigger] more[i]).line == line_no(l) && more[i].old_text
                == ms[k].0 && more[i].new_text == ms[k].1;
        assert(now[before.len() + i] == more[i]);
    }
}

proof fn lemma_mapping_index(ms: Seq<(Seq<char>, Seq<char>)>, name: Seq<char>, k: int, from: int)
    requires
        0 <= from <= k < ms.len(),
        ms[k].0 == name,
        forall|j: int| 0 <= j < k ==> (#[trigger] ms[j]).0 != name,
    ensures
        mapping_index(ms, name, from) == Some(k),
    decreases k - from,
{
    if from < k {
        assert(ms[from].0 != name);
        lemma_mapping_index(ms, name, k, from + 1);
    }
}

/// A rename for an incident whose text is the old name of a mapping replaces that name on the line
/// of the incident.
pub proof fn law_rename_primary(
    i: IncidentV,
    line: u32,
    ms: Seq<(Seq<char>, Seq<char>)>,
    source: Seq<char>,
    rule_id: Seq<char>,
    k: int,
)
    requires
        !i.variables.dom().contains("importedName"@),
        0 <= k < ms.len(),
        ms[k].0 == matched_text(i),
        forall|j: int| 0 <= j < k ==> (#[trigger] ms[j]).0 != matched_text(i),
        ms[k].0 != ms[k].1,
    ensures
        renamed_on(rename_edits(i, line, ms, source, rule_id), line, ms[k]),
{
    lemma_mapping_index(ms, matched_text(i), k, 0);
    let edits = rename_edits(i, line, ms, source, rule_id);
    assert(edits[0] == rename_edit(line, ms[k], rule_id));
}

/// Such a rename also replaces the old name of every mapping on the lines around the incident: from
/// three lines before it up to four lines after it.
pub proof fn law_rename_around(
    i: IncidentV,
    line: u32,
    ms: Seq<(Seq<char>, Seq<char>)>,
    source: Seq<char>,
    rule_id: Seq<char>,
    p: int,
    l: int,
    k: int,
)
    requires
        !i.variables.dom().contains("importedName"@),
        0 <= p < ms.len(),
        ms[p].0 == matched_text(i),
        forall|j: int| 0 <= j < p ==> (#[trigger] ms[j]).0 != matched_text(i),
        ms[p].0 != ms[p].1,
        line >= 1,
        line - 1 - 3 <= l <= line - 1 + 4,
        0 <= l < lines_of(source).len(),
        0 <= k < ms.len(),
        ms[k].0 != ms[k].1,
        contains(lines_of(source)[l], ms[k].0),
    ensures
        renamed_on(rename_edits(i, line, ms, source, rule_id), line_no(l), ms[k]),
{
    lemma_mapping_index(ms, matched_text(i), p, 0);
    let file = lines_of(source);
    let edits = rename_edits(i, line, ms, source, rule_id);
    let from = at_least_zero(line_index(line) - 3);
    let to = least(line_index(line) + 5, file.len() as int);
    let around = window_edits(file, from, to, ms, p, line, rule_id);
    assert(edits == seq![rename_edit(line, ms[p], rule_id)] + around);
    if line_no(l) == line && k == p {
        assert(edits[0] == rename_edit(line, ms[p], rule_id));
    } else {
        lemma_window_edits(file, from, to, ms, p, line, rule_id, l, k);
        let x = choose|x: int|
            0 <= x < around.len() && (#[trigger] around[x]).line == line_no(l)
                && around[x].old_text == ms[k].0 && around[x].new_text == ms[k].1;
        assert(edits[x + 1] == around[x]);
    }
}

proof fn lemma_window_sound(
    file: Seq<Seq<char>>,
    from: int,
    to: int,
    ms: Seq<(Seq<char>, Seq<char>)>,
    primary: int,
    line: u32,
    rule_id: Seq<char>,
    i: int,
) -> (l: int)
    requires
        0 <= from,
        to <= file.len(),
        0 <= i < window_edits(file, from, to, ms, primary, line, rule_id).len(),
    ensures
        from <= l < to,
        replaces_one(
            window_edits(file, from, to, ms, primary, line, rule_id)[i],
            file[l],
            ms,
            ms.len() as int,
            line_no(l),
        ),
    decreases to - from,
{
    let before = window_edits(file, from, to - 1, ms, primary, line, rule_id);
    let left_out = if line_no(to - 1) == line {
        Some(primary)
    } else {
        None
    };
    let more = line_edits(
        file[to - 1],
        ms,
        ms.len() as int,
        left_out,
        line_no(to - 1),
        rule_id,
    );
    let now = window_edits(file, from, to, ms, primary, line, rule_id);
    assert(now == before + more);
    if i < before.len() {
        assert(now[i] == before[i]);
        lemma_window_sound(file, from, to - 1, ms, primary, line, rule_id, i)
    } else {
        assert(now[i] == more[i - before.len()]);
        lemma_line_edits_sound(
            file[to - 1],
            ms,
            ms.len() as int,
            left_out,
            line_no(to - 1),
            rule_id,
            i - before.len(),
        );
        to - 1
    }
}

/// Such a rename changes nothing else: each of its edits is the one on the line of the incident, or
/// replaces a name that stands on one of the lines around it.
pub proof fn law_rename_only_around(
    i: IncidentV,
    line: u32,
    ms: Seq<(Seq<char>, Seq<char>)>,
    source: Seq<char>,
    rule_id: Seq<char>,
    e: int,
)
    requires
        !i.variables.dom().contains("importedName"@),
        mapping_index(ms, matched_text(i), 0) is Some,
        line >= 1,
        0 <= e < rename_edits(i, line, ms, source, rule_id).len(),
    ensures
        ({
            let edit = rename_edits(i, line, ms, source, rule_id)[e];
            ||| edit.line == line && edit.old_text == matched_text(i)
            ||| exists|l: int|
                {
                    &&& line - 1 - 3 <= l <= line - 1 + 4
                    &&& 0 <= l < lines_of(source).len()
                    &&& replaces_one(
                        edit,
                        #[trigger] lines_of(source)[l],
                        ms,
                        ms.len() as int,
                        line_no(l),
                    )
                }
        }),
{
    let file = lines_of(source);
    let p = mapping_index(ms, matched_text(i), 0)->0;
    lemma_mapping_found(ms, matched_text(i), 0);
    let from = at_least_zero(line_index(line) - 3);
    let to = least(line_index(line) + 5, file.len() as int);
    let around = window_edits(file, from, to, ms, p, line, rule_id);
    let edits = rename_edits(i, line, ms, source, rule_id);
    assert(edits == seq![rename_edit(line, ms[p], rule_id)] + around);
    if e > 0 {
        assert(edits[e] == around[e - 1]);
        let l = lemma_window_sound(file, from, to, ms, p, line, rule_id, e - 1);
        assert(replaces_one(edits[e], file[l], ms, ms.len() as int, line_no(l)));
    }
}

proof fn lemma_mapping_found(ms: Seq<(Seq<char>, Seq<char>)>, name: Seq<char>, from: int)
    requires
        0 <= from,
        mapping_index(ms, name, from) is Some,
    ensures
        from <= mapping_index(ms, name, from)->0 < ms.len(),
        ms[mapping_index(ms, name, from)->0].0 == name,
    decreases ms.len() - from,
{
    if ms[from].0 != name {
        lemma_mapping_found(ms, name, from + 1);
    }
}

/// A rename for any other incident replaces, on its line, the old name of every mapping that stands
/// there, and nothing else.
pub proof fn law_rename_on_line(
    i: IncidentV,
    line: u32,
    ms: Seq<(Seq<char>, Seq<char>)>,
    source: Seq<char>,
    rule_id: Seq<char>,
    k: int,
)
    requires
        !i.variables.dom().contains("importedName"@),
        mapping_index(ms, matched_text(i), 0) is None,
        1 <= line <= lines_of(source).len(),
        0 <= k < ms.len(),
        ms[k].0 != ms[k].1,
    ensures
        contains(lines_of(source)[line - 1], ms[k].0) ==> renamed_on(
            rename_edits(i, line, ms, source, rule_id),
            line,
            ms[k],
        ),
        forall|e: int|
            0 <= e < rename_edits(i, line, ms, source, rule_id).len() ==> replaces_one(
                #[trigger] rename_edits(i, line, ms, source, rule_id)[e],
                lines_of(source)[line - 1],
                ms,
                ms.len() as int,
                line,
            ),
{
    let text = lines_of(source)[line - 1];
    let edits = rename_edits(i, line, ms, source, rule_id);
    assert(edits == line_edits(text, ms, ms.len() as int, None, line, rule_id));
    if contains(text, ms[k].0) {
        lemma_line_edits(text, ms, ms.len() as int, None, line, rule_id, k);
    }
    assert forall|e: int| 0 <= e < edits.len() implies replaces_one(
        #[trigger] edits[e],
        text,
        ms,
        ms.len() as int,
        line,
    ) by {
        lemma_line_edits_sound(text, ms, ms.len() as int, None, line, rule_id, e);
    }
}

/// Names are looked for by the bytes that they take: a part of a name is shorter than the name.
pub proof fn law_part_is_shorter(name: Seq<char>, part: Seq<char>)
    requires
        contains(name, part),
        part != name,
    ensures
        byte_len(part) < byte_len(name),
{
    lemma_part_shorter(name, part);
}

} // verus!
