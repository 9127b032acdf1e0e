//! What holds of the application of fixes as a whole.

use crate::apply::{
    apply_all, apply_edit, apply_edits, counted, deduped, file_preview, import_line, import_parts,
    import_pattern, imports_names, lacks, law_preview_is_applied, lemma_import_parts_once,
    lemma_unique_names, names_in, new_content, outcome, preview_all, preview_edit, preview_edits,
    shown_line, tidy_list, unique_names, untouched, with_file, Applied, ResultV,
};
use crate::fix::{EditV, FixV};
use crate::fixers::line_index;
use crate::pattern::regex_valid;
use crate::text::{
    contains, is_space, join, lemma_split_len, lines_of, split, trim_end, trim_start, trimmed,
};
use vstd::prelude::*;

verus! {

// ---- Imported names ----

/// Where the names among the first `n` parts occur for the first time.
pub open spec fn name_places(parts: Seq<Seq<char>>, n: int) -> Seq<int>
    decreases n,
{
    if n <= 0 || n > parts.len() {
        Seq::empty()
    } else {
        let name = trimmed(parts[n - 1]);
        if name.len() == 0 || unique_names(parts, n - 1).contains(name) {
            name_places(parts, n - 1)
        } else {
            name_places(parts, n - 1).push(n - 1)
        }
    }
}

/// The names of a list stand in the order in which they occur for the first time: each is the
/// part at its place, no earlier part is the same name, and the places rise.
pub proof fn law_names_in_order(parts: Seq<Seq<char>>, n: int)
    requires
        0 <= n <= parts.len(),
    ensures
        name_places(parts, n).len() == unique_names(parts, n).len(),
        forall|i: int|
            0 <= i < name_places(parts, n).len() ==> 0 <= #[trigger] name_places(parts, n)[i] < n
                && trimmed(parts[name_places(parts, n)[i]]) == unique_names(parts, n)[i],
        forall|i: int, k: int|
            0 <= i < name_places(parts, n).len() && 0 <= k < name_places(parts, n)[i] ==> trimmed(
                #[trigger] parts[k],
            ) != #[trigger] unique_names(parts, n)[i],
        forall|i: int, j: int|
            0 <= i < j < name_places(parts, n).len() ==> name_places(parts, n)[i] < name_places(
                parts,
                n,
            )[j],
    decreases n,
{
    if n > 0 {
        law_names_in_order(parts, n - 1);
        let name = trimmed(parts[n - 1]);
        let before = unique_names(parts, n - 1);
        let places = name_places(parts, n - 1);
        if name.len() > 0 && !before.contains(name) {
            lemma_unique_names(parts, n - 1);
            assert(unique_names(parts, n) == before.push(name));
            assert(name_places(parts, n) == places.push(n - 1));
            assert forall|k: int| 0 <= k < n - 1 implies trimmed(#[trigger] parts[k]) != name by {
                if trimmed(parts[k]) == name {
                    assert(before.contains(trimmed(parts[k])));
                }
            }
        }
    }
}

/// Whether a text has no white space at its beginning and none at its end.
spec fn is_trim(s: Seq<char>) -> bool {
    s.len() > 0 ==> !is_space(s[0]) && !is_space(s.last())
}

proof fn lemma_parts_lack(s: Seq<char>, c: char)
    requires
        c == ',' || lacks(s, c),
    ensures
        forall|k: int| 0 <= k < split(s, ',').len() ==> lacks(#[trigger] split(s, ',')[k], c),
    decreases s.len(),
{
    if s.len() > 0 {
        lemma_parts_lack(s.drop_last(), c);
        lemma_split_len(s.drop_last(), ',');
        let before = split(s.drop_last(), ',');
        assert(lacks(before[before.len() - 1], c));
        assert(s[s.len() - 1] == s.last());
    }
}

proof fn lemma_trim_start(s: Seq<char>, c: char)
    requires
        lacks(s, c),
    ensures
        lacks(trim_start(s), c),
        trim_start(s).len() > 0 ==> !is_space(trim_start(s)[0]),
    decreases s.len(),
{
    if s.len() > 0 && is_space(s[0]) {
        lemma_trim_start(s.skip(1), c);
    }
}

proof fn lemma_trim_end(s: Seq<char>, c: char)
    requires
        lacks(s, c),
        s.len() > 0 ==> !is_space(s[0]),
    ensures
        lacks(trim_end(s), c),
        is_trim(trim_end(s)),
    decreases s.len(),
{
    if s.len() > 0 && is_space(s.last()) {
        lemma_trim_end(s.drop_last(), c);
    }
}

proof fn lemma_names_lack(parts: Seq<Seq<char>>, n: int, c: char)
    requires
        forall|k: int| 0 <= k < parts.len() ==> lacks(#[trigger] parts[k], c),
    ensures
        forall|i: int|
            0 <= i < unique_names(parts, n).len() ==> lacks(#[trigger] unique_names(parts, n)[i], c)
                && is_trim(unique_names(parts, n)[i]),
    decreases n,
{
    if 0 < n <= parts.len() {
        lemma_names_lack(parts, n - 1, c);
        assert(lacks(parts[n - 1], c));
        lemma_trim_start(parts[n - 1], c);
        lemma_trim_end(trim_start(parts[n - 1]), c);
        let before = unique_names(parts, n - 1);
        assert(unique_names(parts, n) == before || unique_names(parts, n) == before.push(
            trimmed(parts[n - 1]),
        ));
    }
}

/// What has no comma lengthens the last part.
proof fn lemma_split_longer(s: Seq<char>, t: Seq<char>)
    requires
        lacks(t, ','),
    ensures
        split(s + t, ',') == split(s, ',').update(
            split(s, ',').len() - 1,
            split(s, ',').last() + t,
        ),
    decreases t.len(),
{
    let before = split(s, ',');
    lemma_split_len(s, ',');
    if t.len() == 0 {
        assert(s + t =~= s);
        assert(before.last() + t =~= before.last());
        assert(before.update(before.len() - 1, before.last()) =~= before);
    } else {
        lemma_split_longer(s, t.drop_last());
        assert((s + t).drop_last() =~= s + t.drop_last());
        let shorter = split(s + t.drop_last(), ',');
        assert(shorter.last() == before.last() + t.drop_last());
        assert((before.last() + t.drop_last()).push(t.last()) =~= before.last() + t);
        assert(split(s + t, ',') =~= before.update(before.len() - 1, before.last() + t));
    }
}

/// The parts of names that are joined: each name, after a space.
spec fn spaced(names: Seq<Seq<char>>) -> Seq<Seq<char>> {
    names.map_values(|name: Seq<char>| seq![' '] + name)
}

proof fn lemma_split_joined(names: Seq<Seq<char>>)
    requires
        names.len() > 0,
        forall|i: int| 0 <= i < names.len() ==> lacks(#[trigger] names[i], ','),
    ensures
        split(seq![' '] + join(names, seq![',', ' ']), ',') == spaced(names),
    decreases names.len(),
{
    let sep = seq![',', ' '];
    let last = names.last();
    assert(lacks(last, ','));
    assert(lacks(seq![' '] + last, ','));
    if names.len() == 1 {
        let none = Seq::<char>::empty();
        lemma_split_longer(none, seq![' '] + last);
        assert(none + (seq![' '] + last) =~= seq![' '] + join(names, sep));
        assert(split(seq![' '] + join(names, sep), ',') =~= spaced(names));
    } else {
        let front = names.drop_last();
        lemma_split_joined(front);
        let head = seq![' '] + join(front, sep);
        assert(head.push(',').drop_last() =~= head);
        assert(split(head.push(','), ',') == split(head, ',').push(Seq::empty()));
        lemma_split_longer(head.push(','), seq![' '] + last);
        assert(head.push(',') + (seq![' '] + last) =~= seq![' '] + join(names, sep));
        assert(Seq::<char>::empty() + (seq![' '] + last) =~= seq![' '] + last);
        assert(split(seq![' '] + join(names, sep), ',') =~= spaced(names));
    }
}

proof fn lemma_trimmed_of_spaced(name: Seq<char>)
    requires
        is_trim(name),
        name.len() > 0,
    ensures
        trimmed(seq![' '] + name) == name,
        trimmed((seq![' '] + name) + seq![' ']) == name,
{
    let a = seq![' '] + name;
    assert(a.skip(1) =~= name);
    assert(trim_start(a) == trim_start(name));
    assert(trim_start(name) == name);
    assert(trim_end(name) == name);
    let b = a + seq![' '];
    let c = name + seq![' '];
    assert(b.skip(1) =~= c);
    assert(trim_start(b) == trim_start(c));
    assert(c[0] == name[0]);
    assert(trim_start(c) == c);
    assert(c.drop_last() =~= name);
    assert(trim_end(c) == trim_end(name));
}

proof fn lemma_names_again(parts: Seq<Seq<char>>, names: Seq<Seq<char>>, n: int)
    requires
        0 <= n <= parts.len(),
        parts.len() == names.len(),
        names.no_duplicates(),
        forall|i: int|
            0 <= i < names.len() ==> trimmed(#[trigger] parts[i]) == names[i] && names[i].len() > 0,
    ensures
        unique_names(parts, n) == names.take(n),
    decreases n,
{
    if n > 0 {
        lemma_names_again(parts, names, n - 1);
        assert(trimmed(parts[n - 1]) == names[n - 1]);
        let before = names.take(n - 1);
        if before.contains(names[n - 1]) {
            let i = choose|i: int| 0 <= i < before.len() && before[i] == names[n - 1];
            assert(names[i] == names[n - 1]);
        }
        assert(before.push(names[n - 1]) =~= names.take(n));
    } else {
        assert(unique_names(parts, n) =~= names.take(n));
    }
}

/// Removing repeated names a second time changes nothing: the names of a tidy list are those of
/// the list, and the list stays as it is.
pub proof fn law_names_settle(prefix: Seq<char>, list: Seq<char>, suffix: Seq<char>)
    ensures
        names_in(tidy_list(list)) == names_in(list),
        tidy_list(tidy_list(list)) == tidy_list(list),
        import_line(prefix, tidy_list(list), suffix) == import_line(prefix, list, suffix),
{
    reveal_strlit(" ");
    reveal_strlit(", ");
    assert(" "@ =~= seq![' ']);
    assert(", "@ =~= seq![',', ' ']);
    let parts = split(list, ',');
    let names = names_in(list);
    lemma_unique_names(parts, parts.len() as int);
    lemma_parts_lack(list, ',');
    lemma_names_lack(parts, parts.len() as int, ',');
    let tidy = tidy_list(list);
    let again = split(tidy, ',');
    if names.len() == 0 {
        let blank = seq![' ', ' '];
        assert(tidy =~= Seq::<char>::empty() + blank);
        lemma_split_longer(Seq::empty(), blank);
        assert(again.len() == 1);
        assert(again[0] =~= blank);
        assert(blank.skip(1).skip(1) =~= Seq::<char>::empty());
        assert(trim_start(blank) == trim_start(blank.skip(1)));
        assert(trim_start(blank.skip(1)) == trim_start(blank.skip(1).skip(1)));
        assert(trimmed(again[0]).len() == 0);
        assert(unique_names(again, 0) =~= Seq::<Seq<char>>::empty());
        assert(unique_names(again, 1) == unique_names(again, 0));
        assert(names_in(tidy) =~= names);
    } else {
        let head = seq![' '] + join(names, seq![',', ' ']);
        lemma_split_joined(names);
        lemma_split_longer(head, seq![' ']);
        assert(tidy =~= head + seq![' ']);
        assert forall|i: int| 0 <= i < names.len() implies trimmed(#[trigger] again[i]) == names[i]
            && names[i].len() > 0 by {
            assert(names[i].len() > 0);
            lemma_trimmed_of_spaced(names[i]);
            assert(spaced(names)[i] == seq![' '] + names[i]);
        }
        lemma_names_again(again, names, names.len() as int);
        assert(names.take(names.len() as int) =~= names);
    }
}

/// A line that imports names is rewritten around its list, if the pattern compiles; any other line
/// stays as it is.
pub proof fn law_dedup_line(line: Seq<char>, head: Seq<char>, list: Seq<char>, tail: Seq<char>)
    ensures
        regex_valid(import_pattern()) && import_parts(line, head, list, tail) ==> deduped(line)
            == import_line(head, list, tail),
        !imports_names(line) ==> deduped(line) == line,
{
    if import_parts(line, head, list, tail) {
        let (h, l, t) = choose|h: Seq<char>, l: Seq<char>, t: Seq<char>| import_parts(line, h, l, t);
        lemma_import_parts_once(line, h, l, t, head, list, tail);
    }
}

proof fn lemma_join_lacks(names: Seq<Seq<char>>, c: char)
    requires
        c != ',' && c != ' ',
        forall|i: int| 0 <= i < names.len() ==> lacks(#[trigger] names[i], c),
    ensures
        lacks(join(names, seq![',', ' ']), c),
    decreases names.len(),
{
    if names.len() == 1 {
        assert(lacks(names[0], c));
    } else if names.len() > 1 {
        let front = names.drop_last();
        assert forall|i: int| 0 <= i < front.len() implies lacks(#[trigger] front[i], c) by {
            assert(front[i] == names[i]);
        }
        lemma_join_lacks(front, c);
        assert(lacks(names[names.len() - 1], c));
    }
}

/// Removing repeated names from a line a second time changes nothing.
pub proof fn law_dedup_settles(line: Seq<char>)
    ensures
        deduped(deduped(line)) == deduped(line),
{
    if regex_valid(import_pattern()) && imports_names(line) {
        let (head, list, tail) = choose|h: Seq<char>, l: Seq<char>, t: Seq<char>|
            import_parts(line, h, l, t);
        let tidy = tidy_list(list);
        let parts = split(list, ',');
        reveal_strlit(" ");
        reveal_strlit(", ");
        assert(" "@ =~= seq![' ']);
        assert(", "@ =~= seq![',', ' ']);
        lemma_parts_lack(list, '}');
        lemma_names_lack(parts, parts.len() as int, '}');
        lemma_join_lacks(names_in(list), '}');
        assert(lacks(tidy, '}'));
        assert(import_parts(deduped(line), head, tidy, tail));
        law_dedup_line(deduped(line), head, tidy, tail);
        law_names_settle(head, list, tail);
    }
}

/// Removing repeated names from lines keeps their number, and a second time changes nothing.
pub proof fn law_dedup_twice(lines: Seq<Seq<char>>)
    ensures
        ({
            let new = lines.map_values(|l: Seq<char>| deduped(l));
            new.len() == lines.len() && new.map_values(|l: Seq<char>| deduped(l)) == new
        }),
{
    let new = lines.map_values(|l: Seq<char>| deduped(l));
    let again = new.map_values(|l: Seq<char>| deduped(l));
    assert forall|i: int| 0 <= i < new.len() implies again[i] == new[i] by {
        law_dedup_settles(lines[i]);
    }
    assert(again =~= new);
}

// ---- Previews ----

/// Whether an edit finds its old text in a file.
spec fn finds(file: Seq<Seq<char>>, key: (u32, Seq<char>, Seq<char>)) -> bool {
    line_index(key.0) < file.len() && contains(file[line_index(key.0)], key.1)
}

/// Whether the application of edits to a file and their preview have come equally far: nothing is
/// applied exactly where nothing is shown, and then no edit met so far finds its old text.
spec fn in_step(a: Applied, file: Seq<Seq<char>>, changed: Seq<Option<Seq<char>>>) -> bool {
    &&& changed.len() == file.len()
    &&& (a.applied == 0) == (forall|k: int| 0 <= k < changed.len() ==> (#[trigger] changed[k]) is None)
    &&& a.applied == 0 ==> a.file == file && forall|i: int|
        0 <= i < a.seen.len() ==> !finds(file, #[trigger] a.seen[i])
}

proof fn lemma_edit_in_step(
    a: Applied,
    file: Seq<Seq<char>>,
    changed: Seq<Option<Seq<char>>>,
    e: EditV,
)
    requires
        in_step(a, file, changed),
    ensures
        in_step(apply_edit(a, e), file, preview_edit(file, changed, e)),
{
    let at = line_index(e.line);
    let key = (e.line, e.old_text, e.new_text);
    let now = preview_edit(file, changed, e);
    if a.applied > 0 {
        let k = choose|k: int| 0 <= k < changed.len() && (#[trigger] changed[k]) is Some;
        assert(now[k] is Some);
    } else if at < file.len() {
        assert(changed[at] is None);
        if a.seen.contains(key) {
            let i = choose|i: int| 0 <= i < a.seen.len() && a.seen[i] == key;
            assert(!finds(file, a.seen[i]));
        } else if contains(file[at], e.old_text) {
            assert(now[at] is Some);
        }
    }
}

proof fn lemma_edits_in_step(
    a: Applied,
    file: Seq<Seq<char>>,
    changed: Seq<Option<Seq<char>>>,
    edits: Seq<EditV>,
    n: int,
)
    requires
        in_step(a, file, changed),
    ensures
        in_step(apply_edits(a, edits, n), file, preview_edits(file, changed, edits, n)),
    decreases n,
{
    if 0 < n <= edits.len() {
        lemma_edits_in_step(a, file, changed, edits, n - 1);
        lemma_edit_in_step(
            apply_edits(a, edits, n - 1),
            file,
            preview_edits(file, changed, edits, n - 1),
            edits[n - 1],
        );
    }
}

proof fn lemma_fixes_in_step(source: Seq<char>, fixes: Seq<FixV>, n: int)
    ensures
        in_step(
            apply_all(untouched(source), fixes, n),
            lines_of(source),
            preview_all(lines_of(source), fixes, n),
        ),
    decreases n,
{
    if 0 < n <= fixes.len() {
        lemma_fixes_in_step(source, fixes, n - 1);
        lemma_edits_in_step(
            apply_all(untouched(source), fixes, n - 1),
            lines_of(source),
            preview_all(lines_of(source), fixes, n - 1),
            fixes[n - 1].edits,
            fixes[n - 1].edits.len() as int,
        );
    }
}

/// A preview shows a file exactly where applying the fixes counts it as modified and writes it.
pub proof fn law_preview_shows_modified(
    r: ResultV,
    path: Seq<char>,
    source: Seq<char>,
    fixes: Seq<FixV>,
)
    ensures
        (file_preview(path, source, fixes).len() > 0) == (outcome(source, fixes).applied > 0),
        (file_preview(path, source, fixes).len() > 0) == (new_content(Ok(source), fixes) is Some),
        with_file(r, path, Ok(source), fixes).files_modified == if file_preview(
            path,
            source,
            fixes,
        ).len() > 0 {
            counted(r.files_modified + 1)
        } else {
            r.files_modified
        },
{
    reveal_strlit("--- a/");
    lemma_fixes_in_step(source, fixes, fixes.len() as int);
    let file = lines_of(source);
    let changed = preview_all(file, fixes, fixes.len() as int);
    if outcome(source, fixes).applied > 0 {
        let k = choose|k: int| 0 <= k < changed.len() && (#[trigger] changed[k]) is Some;
        assert(changed[k] is Some);
    }
}

/// Where no edit stands in the plan twice, a preview shows each changed line as it was and as it
/// will be written.
pub proof fn law_preview_lines(source: Seq<char>, fixes: Seq<FixV>, k: int)
    requires
        crate::apply::all_keys(fixes, fixes.len() as int).no_duplicates(),
        0 <= k < lines_of(source).len(),
    ensures
        ({
            let file = lines_of(source);
            let changed = preview_all(file, fixes, fixes.len() as int);
            let written = outcome(source, fixes).file.map_values(|l: Seq<char>| deduped(l));
            changed[k] is Some ==> shown_line(file[k], changed[k]) == "-"@ + file[k] + "\n+"@
                + written[k] + "\n"@
        }),
{
    law_preview_is_applied(source, fixes, k);
}

} // verus!
