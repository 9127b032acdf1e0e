//! Applying planned fixes to source texts, and previewing them.

use crate::engine::content_models;
use crate::fix::{
    edit_models, fix_models, EditV, FixPlan, FixResult, FixV, PlannedFix, TextEdit,
};
use crate::fixers::{at_least_zero, index_of_line, least, line_index};
use crate::pattern::{regex_source, regex_valid};
use crate::text::{
    chars_of, concat3, contains, decimal, is_space, join, join_texts, lines, lines_of,
    replace_first, replaced_first, same, show_number, split, split_on, texts, trim, trimmed,
};
use vstd::prelude::*;

verus! {

/// The regular expression for a line that imports names: what precedes the names, the names,
/// what follows them.
pub open spec fn import_pattern() -> Seq<char> {
    "^(\\s*import\\s+\\{)([^}]+)(\\}\\s*from\\s+.*)$"@
}

/// The names among the first `n` parts, each once and without the space around it.
pub open spec fn unique_names(parts: Seq<Seq<char>>, n: int) -> Seq<Seq<char>>
    decreases n,
{
    if n <= 0 || n > parts.len() {
        Seq::empty()
    } else {
        let before = unique_names(parts, n - 1);
        let name = trimmed(parts[n - 1]);
        if name.len() == 0 || before.contains(name) {
            before
        } else {
            before.push(name)
        }
    }
}

/// The names of a list with commas between them, each once.
pub open spec fn names_in(list: Seq<char>) -> Seq<Seq<char>> {
    unique_names(split(list, ','), split(list, ',').len() as int)
}

/// A list with each of its names once, as it stands between braces.
pub open spec fn tidy_list(list: Seq<char>) -> Seq<char> {
    " "@ + join(names_in(list), ", "@) + " "@
}

/// An import line with each of its names once.
pub open spec fn import_line(prefix: Seq<char>, list: Seq<char>, suffix: Seq<char>) -> Seq<char> {
    prefix + tidy_list(list) + suffix
}

/// Whether a text is white space, or empty.
pub open spec fn is_blank(s: Seq<char>) -> bool {
    forall|i: int| 0 <= i < s.len() ==> is_space(#[trigger] s[i])
}

/// Whether a character does not occur in a text.
pub open spec fn lacks(s: Seq<char>, c: char) -> bool {
    forall|i: int| 0 <= i < s.len() ==> #[trigger] s[i] != c
}

/// What precedes the names of an import: the keyword, after white space or none, and a brace,
/// after some.
pub open spec fn head_with(before: Seq<char>, after: Seq<char>) -> Seq<char> {
    before + "import"@ + after + "{"@
}

/// Whether a text is what precedes the names of an import.
pub open spec fn is_import_head(s: Seq<char>) -> bool {
    exists|a: Seq<char>, b: Seq<char>|
        s == #[trigger] head_with(a, b) && is_blank(a) && is_blank(b) && b.len() > 0
}

/// What follows the names of an import: a brace, the keyword, after white space or none, and the
/// rest of the line, after some.
pub open spec fn tail_with(before: Seq<char>, after: Seq<char>, rest: Seq<char>) -> Seq<char> {
    "}"@ + before + "from"@ + after + rest
}

/// Whether a text is what follows the names of an import.
pub open spec fn is_import_tail(s: Seq<char>) -> bool {
    exists|a: Seq<char>, b: Seq<char>, rest: Seq<char>|
        s == #[trigger] tail_with(a, b, rest) && is_blank(a) && is_blank(b) && b.len() > 0
            && lacks(rest, '\n')
}

/// Whether a line imports names: what precedes them, the names, and what follows them.
pub open spec fn import_parts(
    line: Seq<char>,
    head: Seq<char>,
    list: Seq<char>,
    tail: Seq<char>,
) -> bool {
    &&& line == head + list + tail
    &&& is_import_head(head)
    &&& list.len() > 0
    &&& lacks(list, '}')
    &&& is_import_tail(tail)
}

/// Whether a line imports names.
pub open spec fn imports_names(line: Seq<char>) -> bool {
    exists|head: Seq<char>, list: Seq<char>, tail: Seq<char>| import_parts(line, head, list, tail)
}

/// The groups of the match that `Regex::captures` returns for the pattern of import lines. By what
/// `regex` documents of that pattern (`^` and `$` for the ends of the text, `\s` for Unicode white
/// space, `.` for anything but a line feed), there is a match exactly where the line imports names,
/// and the groups are what precedes the names, the names, and what follows them.
#[verifier::external_body]
fn capture_import(re: &regex::Regex, line: &str) -> (r: Option<(String, String, String)>)
    requires
        regex_source(*re) == import_pattern(),
    ensures
        match r {
            Some(g) => import_parts(line@, g.0@, g.1@, g.2@),
            None => !imports_names(line@),
        },
{
    re.captures(line).map(|c| (c[1].to_owned(), c[2].to_owned(), c[3].to_owned()))
}

/// A line with the names it imports given once each; any other line as it is.
pub open spec fn deduped(line: Seq<char>) -> Seq<char> {
    if regex_valid(import_pattern()) && imports_names(line) {
        let (head, list, tail) = choose|head: Seq<char>, list: Seq<char>, tail: Seq<char>|
            import_parts(line, head, list, tail);
        import_line(head, list, tail)
    } else {
        line
    }
}

/// What precedes the names of an import ends with its only opening brace.
proof fn lemma_import_head(s: Seq<char>)
    requires
        is_import_head(s),
    ensures
        s.len() > 0,
        s.last() == '{',
        lacks(s.drop_last(), '{'),
{
    let (a, b) = choose|a: Seq<char>, b: Seq<char>|
        s == #[trigger] head_with(a, b) && is_blank(a) && is_blank(b) && b.len() > 0;
    reveal_strlit("import");
    reveal_strlit("{");
    assert("import"@ =~= seq!['i', 'm', 'p', 'o', 'r', 't']);
    assert("{"@ =~= seq!['{']);
    let front = a + "import"@ + b;
    assert(s =~= front.push('{'));
    assert(s.drop_last() =~= front);
    assert forall|i: int| 0 <= i < front.len() implies #[trigger] front[i] != '{' by {
        if i < a.len() {
            assert(front[i] == a[i]);
        } else if i < a.len() + 6 {
            assert(front[i] == "import"@[i - a.len()]);
        } else {
            assert(front[i] == b[i - a.len() - 6]);
        }
    }
}

/// What follows the names of an import begins with a closing brace.
proof fn lemma_import_tail(s: Seq<char>)
    requires
        is_import_tail(s),
    ensures
        s.len() > 0,
        s[0] == '}',
{
    let (a, b, rest) = choose|a: Seq<char>, b: Seq<char>, rest: Seq<char>|
        s == #[trigger] tail_with(a, b, rest) && is_blank(a) && is_blank(b) && b.len() > 0 && lacks(
            rest,
            '\n',
        );
    reveal_strlit("}");
    assert("}"@ =~= seq!['}']);
    assert(s[0] == "}"@[0]);
}

/// A line is taken apart in one way only.
pub proof fn lemma_import_parts_once(
    line: Seq<char>,
    head: Seq<char>,
    list: Seq<char>,
    tail: Seq<char>,
    head2: Seq<char>,
    list2: Seq<char>,
    tail2: Seq<char>,
)
    requires
        import_parts(line, head, list, tail),
        import_parts(line, head2, list2, tail2),
    ensures
        head == head2,
        list == list2,
        tail == tail2,
{
    lemma_import_head(head);
    lemma_import_head(head2);
    lemma_import_tail(tail);
    lemma_import_tail(tail2);
    let n = head.len() as int;
    let m = head2.len() as int;
    assert(line[n - 1] == head[n - 1]);
    assert(line[m - 1] == head2[m - 1]);
    if n < m {
        assert(line[n - 1] == head2.drop_last()[n - 1]);
    } else if m < n {
        assert(line[m - 1] == head.drop_last()[m - 1]);
    }
    assert(n == m);
    assert(head =~= line.take(n));
    assert(head2 =~= line.take(n));
    let k = list.len() as int;
    let l = list2.len() as int;
    assert(line[n + k] == tail[0]);
    assert(line[n + l] == tail2[0]);
    if k < l {
        assert(line[n + k] == list2[k]);
    } else if l < k {
        assert(line[n + l] == list[l]);
    }
    assert(k == l);
    assert(list =~= line.subrange(n, n + k));
    assert(list2 =~= line.subrange(n, n + k));
    assert(tail =~= line.skip(n + k));
    assert(tail2 =~= line.skip(n + k));
}

pub proof fn lemma_unique_names(parts: Seq<Seq<char>>, n: int)
    ensures
        unique_names(parts, n).no_duplicates(),
        forall|i: int|
            0 <= i < unique_names(parts, n).len() ==> (#[trigger] unique_names(parts, n)[i]).len()
                > 0,
        forall|k: int|
            0 <= k < n <= parts.len() && trimmed(#[trigger] parts[k]).len() > 0 ==> unique_names(
                parts,
                n,
            ).contains(trimmed(parts[k])),
    decreases n,
{
    if 0 < n && n <= parts.len() {
        lemma_unique_names(parts, n - 1);
        let before = unique_names(parts, n - 1);
        let now = unique_names(parts, n);
        let name = trimmed(parts[n - 1]);
        if now.len() > before.len() {
            assert(now.drop_last() =~= before);
            assert(now[now.len() - 1] == name);
        }
        assert forall|k: int| 0 <= k < n && trimmed(#[trigger] parts[k]).len() > 0 implies now.contains(
            trimmed(parts[k]),
        ) by {
            if k < n - 1 {
                assert(before.contains(trimmed(parts[k])));
                let i = choose|i: int| 0 <= i < before.len() && before[i] == trimmed(parts[k]);
                assert(now[i] == trimmed(parts[k]));
            } else if now.len() > before.len() {
                assert(now[now.len() - 1] == name);
            }
        }
    }
}

/// The names of an import line are given once each, and none is lost.
pub proof fn law_names_once(list: Seq<char>)
    ensures
        names_in(list).no_duplicates(),
        forall|k: int|
            0 <= k < split(list, ',').len() && trimmed(#[trigger] split(list, ',')[k]).len() > 0
                ==> names_in(list).contains(trimmed(split(list, ',')[k])),
{
    lemma_unique_names(split(list, ','), split(list, ',').len() as int);
}

/// Whether a list holds a text.
fn has_name(names: &Vec<String>, name: &str) -> (r: bool)
    ensures
        r == texts(names@).contains(name@),
{
    let mut i: usize = 0;
    while i < names.len()
        invariant
            i <= names@.len(),
            forall|k: int| 0 <= k < i ==> (#[trigger] texts(names@)[k]) != name@,
        decreases names.len() - i,
    {
        assert(texts(names@)[i as int] == names@[i as int]@);
        if same(names[i].as_str(), name) {
            return true;
        }
        i = i + 1;
    }
    false
}

/// An import line with each of its names once.
pub fn dedup_specifiers(prefix: &str, list: &str, suffix: &str) -> (out: String)
    ensures
        out@ == import_line(prefix@, list@, suffix@),
{
    let parts = split_on(list, ',');
    let ghost p = split(list@, ',');
    let mut names: Vec<String> = Vec::new();
    let mut i: usize = 0;
    assert(texts(names@) =~= unique_names(p, 0));
    while i < parts.len()
        invariant
            p == texts(parts@),
            i <= parts@.len(),
            texts(names@) == unique_names(p, i as int),
        decreases parts.len() - i,
    {
        assert(p[i as int] == parts@[i as int]@);
        let name = trim(parts[i].as_str());
        if !name.as_str().is_empty() && !has_name(&names, name.as_str()) {
            let ghost before = texts(names@);
            names.push(name);
            assert(texts(names@) =~= before.push(name@));
        }
        i = i + 1;
    }
    let joined = join_texts(&names, ", ");
    let inner = concat3(" ", joined.as_str(), " ");
    concat3(prefix, inner.as_str(), suffix)
}

/// A line with the names it imports given once each.
fn dedup_line(re: &regex::Regex, line: &str) -> (out: String)
    requires
        regex_source(*re) == import_pattern(),
        regex_valid(import_pattern()),
    ensures
        out@ == deduped(line@),
{
    match capture_import(re, line) {
        Some((head, list, tail)) => {
            proof {
                let (h, l, t) = choose|h: Seq<char>, l: Seq<char>, t: Seq<char>|
                    import_parts(line@, h, l, t);
                lemma_import_parts_once(line@, h, l, t, head@, list@, tail@);
            }
            dedup_specifiers(head.as_str(), list.as_str(), tail.as_str())
        },
        None => line.to_owned(),
    }
}

/// Deduplicate import specifiers on lines that look like ES import statements.
///
/// After renaming multiple symbols to the same name, an import line may have duplicate
/// specifiers: `import { Content, Content, Content }` becomes `import { Content }`.
pub fn dedup_import_specifiers(lines: &mut Vec<String>)
    ensures
        final(lines)@.len() == old(lines)@.len(),
        texts(final(lines)@) == texts(old(lines)@).map_values(|l: Seq<char>| deduped(l)),
{
    let ghost before = texts(lines@);
    let ghost goal = before.map_values(|l: Seq<char>| deduped(l));
    let re = match regex::Regex::new("^(\\s*import\\s+\\{)([^}]+)(\\}\\s*from\\s+.*)$") {
        Ok(x) => x,
        Err(_) => {
            assert(goal =~= before);
            return;
        },
    };
    let n: usize = lines.len();
    let mut i: usize = 0;
    while i < n
        invariant
            n == lines@.len(),
            n == before.len(),
            i <= n,
            regex_source(re) == import_pattern(),
            regex_valid(import_pattern()),
            goal == before.map_values(|l: Seq<char>| deduped(l)),
            forall|k: int| 0 <= k < i ==> (#[trigger] lines@[k])@ == goal[k],
            forall|k: int| i <= k < n ==> (#[trigger] lines@[k])@ == before[k],
        decreases n - i,
    {
        let line = dedup_line(&re, lines[i].as_str());
        lines.set(i, line);
        i = i + 1;
    }
    assert(texts(lines@) =~= goal);
}

/// Where the application of edits to a file stands.
#[verifier::ext_equal]
pub ghost struct Applied {
    /// The lines of the file.
    pub file: Seq<Seq<char>>,
    /// The edits met so far: line, old text and new text.
    pub seen: Seq<(u32, Seq<char>, Seq<char>)>,
    /// How many edits were applied.
    pub applied: nat,
    /// How many edits did not apply.
    pub skipped: nat,
}

/// One edit on. An edit met before is passed over; one whose old text does not stand on its
/// line is skipped.
pub open spec fn apply_edit(a: Applied, e: EditV) -> Applied {
    let key = (e.line, e.old_text, e.new_text);
    let at = line_index(e.line);
    if a.seen.contains(key) {
        a
    } else if at < a.file.len() && contains(a.file[at], e.old_text) {
        Applied {
            file: a.file.update(at, replaced_first(a.file[at], e.old_text, e.new_text)),
            seen: a.seen.push(key),
            applied: a.applied + 1,
            skipped: a.skipped,
        }
    } else {
        Applied { seen: a.seen.push(key), skipped: a.skipped + 1, ..a }
    }
}

/// The first `n` edits of a list.
pub open spec fn apply_edits(a: Applied, edits: Seq<EditV>, n: int) -> Applied
    decreases n,
{
    if n <= 0 || n > edits.len() {
        a
    } else {
        apply_edit(apply_edits(a, edits, n - 1), edits[n - 1])
    }
}

/// The edits of the first `n` fixes.
pub open spec fn apply_all(a: Applied, fixes: Seq<FixV>, n: int) -> Applied
    decreases n,
{
    if n <= 0 || n > fixes.len() {
        a
    } else {
        apply_edits(
            apply_all(a, fixes, n - 1),
            fixes[n - 1].edits,
            fixes[n - 1].edits.len() as int,
        )
    }
}

/// A file before any edit.
pub open spec fn untouched(source: Seq<char>) -> Applied {
    Applied { file: lines_of(source), seen: Seq::empty(), applied: 0, skipped: 0 }
}

/// What all the edits of a file's fixes lead to.
pub open spec fn outcome(source: Seq<char>, fixes: Seq<FixV>) -> Applied {
    apply_all(untouched(source), fixes, fixes.len() as int)
}

/// The new content of a file: its lines, import lines with each name once, and a line feed at
/// the end where there was one.
pub open spec fn rewritten(source: Seq<char>, fixes: Seq<FixV>) -> Seq<char> {
    let file = outcome(source, fixes).file.map_values(|l: Seq<char>| deduped(l));
    if source.len() > 0 && source.last() == '\n' {
        join(file, "\n"@).push('\n')
    } else {
        join(file, "\n"@)
    }
}

proof fn lemma_apply_edit_lines(a: Applied, e: EditV, k: int)
    requires
        k != line_index(e.line),
    ensures
        apply_edit(a, e).file.len() == a.file.len(),
        0 <= k < a.file.len() ==> apply_edit(a, e).file[k] == a.file[k],
{
}

proof fn lemma_apply_edits_lines(a: Applied, edits: Seq<EditV>, n: int, k: int)
    requires
        forall|i: int| 0 <= i < edits.len() ==> line_index((#[trigger] edits[i]).line) != k,
    ensures
        apply_edits(a, edits, n).file.len() == a.file.len(),
        0 <= k < a.file.len() ==> apply_edits(a, edits, n).file[k] == a.file[k],
    decreases n,
{
    if 0 < n && n <= edits.len() {
        lemma_apply_edits_lines(a, edits, n - 1, k);
        assert(line_index(edits[n - 1].line) != k);
        lemma_apply_edit_lines(apply_edits(a, edits, n - 1), edits[n - 1], k);
    }
}

/// Applying fixes leaves the number of lines as it is, and leaves every line that no edit names.
pub proof fn law_other_lines_stay(source: Seq<char>, fixes: Seq<FixV>, n: int, k: int)
    requires
        forall|f: int, i: int|
            0 <= f < fixes.len() && 0 <= i < fixes[f].edits.len() ==> line_index(
                (#[trigger] fixes[f].edits[i]).line,
            ) != k,
    ensures
        apply_all(untouched(source), fixes, n).file.len() == lines_of(source).len(),
        0 <= k < lines_of(source).len() ==> apply_all(untouched(source), fixes, n).file[k]
            == lines_of(source)[k],
    decreases n,
{
    if 0 < n && n <= fixes.len() {
        law_other_lines_stay(source, fixes, n - 1, k);
        let edits = fixes[n - 1].edits;
        assert forall|i: int| 0 <= i < edits.len() implies line_index((#[trigger] edits[i]).line)
            != k by {
            assert(line_index(fixes[n - 1].edits[i].line) != k);
        }
        lemma_apply_edits_lines(
            apply_all(untouched(source), fixes, n - 1),
            edits,
            edits.len() as int,
            k,
        );
    }
}

/// Every edit met is either applied or skipped, and none is met twice.
pub proof fn law_edits_counted(a: Applied, e: EditV)
    requires
        a.applied + a.skipped == a.seen.len(),
        a.seen.no_duplicates(),
    ensures
        apply_edit(a, e).applied + apply_edit(a, e).skipped == apply_edit(a, e).seen.len(),
        apply_edit(a, e).seen.no_duplicates(),
        apply_edit(a, e).seen.contains((e.line, e.old_text, e.new_text)),
{
    let key = (e.line, e.old_text, e.new_text);
    if !a.seen.contains(key) {
        let now = a.seen.push(key);
        assert(now[now.len() - 1] == key);
    }
}

/// An edit that was met before changes nothing.
pub proof fn law_edit_applied_once(a: Applied, e: EditV)
    ensures
        apply_edit(apply_edit(a, e), e) == apply_edit(a, e),
{
    let key = (e.line, e.old_text, e.new_text);
    if !a.seen.contains(key) {
        let now = a.seen.push(key);
        assert(now[now.len() - 1] == key);
        assert(apply_edit(a, e).seen == now);
    }
}

/// A count as far as it fits.
pub open spec fn counted(n: int) -> usize {
    if n <= usize::MAX {
        n as usize
    } else {
        usize::MAX
    }
}

fn one_more(n: usize) -> (r: usize)
    ensures
        r == counted(n + 1),
{
    if n < usize::MAX {
        n + 1
    } else {
        n
    }
}

/// What applying the fixes of a file yields.
#[derive(Debug)]
pub struct FileOutcome {
    /// The new content, where any edit was applied.
    pub output: Option<String>,
    /// How many edits were applied.
    pub applied: usize,
    /// How many edits did not apply.
    pub skipped: usize,
}

fn is_seen(seen: &Vec<(u32, String, String)>, e: &TextEdit) -> (r: bool)
    ensures
        r == seen_models(seen@).contains((e.line, e.old_text@, e.new_text@)),
{
    let ghost key = (e.line, e.old_text@, e.new_text@);
    let mut i: usize = 0;
    while i < seen.len()
        invariant
            i <= seen@.len(),
            key == (e.line, e.old_text@, e.new_text@),
            forall|k: int| 0 <= k < i ==> (#[trigger] seen_models(seen@)[k]) != key,
        decreases seen.len() - i,
    {
        let s = &seen[i];
        assert(seen_models(seen@)[i as int] == (s.0, s.1@, s.2@));
        if s.0 == e.line && same(s.1.as_str(), e.old_text.as_str()) && same(
            s.2.as_str(),
            e.new_text.as_str(),
        ) {
            return true;
        }
        i = i + 1;
    }
    false
}

/// The models of edits met.
pub open spec fn seen_models(s: Seq<(u32, String, String)>) -> Seq<(u32, Seq<char>, Seq<char>)> {
    s.map_values(|e: (u32, String, String)| (e.0, e.1@, e.2@))
}

/// Applies the edits of fixes to a source text.
pub fn apply_to_source(source: &str, fixes: &Vec<PlannedFix>) -> (r: FileOutcome)
    ensures
        ({
            let a = outcome(source@, fix_models(fixes@));
            &&& r.applied == counted(a.applied as int)
            &&& r.skipped == counted(a.skipped as int)
            &&& match r.output {
                Some(s) => a.applied > 0 && s@ == rewritten(source@, fix_models(fixes@)),
                None => a.applied == 0,
            }
        }),
{
    let ghost fs = fix_models(fixes@);
    let mut file = lines(source);
    let mut seen: Vec<(u32, String, String)> = Vec::new();
    let mut applied: usize = 0;
    let mut skipped: usize = 0;
    let mut changed = false;
    let ghost mut state = untouched(source@);
    assert(seen_models(seen@) =~= Seq::empty());
    let mut f: usize = 0;
    while f < fixes.len()
        invariant
            fs == fix_models(fixes@),
            f <= fixes@.len(),
            state == apply_all(untouched(source@), fs, f as int),
            texts(file@) == state.file,
            seen_models(seen@) == state.seen,
            applied == counted(state.applied as int),
            skipped == counted(state.skipped as int),
            changed == (state.applied > 0),
        decreases fixes.len() - f,
    {
        let edits = &fixes[f].edits;
        let ghost start = state;
        let ghost es = edit_models(edits@);
        assert(fs[f as int].edits == es);
        let mut i: usize = 0;
        while i < edits.len()
            invariant
                es == edit_models(edits@),
                i <= edits@.len(),
                state == apply_edits(start, es, i as int),
                texts(file@) == state.file,
                seen_models(seen@) == state.seen,
                applied == counted(state.applied as int),
                skipped == counted(state.skipped as int),
                changed == (state.applied > 0),
            decreases edits.len() - i,
        {
            let e = &edits[i];
            let ghost before = state;
            assert(es[i as int] == e@);
            proof {
                state = apply_edit(before, e@);
            }
            if !is_seen(&seen, e) {
                seen.push((e.line, e.old_text.clone(), e.new_text.clone()));
                assert(seen_models(seen@) =~= before.seen.push(
                    (e.line, e.old_text@, e.new_text@),
                ));
                let at = index_of_line(e.line);
                let mut done = false;
                if at < file.len() {
                    assert(before.file[at as int] == file@[at as int]@);
                    if let Some(line) = replace_first(
                        file[at].as_str(),
                        e.old_text.as_str(),
                        e.new_text.as_str(),
                    ) {
                        file.set(at, line);
                        done = true;
                        assert(texts(file@) =~= state.file);
                    }
                }
                if done {
                    applied = one_more(applied);
                    changed = true;
                } else {
                    skipped = one_more(skipped);
                }
            }
            i = i + 1;
        }
        f = f + 1;
    }
    if !changed {
        return FileOutcome { output: None, applied, skipped };
    }
    dedup_import_specifiers(&mut file);
    let mut output = join_texts(&file, "\n");
    let c = chars_of(source);
    if c.len() > 0 && c[c.len() - 1] == '\n' {
        output.push('\n');
    }
    FileOutcome { output: Some(output), applied, skipped }
}

/// What the application of fixes to the files of a plan yields.
#[verifier::ext_equal]
pub ghost struct ResultV {
    pub files_modified: usize,
    pub edits_applied: usize,
    pub edits_skipped: usize,
    pub errors: Seq<Seq<char>>,
}

impl View for FixResult {
    type V = ResultV;

    open spec fn view(&self) -> ResultV {
        ResultV {
            files_modified: self.files_modified,
            edits_applied: self.edits_applied,
            edits_skipped: self.edits_skipped,
            errors: texts(self.errors@),
        }
    }
}

/// The result with one more file dealt with: a file that could not be read adds an error, any
/// other the counts of its edits.
pub open spec fn with_file(
    r: ResultV,
    path: Seq<char>,
    source: Result<Seq<char>, Seq<char>>,
    fixes: Seq<FixV>,
) -> ResultV {
    match source {
        Err(message) => ResultV { errors: r.errors.push(path + ": "@ + message), ..r },
        Ok(s) => {
            let a = outcome(s, fixes);
            ResultV {
                files_modified: if a.applied > 0 {
                    counted(r.files_modified + 1)
                } else {
                    r.files_modified
                },
                edits_applied: counted(r.edits_applied + counted(a.applied as int)),
                edits_skipped: counted(r.edits_skipped + counted(a.skipped as int)),
                errors: r.errors,
            }
        },
    }
}

/// The new content of a file, where it could be read and any edit applied.
pub open spec fn new_content(
    source: Result<Seq<char>, Seq<char>>,
    fixes: Seq<FixV>,
) -> Option<Seq<char>> {
    match source {
        Err(_) => None,
        Ok(s) => if outcome(s, fixes).applied > 0 {
            Some(rewritten(s, fixes))
        } else {
            None
        },
    }
}

/// What reading a file gave: its content, or the reason why it could not be read.
pub open spec fn read_view(r: Result<String, String>) -> Result<Seq<char>, Seq<char>> {
    match r {
        Ok(s) => Ok(s@),
        Err(m) => Err(m@),
    }
}

fn sum_counts(a: usize, b: usize) -> (r: usize)
    ensures
        r == counted(a + b),
{
    if a <= usize::MAX - b {
        a + b
    } else {
        usize::MAX
    }
}

/// Applies the fixes of one file, adds to the result, and hands back the content to be written.
pub fn apply_file(
    result: &mut FixResult,
    path: &str,
    source: &Result<String, String>,
    fixes: &Vec<PlannedFix>,
) -> (output: Option<String>)
    ensures
        final(result)@ == with_file(old(result)@, path@, read_view(*source), fix_models(fixes@)),
        crate::incident::opt_view(output) == new_content(read_view(*source), fix_models(fixes@)),
{
    match source {
        Err(m) => {
            let line = concat3(path, ": ", m.as_str());
            let ghost before = texts(result.errors@);
            result.errors.push(line);
            assert(texts(result.errors@) =~= before.push(line@));
            None
        },
        Ok(s) => {
            let done = apply_to_source(s.as_str(), fixes);
            result.edits_applied = sum_counts(result.edits_applied, done.applied);
            result.edits_skipped = sum_counts(result.edits_skipped, done.skipped);
            if done.output.is_some() {
                result.files_modified = one_more(result.files_modified);
            }
            done.output
        },
    }
}

/// The result of the first `n` files of a plan.
pub open spec fn result_of(
    files: Seq<(Seq<char>, Seq<FixV>)>,
    sources: Seq<Result<Seq<char>, Seq<char>>>,
    n: int,
) -> ResultV
    decreases n,
{
    if n <= 0 || n > files.len() {
        ResultV { files_modified: 0, edits_applied: 0, edits_skipped: 0, errors: Seq::empty() }
    } else {
        with_file(
            result_of(files, sources, n - 1),
            files[n - 1].0,
            sources[n - 1],
            files[n - 1].1,
        )
    }
}

/// The paths and contents to be written for the first `n` files of a plan.
pub open spec fn writes_of(
    files: Seq<(Seq<char>, Seq<FixV>)>,
    sources: Seq<Result<Seq<char>, Seq<char>>>,
    n: int,
) -> Seq<(Seq<char>, Seq<char>)>
    decreases n,
{
    if n <= 0 || n > files.len() {
        Seq::empty()
    } else {
        match new_content(sources[n - 1], files[n - 1].1) {
            Some(s) => writes_of(files, sources, n - 1).push((files[n - 1].0, s)),
            None => writes_of(files, sources, n - 1),
        }
    }
}

/// The models of what reading files gave.
pub open spec fn read_views(s: Seq<Result<String, String>>) -> Seq<Result<Seq<char>, Seq<char>>> {
    s.map_values(|r: Result<String, String>| read_view(r))
}

/// Apply a fix plan. `sources` holds what reading each file of the plan gave. The second part
/// of the result is what has to be written.
pub fn apply_fixes(plan: &FixPlan, sources: &Vec<Result<String, String>>) -> (r: (
    FixResult,
    Vec<(String, String)>,
))
    requires
        sources@.len() == plan.files@.len(),
    ensures
        r.0@ == result_of(plan@.files, read_views(sources@), plan@.files.len() as int),
        content_models(r.1@) == writes_of(
            plan@.files,
            read_views(sources@),
            plan@.files.len() as int,
        ),
{
    let ghost fs = plan@.files;
    let ghost ss = read_views(sources@);
    let mut result = FixResult::default();
    let mut writes: Vec<(String, String)> = Vec::new();
    let mut i: usize = 0;
    assert(result@ =~= result_of(fs, ss, 0));
    assert(content_models(writes@) =~= writes_of(fs, ss, 0));
    while i < plan.files.len()
        invariant
            fs == plan@.files,
            ss == read_views(sources@),
            sources@.len() == plan.files@.len(),
            i <= plan.files@.len(),
            result@ == result_of(fs, ss, i as int),
            content_models(writes@) == writes_of(fs, ss, i as int),
        decreases plan.files.len() - i,
    {
        let path = plan.files[i].0.as_str();
        let fixes = &plan.files[i].1;
        assert(fs[i as int] == (path@, fix_models(fixes@)));
        assert(ss[i as int] == read_view(sources@[i as int]));
        let output = apply_file(&mut result, path, &sources[i], fixes);
        if let Some(s) = output {
            let ghost before = content_models(writes@);
            writes.push((path.to_owned(), s));
            assert(content_models(writes@) =~= before.push((path@, s@)));
        }
        i = i + 1;
    }
    (result, writes)
}

/// The lines of a file that edits change, by index, with their new texts.
pub open spec fn preview_edit(
    file: Seq<Seq<char>>,
    changed: Seq<Option<Seq<char>>>,
    e: EditV,
) -> Seq<Option<Seq<char>>> {
    let at = line_index(e.line);
    if at < file.len() {
        let current = match changed[at] {
            Some(s) => s,
            None => file[at],
        };
        if contains(current, e.old_text) {
            changed.update(at, Some(replaced_first(current, e.old_text, e.new_text)))
        } else {
            changed
        }
    } else {
        changed
    }
}

/// The first `n` edits of a fix.
pub open spec fn preview_edits(
    file: Seq<Seq<char>>,
    changed: Seq<Option<Seq<char>>>,
    edits: Seq<EditV>,
    n: int,
) -> Seq<Option<Seq<char>>>
    decreases n,
{
    if n <= 0 || n > edits.len() {
        changed
    } else {
        preview_edit(file, preview_edits(file, changed, edits, n - 1), edits[n - 1])
    }
}

/// The edits of the first `n` fixes.
pub open spec fn preview_all(
    file: Seq<Seq<char>>,
    fixes: Seq<FixV>,
    n: int,
) -> Seq<Option<Seq<char>>>
    decreases n,
{
    if n <= 0 || n > fixes.len() {
        Seq::new(file.len(), |i: int| None)
    } else {
        preview_edits(
            file,
            preview_all(file, fixes, n - 1),
            fixes[n - 1].edits,
            fixes[n - 1].edits.len() as int,
        )
    }
}

/// A line of a file in a preview: the line as it is, or the line before and after.
pub open spec fn shown_line(line: Seq<char>, changed: Option<Seq<char>>) -> Seq<char> {
    match changed {
        Some(s) => "-"@ + line + "\n+"@ + deduped(s) + "\n"@,
        None => " "@ + line + "\n"@,
    }
}

/// The lines of a file from index `from` up to `to` in a preview.
pub open spec fn shown_lines(
    file: Seq<Seq<char>>,
    changed: Seq<Option<Seq<char>>>,
    from: int,
    to: int,
) -> Seq<char>
    decreases to - from,
{
    if to <= from {
        Seq::empty()
    } else {
        shown_lines(file, changed, from, to - 1) + shown_line(file[to - 1], changed[to - 1])
    }
}

/// The hunk around a changed line: up to three lines before and after it.
pub open spec fn hunk(file: Seq<Seq<char>>, changed: Seq<Option<Seq<char>>>, at: int) -> Seq<char> {
    let start = at_least_zero(at - 3);
    let end = least(at + 4, file.len() as int);
    let first = decimal((start + 1) as nat);
    let size = decimal((end - start) as nat);
    "@@ -"@ + first + ","@ + size + " +"@ + first + ","@ + size + " @@\n"@ + shown_lines(
        file,
        changed,
        start,
        end,
    )
}

/// The hunks around the changed lines among the first `n`.
pub open spec fn hunks(file: Seq<Seq<char>>, changed: Seq<Option<Seq<char>>>, n: int) -> Seq<char>
    decreases n,
{
    if n <= 0 || n > changed.len() {
        Seq::empty()
    } else if changed[n - 1] is Some {
        hunks(file, changed, n - 1) + hunk(file, changed, n - 1)
    } else {
        hunks(file, changed, n - 1)
    }
}

/// The preview of a file; nothing where no edit applies.
pub open spec fn file_preview(path: Seq<char>, source: Seq<char>, fixes: Seq<FixV>) -> Seq<char> {
    let file = lines_of(source);
    let changed = preview_all(file, fixes, fixes.len() as int);
    if exists|i: int| 0 <= i < changed.len() && (#[trigger] changed[i]) is Some {
        "--- a/"@ + path + "\n+++ b/"@ + path + "\n"@ + hunks(file, changed, changed.len() as int)
    } else {
        Seq::empty()
    }
}

/// The preview of the first `n` files of a plan. Files that cannot be read are left out.
pub open spec fn preview_of(
    files: Seq<(Seq<char>, Seq<FixV>)>,
    sources: Seq<Result<Seq<char>, Seq<char>>>,
    n: int,
) -> Seq<char>
    decreases n,
{
    if n <= 0 || n > files.len() {
        Seq::empty()
    } else {
        preview_of(files, sources, n - 1) + (match sources[n - 1] {
            Ok(s) => file_preview(files[n - 1].0, s, files[n - 1].1),
            Err(_) => Seq::empty(),
        })
    }
}

/// The new texts of changed lines.
pub open spec fn changed_models(s: Seq<Option<String>>) -> Seq<Option<Seq<char>>> {
    s.map_values(|c: Option<String>| crate::incident::opt_view(c))
}

/// The lines of a file that fixes change.
fn find_changes(file: &Vec<String>, fixes: &Vec<PlannedFix>) -> (changed: Vec<Option<String>>)
    ensures
        changed@.len() == file@.len(),
        changed_models(changed@) == preview_all(
            texts(file@),
            fix_models(fixes@),
            fixes@.len() as int,
        ),
{
    let ghost fl = texts(file@);
    let ghost fs = fix_models(fixes@);
    let mut changed: Vec<Option<String>> = Vec::new();
    while changed.len() < file.len()
        invariant
            changed@.len() <= file@.len(),
            forall|k: int| 0 <= k < changed@.len() ==> (#[trigger] changed@[k]) is None,
        decreases file.len() - changed.len(),
    {
        changed.push(None);
    }
    assert(changed_models(changed@) =~= preview_all(fl, fs, 0));
    let mut f: usize = 0;
    while f < fixes.len()
        invariant
            fl == texts(file@),
            fs == fix_models(fixes@),
            f <= fixes@.len(),
            changed@.len() == file@.len(),
            changed_models(changed@) == preview_all(fl, fs, f as int),
        decreases fixes.len() - f,
    {
        let edits = &fixes[f].edits;
        let ghost es = edit_models(edits@);
        let ghost start = changed_models(changed@);
        assert(fs[f as int].edits == es);
        let mut i: usize = 0;
        while i < edits.len()
            invariant
                fl == texts(file@),
                es == edit_models(edits@),
                i <= edits@.len(),
                changed@.len() == file@.len(),
                changed_models(changed@) == preview_edits(fl, start, es, i as int),
            decreases edits.len() - i,
        {
            let e = &edits[i];
            assert(es[i as int] == e@);
            let at = index_of_line(e.line);
            if at < file.len() {
                let ghost before = changed_models(changed@);
                assert(fl[at as int] == file@[at as int]@);
                assert(before[at as int] == crate::incident::opt_view(changed@[at as int]));
                let new_line = match &changed[at] {
                    Some(s) => replace_first(
                        s.as_str(),
                        e.old_text.as_str(),
                        e.new_text.as_str(),
                    ),
                    None => replace_first(
                        file[at].as_str(),
                        e.old_text.as_str(),
                        e.new_text.as_str(),
                    ),
                };
                if let Some(line) = new_line {
                    changed.set(at, Some(line));
                    assert(changed_models(changed@) =~= preview_edit(fl, before, e@));
                }
            }
            i = i + 1;
        }
        f = f + 1;
    }
    changed
}

/// Adds the hunk around a changed line.
fn add_hunk(
    out: &mut String,
    file: &Vec<String>,
    changed: &Vec<Option<String>>,
    at: usize,
)
    requires
        at < file@.len(),
        changed@.len() == file@.len(),
    ensures
        final(out)@ == old(out)@ + hunk(texts(file@), changed_models(changed@), at as int),
{
    let ghost fl = texts(file@);
    let ghost ch = changed_models(changed@);
    let n: usize = file.len();
    let start: usize = if at < 3 {
        0
    } else {
        at - 3
    };
    let end: usize = if n - at < 4 {
        n
    } else {
        at + 4
    };
    let first = show_number(start as u64 + 1);
    let size = show_number((end - start) as u64);
    let ghost base = out@;
    let mut text = "@@ -".to_owned();
    text.append(first.as_str());
    text.append(",");
    text.append(size.as_str());
    text.append(" +");
    text.append(first.as_str());
    text.append(",");
    text.append(size.as_str());
    text.append(" @@\n");
    let ghost head = text@;
    let mut i: usize = start;
    assert(text@ =~= head + shown_lines(fl, ch, start as int, start as int));
    while i < end
        invariant
            fl == texts(file@),
            ch == changed_models(changed@),
            changed@.len() == file@.len(),
            start <= i <= end <= file@.len(),
            text@ == head + shown_lines(fl, ch, start as int, i as int),
        decreases end - i,
    {
        assert(fl[i as int] == file@[i as int]@);
        assert(ch[i as int] == crate::incident::opt_view(changed@[i as int]));
        let ghost before = text@;
        match &changed[i] {
            Some(s) => {
                let line = dedup_one(s.as_str());
                text.append("-");
                text.append(file[i].as_str());
                text.append("\n+");
                text.append(line.as_str());
                text.append("\n");
                assert(text@ =~= before + shown_line(fl[i as int], ch[i as int]));
            },
            None => {
                text.append(" ");
                text.append(file[i].as_str());
                text.append("\n");
                assert(text@ =~= before + shown_line(fl[i as int], ch[i as int]));
            },
        }
        i = i + 1;
        assert(text@ =~= head + shown_lines(fl, ch, start as int, i as int));
    }
    out.append(text.as_str());
}

/// A line with the names it imports given once each.
fn dedup_one(line: &str) -> (out: String)
    ensures
        out@ == deduped(line@),
{
    match regex::Regex::new("^(\\s*import\\s+\\{)([^}]+)(\\}\\s*from\\s+.*)$") {
        Ok(re) => dedup_line(&re, line),
        Err(_) => line.to_owned(),
    }
}

/// The preview of a file.
pub fn preview_file(path: &str, source: &str, fixes: &Vec<PlannedFix>) -> (out: String)
    ensures
        out@ == file_preview(path@, source@, fix_models(fixes@)),
{
    let file = lines(source);
    let ghost fl = lines_of(source@);
    let changed = find_changes(&file, fixes);
    let ghost ch = changed_models(changed@);
    let mut out = "--- a/".to_owned();
    out.append(path);
    out.append("\n+++ b/");
    out.append(path);
    out.append("\n");
    let ghost head = out@;
    let mut any = false;
    let mut i: usize = 0;
    assert(out@ =~= head + hunks(fl, ch, 0));
    while i < changed.len()
        invariant
            fl == texts(file@),
            ch == changed_models(changed@),
            changed@.len() == file@.len(),
            i <= changed@.len(),
            any == (exists|k: int| 0 <= k < i && (#[trigger] ch[k]) is Some),
            out@ == head + hunks(fl, ch, i as int),
        decreases changed.len() - i,
    {
        assert(ch[i as int] == crate::incident::opt_view(changed@[i as int]));
        if changed[i].is_some() {
            add_hunk(&mut out, &file, &changed, i);
            any = true;
            assert(out@ =~= head + hunks(fl, ch, i + 1));
        }
        i = i + 1;
    }
    if any {
        out
    } else {
        String::new()
    }
}

/// Generate a unified diff preview of the planned changes. `sources` holds what reading each
/// file of the plan gave.
pub fn preview_fixes(plan: &FixPlan, sources: &Vec<Result<String, String>>) -> (out: String)
    requires
        sources@.len() == plan.files@.len(),
    ensures
        out@ == preview_of(plan@.files, read_views(sources@), plan@.files.len() as int),
{
    let ghost fs = plan@.files;
    let ghost ss = read_views(sources@);
    let mut out = String::new();
    let mut i: usize = 0;
    assert(out@ =~= preview_of(fs, ss, 0));
    while i < plan.files.len()
        invariant
            fs == plan@.files,
            ss == read_views(sources@),
            sources@.len() == plan.files@.len(),
            i <= plan.files@.len(),
            out@ == preview_of(fs, ss, i as int),
        decreases plan.files.len() - i,
    {
        assert(fs[i as int] == (plan.files@[i as int].0@, fix_models(plan.files@[i as int].1@)));
        assert(ss[i as int] == read_view(sources@[i as int]));
        let ghost before = out@;
        match &sources[i] {
            Ok(s) => {
                let text = preview_file(plan.files[i].0.as_str(), s.as_str(), &plan.files[i].1);
                out.append(text.as_str());
            },
            Err(_) => {
                assert(before =~= before + Seq::<char>::empty());
            },
        }
        i = i + 1;
    }
    out
}

/// What tells edits apart: the line, the old text and the new text.
pub open spec fn edit_key(e: EditV) -> (u32, Seq<char>, Seq<char>) {
    (e.line, e.old_text, e.new_text)
}

/// What tells the first `n` edits of a list apart.
pub open spec fn edit_keys(edits: Seq<EditV>, n: int) -> Seq<(u32, Seq<char>, Seq<char>)>
    decreases n,
{
    if n <= 0 || n > edits.len() {
        Seq::empty()
    } else {
        edit_keys(edits, n - 1).push(edit_key(edits[n - 1]))
    }
}

/// What tells the edits of the first `n` fixes apart.
pub open spec fn all_keys(fixes: Seq<FixV>, n: int) -> Seq<(u32, Seq<char>, Seq<char>)>
    decreases n,
{
    if n <= 0 || n > fixes.len() {
        Seq::empty()
    } else {
        all_keys(fixes, n - 1) + edit_keys(fixes[n - 1].edits, fixes[n - 1].edits.len() as int)
    }
}

/// A line as a preview has it after all edits.
pub open spec fn previewed(
    file: Seq<Seq<char>>,
    changed: Seq<Option<Seq<char>>>,
    k: int,
) -> Seq<char> {
    match changed[k] {
        Some(s) => s,
        None => file[k],
    }
}

/// Whether the lines that edits were applied to are those that a preview has.
spec fn agrees(a: Applied, file: Seq<Seq<char>>, changed: Seq<Option<Seq<char>>>) -> bool {
    &&& a.file.len() == file.len()
    &&& changed.len() == file.len()
    &&& forall|k: int| 0 <= k < file.len() ==> #[trigger] a.file[k] == previewed(file, changed, k)
}

proof fn lemma_first_part_once<A>(a: Seq<A>, b: Seq<A>)
    requires
        (a + b).no_duplicates(),
    ensures
        a.no_duplicates(),
{
    assert forall|i: int, j: int| 0 <= i < a.len() && 0 <= j < a.len() && i != j implies a[i]
        != a[j] by {
        assert((a + b)[i] == a[i] && (a + b)[j] == a[j]);
    }
}

proof fn lemma_edits_agree(
    a: Applied,
    file: Seq<Seq<char>>,
    changed: Seq<Option<Seq<char>>>,
    edits: Seq<EditV>,
    n: int,
)
    requires
        0 <= n <= edits.len(),
        agrees(a, file, changed),
        (a.seen + edit_keys(edits, n)).no_duplicates(),
    ensures
        agrees(apply_edits(a, edits, n), file, preview_edits(file, changed, edits, n)),
        apply_edits(a, edits, n).seen == a.seen + edit_keys(edits, n),
    decreases n,
{
    if n > 0 {
        let e = edits[n - 1];
        let earlier = a.seen + edit_keys(edits, n - 1);
        let now = a.seen + edit_keys(edits, n);
        assert(now =~= earlier.push(edit_key(e)));
        assert(now =~= earlier + seq![edit_key(e)]);
        lemma_first_part_once(earlier, seq![edit_key(e)]);
        lemma_edits_agree(a, file, changed, edits, n - 1);
        let before = apply_edits(a, edits, n - 1);
        assert(!before.seen.contains(edit_key(e))) by {
            if earlier.contains(edit_key(e)) {
                let i = choose|i: int| 0 <= i < earlier.len() && earlier[i] == edit_key(e);
                assert(now[i] == now[now.len() - 1]);
            }
        }
        let shown = preview_edits(file, changed, edits, n - 1);
        let at = line_index(e.line);
        if 0 <= at < file.len() {
            assert(before.file[at] == previewed(file, shown, at));
        }
        assert(apply_edits(a, edits, n).seen =~= now);
    } else {
        assert(a.seen + edit_keys(edits, n) =~= a.seen);
    }
}

proof fn lemma_fixes_agree(source: Seq<char>, fixes: Seq<FixV>, n: int)
    requires
        0 <= n <= fixes.len(),
        all_keys(fixes, n).no_duplicates(),
    ensures
        agrees(
            apply_all(untouched(source), fixes, n),
            lines_of(source),
            preview_all(lines_of(source), fixes, n),
        ),
        apply_all(untouched(source), fixes, n).seen == all_keys(fixes, n),
    decreases n,
{
    if n > 0 {
        let edits = fixes[n - 1].edits;
        lemma_first_part_once(all_keys(fixes, n - 1), edit_keys(edits, edits.len() as int));
        lemma_fixes_agree(source, fixes, n - 1);
        lemma_edits_agree(
            apply_all(untouched(source), fixes, n - 1),
            lines_of(source),
            preview_all(lines_of(source), fixes, n - 1),
            edits,
            edits.len() as int,
        );
    }
}

/// A preview shows what will be written: where no edit stands in the plan twice, each line of the
/// new content is the line that the preview has in its place.
pub proof fn law_preview_is_applied(source: Seq<char>, fixes: Seq<FixV>, k: int)
    requires
        all_keys(fixes, fixes.len() as int).no_duplicates(),
        0 <= k < lines_of(source).len(),
    ensures
        outcome(source, fixes).file.len() == lines_of(source).len(),
        outcome(source, fixes).file[k] == previewed(
            lines_of(source),
            preview_all(lines_of(source), fixes, fixes.len() as int),
            k,
        ),
{
    lemma_fixes_agree(source, fixes, fixes.len() as int);
}

} // verus!
