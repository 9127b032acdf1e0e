//! Pattern-based fixes: deterministic renames, removals and updates driven by the variables of
//! an incident.

use crate::fix::{
    edit_models, mapping_models, EditV, FixConfidence, FixSource, FixV, PlannedFix, RenameMapping,
    TextEdit,
};
use crate::incident::{Incident, IncidentV};
use crate::json::text;
use crate::pattern::{find_text, regex_first, regex_valid};
use crate::text::{
    chars_of, contains, decimal, has_at, has_text, join, join_texts, lemma_lines_total, lines, lines_of,
    same, show_number, starts_with, texts, total_len, trim, trimmed,
};
use vstd::prelude::*;

verus! {

/// The number of the line at an index.
pub open spec fn line_no(index: int) -> u32 {
    (index + 1) as u32
}

/// The index of a line, by its number. Line zero is taken for the first.
pub open spec fn line_index(line: u32) -> int {
    if line == 0 {
        0
    } else {
        line - 1
    }
}

/// Appends a text edit.
fn push_edit(
    out: &mut Vec<TextEdit>,
    line: u32,
    old_text: &str,
    new_text: &str,
    rule_id: &str,
    description: String,
)
    ensures
        edit_models(final(out)@) == edit_models(old(out)@).push(
            EditV {
                line,
                old_text: old_text@,
                new_text: new_text@,
                rule_id: rule_id@,
                description: description@,
            },
        ),
{
    out.push(
        TextEdit {
            line,
            old_text: old_text.to_owned(),
            new_text: new_text.to_owned(),
            rule_id: rule_id.to_owned(),
            description,
        },
    );
    assert(edit_models(out@) =~= edit_models(old(out)@).push(
        EditV {
            line,
            old_text: old_text@,
            new_text: new_text@,
            rule_id: rule_id@,
            description: description@,
        },
    ));
}

/// The edit that renames on a line.
pub open spec fn rename_edit(line: u32, m: (Seq<char>, Seq<char>), rule_id: Seq<char>) -> EditV {
    EditV {
        line,
        old_text: m.0,
        new_text: m.1,
        rule_id,
        description: "Rename '"@ + m.0 + "' to '"@ + m.1 + "'"@,
    }
}

/// Appends the edit that renames on a line.
fn push_rename(out: &mut Vec<TextEdit>, line: u32, m: &RenameMapping, rule_id: &str)
    ensures
        edit_models(final(out)@) == edit_models(old(out)@).push(
            rename_edit(line, (m.old@, m.new@), rule_id@),
        ),
{
    let mut description = "Rename '".to_owned();
    description.append(m.old.as_str());
    description.append("' to '");
    description.append(m.new.as_str());
    description.append("'");
    push_edit(out, line, m.old.as_str(), m.new.as_str(), rule_id, description);
}

/// The length of a text in bytes.
pub open spec fn byte_len(s: Seq<char>) -> nat {
    vstd::utf8::encode_utf8(s).len()
}

/// A list of renames, longest old name first, with one more: behind those whose old name is at
/// least as long.
pub open spec fn insert_by_len(
    sorted: Seq<(Seq<char>, Seq<char>)>,
    m: (Seq<char>, Seq<char>),
) -> Seq<(Seq<char>, Seq<char>)>
    decreases sorted.len(),
{
    if sorted.len() == 0 || byte_len(sorted.last().0) >= byte_len(m.0) {
        sorted.push(m)
    } else {
        insert_by_len(sorted.drop_last(), m).push(sorted.last())
    }
}

/// Those of the first `n` renames that change anything, longest old name first, so that a name
/// is looked for before any part of it.
pub open spec fn longest_first(ms: Seq<(Seq<char>, Seq<char>)>, n: int) -> Seq<
    (Seq<char>, Seq<char>),
>
    decreases n,
{
    if n <= 0 || n > ms.len() {
        Seq::empty()
    } else if ms[n - 1].0 == ms[n - 1].1 {
        longest_first(ms, n - 1)
    } else {
        insert_by_len(longest_first(ms, n - 1), ms[n - 1])
    }
}

/// Whether an edit already covers a name.
pub open spec fn covered(edits: Seq<EditV>, name: Seq<char>) -> bool {
    exists|i: int| 0 <= i < edits.len() && contains((#[trigger] edits[i]).old_text, name)
}

/// The renames on a line, by the first `n` of the given mappings: of those whose old name
/// stands on the line, each that is no part of one that came before.
pub open spec fn import_line_edits(
    text: Seq<char>,
    ms: Seq<(Seq<char>, Seq<char>)>,
    n: int,
    line: u32,
    rule_id: Seq<char>,
) -> Seq<EditV>
    decreases n,
{
    if n <= 0 || n > ms.len() {
        Seq::empty()
    } else {
        let before = import_line_edits(text, ms, n - 1, line, rule_id);
        if contains(text, ms[n - 1].0) && !covered(before, ms[n - 1].0) {
            before.push(rename_edit(line, ms[n - 1], rule_id))
        } else {
            before
        }
    }
}

/// The renames on the first `n` lines of a file.
pub open spec fn import_edits(
    file: Seq<Seq<char>>,
    n: int,
    ms: Seq<(Seq<char>, Seq<char>)>,
    rule_id: Seq<char>,
) -> Seq<EditV>
    decreases n,
{
    if n <= 0 || n > file.len() {
        Seq::empty()
    } else {
        import_edits(file, n - 1, ms, rule_id) + import_line_edits(
            file[n - 1],
            ms,
            ms.len() as int,
            line_no(n - 1),
            rule_id,
        )
    }
}

/// The renames on a line, by the first `n` of the given mappings, apart from the one at the
/// index to be left out.
pub open spec fn line_edits(
    text: Seq<char>,
    ms: Seq<(Seq<char>, Seq<char>)>,
    n: int,
    left_out: Option<int>,
    line: u32,
    rule_id: Seq<char>,
) -> Seq<EditV>
    decreases n,
{
    if n <= 0 || n > ms.len() {
        Seq::empty()
    } else {
        let before = line_edits(text, ms, n - 1, left_out, line, rule_id);
        if ms[n - 1].0 != ms[n - 1].1 && left_out != Some(n - 1) && contains(text, ms[n - 1].0) {
            before.push(rename_edit(line, ms[n - 1], rule_id))
        } else {
            before
        }
    }
}

/// The renames on the lines from index `from` up to `to`. On the line of the incident the
/// mapping at index `primary` is left out.
pub open spec fn window_edits(
    file: Seq<Seq<char>>,
    from: int,
    to: int,
    ms: Seq<(Seq<char>, Seq<char>)>,
    primary: int,
    line: u32,
    rule_id: Seq<char>,
) -> Seq<EditV>
    decreases to - from,
{
    if to <= from {
        Seq::empty()
    } else {
        window_edits(file, from, to - 1, ms, primary, line, rule_id) + line_edits(
            file[to - 1],
            ms,
            ms.len() as int,
            if line_no(to - 1) == line {
                Some(primary)
            } else {
                None
            },
            line_no(to - 1),
            rule_id,
        )
    }
}

/// The smaller of two integers.
pub open spec fn least(a: int, b: int) -> int {
    if a < b {
        a
    } else {
        b
    }
}

/// An integer, or zero where it is negative.
pub open spec fn at_least_zero(a: int) -> int {
    if a < 0 {
        0
    } else {
        a
    }
}

/// The index of the first of the mappings from `from` on whose old name is the given one.
pub open spec fn mapping_index(
    ms: Seq<(Seq<char>, Seq<char>)>,
    name: Seq<char>,
    from: int,
) -> Option<int>
    decreases ms.len() - from,
{
    if from < 0 || from >= ms.len() {
        None
    } else if ms[from].0 == name {
        Some(from)
    } else {
        mapping_index(ms, name, from + 1)
    }
}

/// The text of an incident's variable.
pub open spec fn text_variable(i: IncidentV, name: Seq<char>) -> Option<Seq<char>> {
    if i.variables.dom().contains(name) {
        text(i.variables[name])
    } else {
        None
    }
}

/// The text that an incident is about: the first of its known variables that is a text.
pub open spec fn matched_text(i: IncidentV) -> Seq<char> {
    match text_variable(i, "propName"@) {
        Some(s) => s,
        None => match text_variable(i, "componentName"@) {
            Some(s) => s,
            None => match text_variable(i, "importedName"@) {
                Some(s) => s,
                None => match text_variable(i, "className"@) {
                    Some(s) => s,
                    None => match text_variable(i, "variableName"@) {
                        Some(s) => s,
                        None => Seq::empty(),
                    },
                },
            },
        },
    }
}

/// The edits of a rename. An incident about an import renames in the whole file; one whose text
/// is an old name renames it on its line, and the other names in the lines around it; any other
/// renames on its line.
pub open spec fn rename_edits(
    i: IncidentV,
    line: u32,
    ms: Seq<(Seq<char>, Seq<char>)>,
    source: Seq<char>,
    rule_id: Seq<char>,
) -> Seq<EditV> {
    let file = lines_of(source);
    if i.variables.dom().contains("importedName"@) {
        import_edits(file, file.len() as int, longest_first(ms, ms.len() as int), rule_id)
    } else {
        match mapping_index(ms, matched_text(i), 0) {
            Some(p) => if ms[p].0 == ms[p].1 {
                Seq::empty()
            } else {
                seq![rename_edit(line, ms[p], rule_id)] + window_edits(
                    file,
                    at_least_zero(line_index(line) - 3),
                    least(line_index(line) + 5, file.len() as int),
                    ms,
                    p,
                    line,
                    rule_id,
                )
            },
            None => if line_index(line) < file.len() {
                line_edits(
                    file[line_index(line)],
                    ms,
                    ms.len() as int,
                    None,
                    line,
                    rule_id,
                )
            } else {
                Seq::empty()
            },
        }
    }
}

/// The edits in words.
pub open spec fn edit_words(edits: Seq<EditV>) -> Seq<Seq<char>> {
    edits.map_values(|e: EditV| "'"@ + e.old_text + "' → '"@ + e.new_text + "'"@)
}

/// The fix that renames, where the incident has a line, the file can be read and there is
/// anything to rename.
pub open spec fn rename_fix(
    i: IncidentV,
    ms: Seq<(Seq<char>, Seq<char>)>,
    source: Option<Seq<char>>,
    rule_id: Seq<char>,
) -> Option<FixV> {
    match (i.line_number, source) {
        (Some(line), Some(s)) => {
            let edits = rename_edits(i, line, ms, s, rule_id);
            if edits.len() == 0 {
                None
            } else {
                Some(
                    FixV {
                        edits,
                        confidence: FixConfidence::Exact,
                        source: FixSource::Pattern,
                        rule_id,
                        file_uri: i.file_uri,
                        line,
                        description: "Rename "@ + join(edit_words(edits), ", "@),
                    },
                )
            }
        },
        _ => None,
    }
}

/// What an optional fix holds.
pub open spec fn opt_fix(f: Option<PlannedFix>) -> Option<FixV> {
    match f {
        Some(x) => Some(x@),
        None => None,
    }
}

/// The text of an incident's variable.
pub fn get_text_variable<'a>(incident: &'a Incident, name: &str) -> (r: Option<&'a str>)
    ensures
        match r {
            Some(s) => text_variable(incident@, name@) == Some(s@),
            None => text_variable(incident@, name@) is None,
        },
{
    match incident.variables.get(name) {
        Some(v) => v.as_str(),
        None => None,
    }
}

/// Extract the matched text from incident variables.
/// Checks propName, componentName, importedName, className, variableName in that order.
pub fn get_matched_text(incident: &Incident) -> (r: String)
    ensures
        r@ == matched_text(incident@),
{
    if let Some(s) = get_text_variable(incident, "propName") {
        return s.to_owned();
    }
    if let Some(s) = get_text_variable(incident, "componentName") {
        return s.to_owned();
    }
    if let Some(s) = get_text_variable(incident, "importedName") {
        return s.to_owned();
    }
    if let Some(s) = get_text_variable(incident, "className") {
        return s.to_owned();
    }
    if let Some(s) = get_text_variable(incident, "variableName") {
        return s.to_owned();
    }
    String::new()
}

fn bytes_in(s: &str) -> (n: usize)
    ensures
        n == byte_len(s@),
{
    s.as_bytes().len()
}

/// The mappings that change anything, longest old name first.
fn sort_mappings(ms: &Vec<RenameMapping>) -> (out: Vec<RenameMapping>)
    ensures
        mapping_models(out@) == longest_first(mapping_models(ms@), ms@.len() as int),
{
    let ghost all = mapping_models(ms@);
    let mut out: Vec<RenameMapping> = Vec::new();
    let mut i: usize = 0;
    assert(mapping_models(out@) =~= longest_first(all, 0));
    while i < ms.len()
        invariant
            all == mapping_models(ms@),
            i <= ms@.len(),
            mapping_models(out@) == longest_first(all, i as int),
        decreases ms.len() - i,
    {
        assert(all[i as int] == (ms@[i as int].old@, ms@[i as int].new@));
        if !same(ms[i].old.as_str(), ms[i].new.as_str()) {
            insert_mapping(&mut out, &ms[i]);
        }
        i = i + 1;
    }
    out
}

/// Inserts a mapping behind those whose old name is at least as long.
fn insert_mapping(out: &mut Vec<RenameMapping>, m: &RenameMapping)
    ensures
        mapping_models(final(out)@) == insert_by_len(
            mapping_models(old(out)@),
            (m.old@, m.new@),
        ),
{
    let ghost start = mapping_models(out@);
    let ghost x = (m.old@, m.new@);
    let size = bytes_in(m.old.as_str());
    let mut n: usize = out.len();
    assert(start.take(start.len() as int) =~= start);
    assert(insert_by_len(start, x) =~= insert_by_len(start.take(n as int), x) + start.skip(
        n as int,
    ));
    while n > 0 && bytes_in(out[n - 1].old.as_str()) < size
        invariant
            start == mapping_models(out@),
            *out == *old(out),
            n <= out@.len(),
            size == byte_len(x.0),
            x == (m.old@, m.new@),
            insert_by_len(start, x) == insert_by_len(start.take(n as int), x) + start.skip(
                n as int,
            ),
        decreases n,
    {
        assert(start[n - 1].0 == out@[n - 1].old@);
        assert(start.take(n as int).last() == start[n - 1]);
        assert(start.take(n as int).drop_last() =~= start.take(n - 1));
        assert(insert_by_len(start.take(n - 1), x).push(start[n - 1]) + start.skip(n as int)
            =~= insert_by_len(start.take(n - 1), x) + start.skip(n - 1));
        n = n - 1;
    }
    if n > 0 {
        assert(start[n - 1].0 == out@[n - 1].old@);
        assert(start.take(n as int).last() == start[n - 1]);
    }
    assert(insert_by_len(start.take(n as int), x) == start.take(n as int).push(x));
    out.insert(n, RenameMapping { old: m.old.clone(), new: m.new.clone() });
    assert(mapping_models(out@) =~= start.take(n as int).push(x) + start.skip(n as int));
}

/// Whether an edit already covers a name.
fn check_covered(edits: &Vec<TextEdit>, from: usize, name: &str) -> (r: bool)
    requires
        from <= edits@.len(),
    ensures
        r == covered(edit_models(edits@).skip(from as int), name@),
{
    let ghost all = edit_models(edits@).skip(from as int);
    let mut i: usize = from;
    while i < edits.len()
        invariant
            from <= i <= edits@.len(),
            all == edit_models(edits@).skip(from as int),
            forall|k: int| 0 <= k < i - from ==> !contains((#[trigger] all[k]).old_text, name@),
        decreases edits.len() - i,
    {
        assert(all[i - from].old_text == edits@[i as int].old_text@);
        if has_text(edits[i].old_text.as_str(), name) {
            return true;
        }
        i = i + 1;
    }
    false
}

/// The renames on the lines of a file, by mappings sorted longest first.
fn find_import_edits(file: &Vec<String>, ms: &Vec<RenameMapping>, rule_id: &str) -> (out: Vec<
    TextEdit,
>)
    ensures
        edit_models(out@) == import_edits(
            texts(file@),
            file@.len() as int,
            mapping_models(ms@),
            rule_id@,
        ),
{
    let ghost f = texts(file@);
    let ghost all = mapping_models(ms@);
    let mut out: Vec<TextEdit> = Vec::new();
    let mut i: usize = 0;
    assert(edit_models(out@) =~= import_edits(f, 0, all, rule_id@));
    while i < file.len()
        invariant
            f == texts(file@),
            all == mapping_models(ms@),
            i <= file@.len(),
            edit_models(out@) == import_edits(f, i as int, all, rule_id@),
        decreases file.len() - i,
    {
        let text = file[i].as_str();
        assert(f[i as int] == text@);
        let line = (i + 1) as u32;
        let from: usize = out.len();
        let ghost before = edit_models(out@);
        let mut k: usize = 0;
        assert(edit_models(out@) =~= before + import_line_edits(text@, all, 0, line, rule_id@));
        while k < ms.len()
            invariant
                all == mapping_models(ms@),
                k <= ms@.len(),
                from == before.len(),
                from <= out@.len(),
                edit_models(out@) == before + import_line_edits(
                    text@,
                    all,
                    k as int,
                    line,
                    rule_id@,
                ),
            decreases ms.len() - k,
        {
            let ghost here = import_line_edits(text@, all, k as int, line, rule_id@);
            assert(edit_models(out@).skip(from as int) =~= here);
            assert(all[k as int] == (ms@[k as int].old@, ms@[k as int].new@));
            if has_text(text, ms[k].old.as_str()) && !check_covered(&out, from, ms[k].old.as_str()) {
                push_rename(&mut out, line, &ms[k], rule_id);
                assert(edit_models(out@) =~= before + here.push(
                    rename_edit(line, all[k as int], rule_id@),
                ));
            }
            k = k + 1;
        }
        i = i + 1;
    }
    out
}

/// The renames on a line, apart from the mapping at the index to be left out.
fn add_line_edits(
    out: &mut Vec<TextEdit>,
    text: &str,
    ms: &Vec<RenameMapping>,
    left_out: Option<usize>,
    line: u32,
    rule_id: &str,
)
    ensures
        edit_models(final(out)@) == edit_models(old(out)@) + line_edits(
            text@,
            mapping_models(ms@),
            ms@.len() as int,
            match left_out {
                Some(i) => Some(i as int),
                None => None,
            },
            line,
            rule_id@,
        ),
{
    let ghost all = mapping_models(ms@);
    let ghost before = edit_models(out@);
    let ghost skipped: Option<int> = match left_out {
        Some(i) => Some(i as int),
        None => None,
    };
    let mut k: usize = 0;
    assert(edit_models(out@) =~= before + line_edits(text@, all, 0, skipped, line, rule_id@));
    while k < ms.len()
        invariant
            all == mapping_models(ms@),
            skipped == (match left_out {
                Some(i) => Some(i as int),
                None => None,
            }),
            k <= ms@.len(),
            edit_models(out@) == before + line_edits(
                text@,
                all,
                k as int,
                skipped,
                line,
                rule_id@,
            ),
        decreases ms.len() - k,
    {
        let ghost here = line_edits(text@, all, k as int, skipped, line, rule_id@);
        assert(all[k as int] == (ms@[k as int].old@, ms@[k as int].new@));
        let is_left_out = match left_out {
            Some(i) => i == k,
            None => false,
        };
        if !same(ms[k].old.as_str(), ms[k].new.as_str()) && !is_left_out && has_text(
            text,
            ms[k].old.as_str(),
        ) {
            push_rename(out, line, &ms[k], rule_id);
            assert(edit_models(out@) =~= before + here.push(
                rename_edit(line, all[k as int], rule_id@),
            ));
        }
        k = k + 1;
    }
}

/// The index of the first mapping whose old name is the given one.
fn find_mapping(ms: &Vec<RenameMapping>, name: &str) -> (r: Option<usize>)
    ensures
        match r {
            Some(i) => i < ms@.len() && mapping_index(mapping_models(ms@), name@, 0) == Some(
                i as int,
            ),
            None => mapping_index(mapping_models(ms@), name@, 0) is None,
        },
{
    let ghost all = mapping_models(ms@);
    let mut i: usize = 0;
    while i < ms.len()
        invariant
            all == mapping_models(ms@),
            i <= ms@.len(),
            mapping_index(all, name@, 0) == mapping_index(all, name@, i as int),
        decreases ms.len() - i,
    {
        assert(all[i as int].0 == ms@[i as int].old@);
        if same(ms[i].old.as_str(), name) {
            return Some(i);
        }
        i = i + 1;
    }
    None
}

/// The index of a line, by its number.
pub fn index_of_line(line: u32) -> (i: usize)
    ensures
        i == line_index(line),
{
    if line == 0 {
        0
    } else {
        (line - 1) as usize
    }
}

/// The edits of a rename.
fn find_rename_edits(
    incident: &Incident,
    line: u32,
    ms: &Vec<RenameMapping>,
    source: &str,
    rule_id: &str,
) -> (out: Vec<TextEdit>)
    ensures
        edit_models(out@) == rename_edits(
            incident@,
            line,
            mapping_models(ms@),
            source@,
            rule_id@,
        ),
{
    let file = lines(source);
    let ghost f = lines_of(source@);
    let ghost all = mapping_models(ms@);
    let mut out: Vec<TextEdit> = Vec::new();
    assert(edit_models(out@) =~= Seq::<EditV>::empty());
    if incident.variables.get("importedName").is_some() {
        let sorted = sort_mappings(ms);
        return find_import_edits(&file, &sorted, rule_id);
    }
    let matched = get_matched_text(incident);
    let index = index_of_line(line);
    match find_mapping(ms, matched.as_str()) {
        Some(p) => {
            assert(all[p as int] == (ms@[p as int].old@, ms@[p as int].new@));
            if same(ms[p].old.as_str(), ms[p].new.as_str()) {
                return out;
            }
            push_rename(&mut out, line, &ms[p], rule_id);
            let ghost first = seq![rename_edit(line, all[p as int], rule_id@)];
            assert(edit_models(out@) =~= first);
            let start: usize = if index < 3 {
                0
            } else {
                index - 3
            };
            let count: usize = file.len();
            let end: usize = if index >= count || count - index < 5 {
                count
            } else {
                index + 5
            };
            let mut i: usize = start;
            assert(edit_models(out@) =~= first + window_edits(
                f,
                start as int,
                start as int,
                all,
                p as int,
                line,
                rule_id@,
            ));
            while i < end
                invariant
                    f == texts(file@),
                    all == mapping_models(ms@),
                    start <= i,
                    i <= end || i == start,
                    end <= file@.len(),
                    edit_models(out@) == first + window_edits(
                        f,
                        start as int,
                        i as int,
                        all,
                        p as int,
                        line,
                        rule_id@,
                    ),
                decreases end - i,
            {
                assert(f[i as int] == file@[i as int]@);
                let number = (i + 1) as u32;
                let left_out: Option<usize> = if number == line {
                    Some(p)
                } else {
                    None
                };
                let ghost before = edit_models(out@);
                add_line_edits(&mut out, file[i].as_str(), ms, left_out, number, rule_id);
                i = i + 1;
                assert(edit_models(out@) =~= first + window_edits(
                    f,
                    start as int,
                    i as int,
                    all,
                    p as int,
                    line,
                    rule_id@,
                ));
            }
            assert(window_edits(f, start as int, i as int, all, p as int, line, rule_id@)
                == window_edits(f, start as int, end as int, all, p as int, line, rule_id@));
            out
        },
        None => {
            if index < file.len() {
                assert(f[index as int] == file@[index as int]@);
                add_line_edits(&mut out, file[index].as_str(), ms, None, line, rule_id);
                assert(Seq::<EditV>::empty() + line_edits(
                    f[index as int],
                    all,
                    all.len() as int,
                    None,
                    line,
                    rule_id@,
                ) =~= line_edits(f[index as int], all, all.len() as int, None, line, rule_id@));
            }
            out
        },
    }
}

/// The edits in words.
fn describe_edits(edits: &Vec<TextEdit>) -> (out: Vec<String>)
    ensures
        texts(out@) == edit_words(edit_models(edits@)),
{
    let ghost goal = edit_words(edit_models(edits@));
    let mut out: Vec<String> = Vec::new();
    let mut i: usize = 0;
    assert(texts(out@) =~= goal.take(0));
    while i < edits.len()
        invariant
            goal == edit_words(edit_models(edits@)),
            i <= edits@.len(),
            texts(out@) == goal.take(i as int),
        decreases edits.len() - i,
    {
        let mut words = "'".to_owned();
        words.append(edits[i].old_text.as_str());
        words.append("' → '");
        words.append(edits[i].new_text.as_str());
        words.append("'");
        let ghost before = texts(out@);
        assert(goal[i as int] == words@);
        out.push(words);
        assert(texts(out@) =~= before.push(goal[i as int]));
        i = i + 1;
        assert(texts(out@) =~= goal.take(i as int));
    }
    assert(goal.take(goal.len() as int) =~= goal);
    out
}

/// Plans a rename. `source` is the content of the file, where it could be read.
pub fn plan_rename(
    rule_id: &str,
    incident: &Incident,
    mappings: &Vec<RenameMapping>,
    source: Option<&str>,
) -> (r: Option<PlannedFix>)
    ensures
        opt_fix(r) == rename_fix(
            incident@,
            mapping_models(mappings@),
            match source {
                Some(s) => Some(s@),
                None => None,
            },
            rule_id@,
        ),
{
    let line = match incident.line_number {
        Some(l) => l,
        None => return None,
    };
    let source = match source {
        Some(s) => s,
        None => return None,
    };
    let edits = find_rename_edits(incident, line, mappings, source, rule_id);
    assert(edit_models(edits@).len() == edits@.len());
    if edits.len() == 0 {
        return None;
    }
    let words = describe_edits(&edits);
    let joined = join_texts(&words, ", ");
    let mut description = "Rename ".to_owned();
    description.append(joined.as_str());
    Some(
        PlannedFix {
            edits,
            confidence: FixConfidence::Exact,
            source: FixSource::Pattern,
            rule_id: rule_id.to_owned(),
            file_uri: incident.file_uri.clone(),
            line,
            description,
        },
    )
}

/// Where a scan for brackets stands.
pub ghost struct Brackets {
    /// Opening brackets less closing ones, outside of quotes.
    pub depth: int,
    /// Inside single quotes.
    pub single: bool,
    /// Inside double quotes.
    pub double: bool,
    /// Inside backquotes.
    pub back: bool,
    /// The character before.
    pub prev: char,
}

/// One character on.
pub open spec fn bracket_step(b: Brackets, c: char) -> Brackets {
    let quoted = b.single || b.double || b.back;
    if c == '\'' && !b.double && !b.back && b.prev != '\\' {
        Brackets { single: !b.single, prev: c, ..b }
    } else if c == '"' && !b.single && !b.back && b.prev != '\\' {
        Brackets { double: !b.double, prev: c, ..b }
    } else if c == '`' && !b.single && !b.double && b.prev != '\\' {
        Brackets { back: !b.back, prev: c, ..b }
    } else if (c == '{' || c == '[' || c == '(') && !quoted {
        Brackets { depth: b.depth + 1, prev: c, ..b }
    } else if (c == '}' || c == ']' || c == ')') && !quoted {
        Brackets { depth: b.depth - 1, prev: c, ..b }
    } else {
        Brackets { prev: c, ..b }
    }
}

/// The first `n` characters of a line.
pub open spec fn brackets(line: Seq<char>, n: int) -> Brackets
    decreases n,
{
    if n <= 0 || n > line.len() {
        Brackets { depth: 0, single: false, double: false, back: false, prev: '\0' }
    } else {
        bracket_step(brackets(line, n - 1), line[n - 1])
    }
}

/// The net bracket depth of a line: opening brackets less closing ones, quoted text aside.
pub open spec fn depth_of(line: Seq<char>) -> int {
    brackets(line, line.len() as int).depth
}

/// Count net bracket/brace depth change for a line.
/// Returns positive if more openers than closers, negative if more closers.
/// Ignores brackets inside string literals.
pub fn bracket_depth(line: &str) -> (r: i128)
    ensures
        r == depth_of(line@),
        -line@.len() <= r <= line@.len(),
{
    let c = chars_of(line);
    let n: usize = c.len();
    let mut depth: i128 = 0;
    let mut single = false;
    let mut double = false;
    let mut back = false;
    let mut prev = '\0';
    let mut i: usize = 0;
    while i < n
        invariant
            n == c@.len(),
            c@ == line@,
            i <= n,
            -(i as int) <= depth <= i as int,
            brackets(line@, i as int) == (Brackets { depth: depth as int, single, double, back, prev }),
        decreases n - i,
    {
        let ch = c[i];
        let quoted = single || double || back;
        if ch == '\'' && !double && !back && prev != '\\' {
            single = !single;
        } else if ch == '"' && !single && !back && prev != '\\' {
            double = !double;
        } else if ch == '`' && !single && !double && prev != '\\' {
            back = !back;
        } else if (ch == '{' || ch == '[' || ch == '(') && !quoted {
            depth = depth + 1;
        } else if (ch == '}' || ch == ']' || ch == ')') && !quoted {
            depth = depth - 1;
        }
        prev = ch;
        i = i + 1;
    }
    depth
}

/// The line at which brackets that are open by `depth` before index `from` are closed again, and
/// the depth there. Where they never are, the last line and its depth.
pub open spec fn closing_line(
    file: Seq<Seq<char>>,
    from: int,
    depth: int,
) -> (int, int)
    decreases file.len() - from,
{
    if from < 0 || from >= file.len() {
        (from - 1, depth)
    } else if depth + depth_of(file[from]) <= 0 {
        (from, depth + depth_of(file[from]))
    } else {
        closing_line(file, from + 1, depth + depth_of(file[from]))
    }
}

/// The fix that an incident gets: a pattern fix with the given edits.
pub open spec fn prop_fix(
    i: IncidentV,
    line: u32,
    edits: Seq<EditV>,
    confidence: FixConfidence,
    rule_id: Seq<char>,
    description: Seq<char>,
) -> FixV {
    FixV {
        edits,
        confidence,
        source: FixSource::Pattern,
        rule_id,
        file_uri: i.file_uri,
        line,
        description,
    }
}

/// The edits that remove the lines from index `from` up to `to`, which hold a prop.
pub open spec fn removal_edits(
    file: Seq<Seq<char>>,
    from: int,
    to: int,
    prop: Seq<char>,
    rule_id: Seq<char>,
) -> Seq<EditV>
    decreases to - from,
{
    if to <= from {
        Seq::empty()
    } else {
        removal_edits(file, from, to - 1, prop, rule_id).push(
            EditV {
                line: line_no(to - 1),
                old_text: file[to - 1],
                new_text: Seq::empty(),
                rule_id,
                description: "Remove prop '"@ + prop + "' (line "@ + decimal((to - from) as nat)
                    + " of multi-line)"@,
            },
        )
    }
}

/// Whether the old text of each edit stands in the line that the edit is for.
pub open spec fn edits_stand(edits: Seq<EditV>, file: Seq<Seq<char>>) -> bool {
    forall|k: int|
        0 <= k < edits.len() ==> line_index((#[trigger] edits[k]).line) < file.len() && contains(
            file[line_index(edits[k].line)],
            edits[k].old_text,
        )
}

/// Every text stands in itself.
pub proof fn lemma_contains_itself(s: Seq<char>)
    ensures
        contains(s, s),
{
    assert(s.subrange(0, s.len() as int) =~= s);
    assert(has_at(s, s, 0));
}

/// Lines that are removed whole stand in the file.
proof fn lemma_removals_stand(
    file: Seq<Seq<char>>,
    from: int,
    to: int,
    prop: Seq<char>,
    rule_id: Seq<char>,
)
    requires
        0 <= from,
        to <= file.len() <= u32::MAX,
    ensures
        edits_stand(removal_edits(file, from, to, prop, rule_id), file),
    decreases to - from,
{
    if from < to {
        lemma_removals_stand(file, from, to - 1, prop, rule_id);
        lemma_contains_itself(file[to - 1]);
    }
}

/// The regular expression for a prop with its value, as it stands between others.
pub open spec fn prop_pattern(prop: Seq<char>) -> Seq<char> {
    "\\s+"@ + prop + "(?:=\\{[^}]*\\}|=\"[^\"]*\"|='[^']*'|=\\{.*?\\})?"@
}

/// The fix that removes a prop from the line at an index. A prop that begins its line goes with
/// all the lines of its value; one that stands between others goes alone.
pub open spec fn remove_prop_from(
    i: IncidentV,
    line: u32,
    prop: Seq<char>,
    file: Seq<Seq<char>>,
    rule_id: Seq<char>,
) -> Option<FixV> {
    let at = line_index(line);
    let text = file[at];
    let named = "Remove prop '"@ + prop;
    if prop.is_prefix_of(trimmed(text)) {
        if depth_of(text) == 0 {
            Some(
                prop_fix(
                    i,
                    line,
                    seq![
                        EditV {
                            line,
                            old_text: text,
                            new_text: Seq::empty(),
                            rule_id,
                            description: named + "' (entire line)"@,
                        },
                    ],
                    FixConfidence::High,
                    rule_id,
                    named + "'"@,
                ),
            )
        } else {
            let end = closing_line(file, at + 1, depth_of(text));
            if end.1 > 0 {
                Some(
                    prop_fix(
                        i,
                        line,
                        Seq::empty(),
                        FixConfidence::Low,
                        rule_id,
                        named + "' (unbalanced brackets, manual)"@,
                    ),
                )
            } else {
                Some(
                    prop_fix(
                        i,
                        line,
                        removal_edits(file, at, end.0 + 1, prop, rule_id),
                        FixConfidence::High,
                        rule_id,
                        named + "' ("@ + decimal((end.0 - at + 1) as nat) + " lines)"@,
                    ),
                )
            }
        }
    } else if !regex_valid(prop_pattern(prop)) {
        None
    } else {
        match regex_first(prop_pattern(prop), text) {
            Some(m) => if depth_of(m) != 0 {
                Some(
                    prop_fix(
                        i,
                        line,
                        Seq::empty(),
                        FixConfidence::Low,
                        rule_id,
                        named + "' (multi-line inline, manual)"@,
                    ),
                )
            } else {
                Some(
                    prop_fix(
                        i,
                        line,
                        seq![
                            EditV {
                                line,
                                old_text: m,
                                new_text: Seq::empty(),
                                rule_id,
                                description: named + "'"@,
                            },
                        ],
                        FixConfidence::High,
                        rule_id,
                        named + "'"@,
                    ),
                )
            },
            None => Some(
                prop_fix(
                    i,
                    line,
                    Seq::empty(),
                    FixConfidence::Low,
                    rule_id,
                    named + "' (manual)"@,
                ),
            ),
        }
    }
}

/// The fix that removes a prop, where the incident has a line and a prop and the file has that
/// line.
pub open spec fn remove_prop_fix(
    i: IncidentV,
    source: Option<Seq<char>>,
    rule_id: Seq<char>,
) -> Option<FixV> {
    match (i.line_number, text_variable(i, "propName"@), source) {
        (Some(line), Some(prop), Some(s)) => if line_index(line) < lines_of(s).len() {
            remove_prop_from(i, line, prop, lines_of(s), rule_id)
        } else {
            None
        },
        _ => None,
    }
}

/// Three texts in a row.
fn words3(a: &str, b: &str, c: &str) -> (out: String)
    ensures
        out@ == a@ + b@ + c@,
{
    crate::text::concat3(a, b, c)
}

/// A pattern fix with the given edits.
pub fn make_fix(
    incident: &Incident,
    line: u32,
    edits: Vec<TextEdit>,
    confidence: FixConfidence,
    rule_id: &str,
    description: String,
) -> (r: PlannedFix)
    ensures
        r@ == prop_fix(
            incident@,
            line,
            edit_models(edits@),
            confidence,
            rule_id@,
            description@,
        ),
{
    PlannedFix {
        edits,
        confidence,
        source: FixSource::Pattern,
        rule_id: rule_id.to_owned(),
        file_uri: incident.file_uri.clone(),
        line,
        description,
    }
}

proof fn lemma_total_take(parts: Seq<Seq<char>>, n: int)
    requires
        0 <= n <= parts.len(),
    ensures
        total_len(parts.take(n)) <= total_len(parts),
    decreases parts.len(),
{
    if n == parts.len() {
        assert(parts.take(n) =~= parts);
    } else {
        lemma_total_take(parts.drop_last(), n);
        assert(parts.drop_last().take(n) =~= parts.take(n));
    }
}

/// The line at which brackets are closed again, and whether they are.
fn find_closing_line(file: &Vec<String>, at: usize, depth: i128, Ghost(limit): Ghost<int>) -> (r: (
    usize,
    i128,
))
    requires
        at < file@.len(),
        -texts(file@)[at as int].len() <= depth <= texts(file@)[at as int].len(),
        total_len(texts(file@)) <= limit,
        limit <= u64::MAX,
    ensures
        (r.0 as int, r.1 as int) == closing_line(texts(file@), at + 1, depth as int),
        at <= r.0 < file@.len(),
{
    let ghost f = texts(file@);
    let n: usize = file.len();
    let mut total: i128 = depth;
    let mut i: usize = at + 1;
    proof {
        assert(f.take(at + 1).drop_last() =~= f.take(at as int));
        assert(f.take(at + 1).last() == f[at as int]);
    }
    while i < n
        invariant
            n == file@.len(),
            f == texts(file@),
            at < i <= n,
            total_len(f) <= limit,
            limit <= u64::MAX,
            -(total_len(f.take(i as int)) as int) <= total <= total_len(f.take(i as int)),
            closing_line(f, at + 1, depth as int) == closing_line(f, i as int, total as int),
        decreases n - i,
    {
        assert(f[i as int] == file@[i as int]@);
        proof {
            lemma_total_take(f, i as int);
            lemma_total_take(f, i + 1);
            assert(f.take(i + 1).drop_last() =~= f.take(i as int));
            assert(f.take(i + 1).last() == f[i as int]);
        }
        let step = bracket_depth(file[i].as_str());
        total = total + step;
        if total <= 0 {
            return (i, total);
        }
        i = i + 1;
    }
    (n - 1, total)
}

/// The edits that remove lines which hold a prop.
fn find_removal_edits(
    file: &Vec<String>,
    from: usize,
    to: usize,
    prop: &str,
    rule_id: &str,
) -> (out: Vec<TextEdit>)
    requires
        from <= to <= file@.len(),
    ensures
        edit_models(out@) == removal_edits(
            texts(file@),
            from as int,
            to as int,
            prop@,
            rule_id@,
        ),
{
    let ghost f = texts(file@);
    let mut out: Vec<TextEdit> = Vec::new();
    let mut i: usize = from;
    assert(edit_models(out@) =~= removal_edits(f, from as int, i as int, prop@, rule_id@));
    while i < to
        invariant
            f == texts(file@),
            from <= i <= to <= file@.len(),
            edit_models(out@) == removal_edits(f, from as int, i as int, prop@, rule_id@),
        decreases to - i,
    {
        assert(f[i as int] == file@[i as int]@);
        let number = show_number((i - from + 1) as u64);
        let mut description = words3("Remove prop '", prop, "' (line ");
        description.append(number.as_str());
        description.append(" of multi-line)");
        push_edit(&mut out, (i + 1) as u32, file[i].as_str(), "", rule_id, description);
        proof {
            reveal_strlit("");
            assert(""@ =~= Seq::<char>::empty());
        }
        i = i + 1;
    }
    out
}

/// The edit that removes a text.
pub fn one_removal(line: u32, old_text: &str, rule_id: &str, description: String) -> (out: Vec<
    TextEdit,
>)
    ensures
        edit_models(out@) == seq![
            EditV {
                line,
                old_text: old_text@,
                new_text: Seq::empty(),
                rule_id: rule_id@,
                description: description@,
            },
        ],
{
    let mut out: Vec<TextEdit> = Vec::new();
    push_edit(&mut out, line, old_text, "", rule_id, description);
    proof {
        reveal_strlit("");
        assert(""@ =~= Seq::<char>::empty());
    }
    assert(edit_models(out@) =~= seq![
        EditV {
            line,
            old_text: old_text@,
            new_text: Seq::empty(),
            rule_id: rule_id@,
            description: description@,
        },
    ]);
    out
}

/// No edits.
pub fn no_edits() -> (out: Vec<TextEdit>)
    ensures
        edit_models(out@) == Seq::<EditV>::empty(),
{
    let out: Vec<TextEdit> = Vec::new();
    assert(edit_models(out@) =~= Seq::<EditV>::empty());
    out
}

/// Plans the removal of a prop. `source` is the content of the file, where it could be read.
pub fn plan_remove_prop(rule_id: &str, incident: &Incident, source: Option<&str>) -> (r: Option<
    PlannedFix,
>)
    ensures
        opt_fix(r) == remove_prop_fix(
            incident@,
            match source {
                Some(s) => Some(s@),
                None => None,
            },
            rule_id@,
        ),
        match (r, source) {
            (Some(fix), Some(s)) => lines_of(s@).len() <= u32::MAX ==> edits_stand(
                fix@.edits,
                lines_of(s@),
            ),
            _ => true,
        },
{
    let line = match incident.line_number {
        Some(l) => l,
        None => return None,
    };
    let prop = match get_text_variable(incident, "propName") {
        Some(p) => p,
        None => return None,
    };
    let source = match source {
        Some(s) => s,
        None => return None,
    };
    let file = lines(source);
    let ghost f = lines_of(source@);
    let at = index_of_line(line);
    if at >= file.len() {
        return None;
    }
    let text = file[at].as_str();
    assert(f[at as int] == text@);
    proof {
        lemma_contains_itself(text@);
    }
    let inner = trim(text);
    if starts_with(inner.as_str(), prop) {
        let depth = bracket_depth(text);
        if depth == 0 {
            let words = words3("Remove prop '", prop, "' (entire line)");
            let edits = one_removal(line, text, rule_id, words);
            let description = words3("Remove prop '", prop, "'");
            return Some(
                make_fix(incident, line, edits, FixConfidence::High, rule_id, description),
            );
        }
        let size = chars_of(source).len();
        proof {
            lemma_lines_total(source@);
        }
        let (end, total) = find_closing_line(&file, at, depth, Ghost(size as int));
        if total > 0 {
            let description = words3("Remove prop '", prop, "' (unbalanced brackets, manual)");
            return Some(
                make_fix(incident, line, no_edits(), FixConfidence::Low, rule_id, description),
            );
        }
        let edits = find_removal_edits(&file, at, end + 1, prop, rule_id);
        proof {
            if f.len() <= u32::MAX {
                lemma_removals_stand(f, at as int, end + 1, prop@, rule_id@);
            }
        }
        let number = show_number((end - at + 1) as u64);
        let mut description = words3("Remove prop '", prop, "' (");
        description.append(number.as_str());
        description.append(" lines)");
        Some(make_fix(incident, line, edits, FixConfidence::High, rule_id, description))
    } else {
        let pattern = words3(
            "\\s+",
            prop,
            "(?:=\\{[^}]*\\}|=\"[^\"]*\"|='[^']*'|=\\{.*?\\})?",
        );
        let re = match regex::Regex::new(pattern.as_str()) {
            Ok(x) => x,
            Err(_) => return None,
        };
        match find_text(&re, text) {
            Some(m) => {
                if bracket_depth(m.as_str()) != 0 {
                    let description = words3(
                        "Remove prop '",
                        prop,
                        "' (multi-line inline, manual)",
                    );
                    return Some(
                        make_fix(
                            incident,
                            line,
                            no_edits(),
                            FixConfidence::Low,
                            rule_id,
                            description,
                        ),
                    );
                }
                let words = words3("Remove prop '", prop, "'");
                let edits = one_removal(line, m.as_str(), rule_id, words);
                let description = words3("Remove prop '", prop, "'");
                Some(make_fix(incident, line, edits, FixConfidence::High, rule_id, description))
            },
            None => {
                let description = words3("Remove prop '", prop, "' (manual)");
                Some(
                    make_fix(
                        incident,
                        line,
                        no_edits(),
                        FixConfidence::Low,
                        rule_id,
                        description,
                    ),
                )
            },
        }
    }
}

/// The fix that changes an import path, where the incident has a line.
pub open spec fn import_path_fix(
    i: IncidentV,
    old_path: Seq<char>,
    new_path: Seq<char>,
    rule_id: Seq<char>,
) -> Option<FixV> {
    match i.line_number {
        Some(line) => Some(
            prop_fix(
                i,
                line,
                seq![
                    EditV {
                        line,
                        old_text: old_path,
                        new_text: new_path,
                        rule_id,
                        description: "Change import path '"@ + old_path + "' → '"@ + new_path
                            + "'"@,
                    },
                ],
                FixConfidence::Exact,
                rule_id,
                "Change import path to '"@ + new_path + "'"@,
            ),
        ),
        None => None,
    }
}

/// Plans the change of an import path.
pub fn plan_import_path_change(
    rule_id: &str,
    incident: &Incident,
    old_path: &str,
    new_path: &str,
) -> (r: Option<PlannedFix>)
    ensures
        opt_fix(r) == import_path_fix(incident@, old_path@, new_path@, rule_id@),
{
    let line = match incident.line_number {
        Some(l) => l,
        None => return None,
    };
    let mut words = words3("Change import path '", old_path, "' → '");
    words.append(new_path);
    words.append("'");
    let mut edits: Vec<TextEdit> = Vec::new();
    let ghost goal = EditV {
        line,
        old_text: old_path@,
        new_text: new_path@,
        rule_id: rule_id@,
        description: words@,
    };
    push_edit(&mut edits, line, old_path, new_path, rule_id, words);
    assert(edit_models(edits@) =~= seq![goal]);
    let description = words3("Change import path to '", new_path, "'");
    Some(make_fix(incident, line, edits, FixConfidence::Exact, rule_id, description))
}

/// The regular expression for a quoted version.
pub open spec fn version_pattern() -> Seq<char> {
    "(\"[\\^~><=]*\\d+\\.\\d+\\.\\d+[^\"]*\")"@
}

/// The fix that updates a dependency to a new version, for the version found on the line.
pub open spec fn update_fix(
    i: IncidentV,
    line: u32,
    package: Seq<char>,
    found: Seq<char>,
    new_version: Seq<char>,
    rule_id: Seq<char>,
) -> FixV {
    let quoted = "\""@ + new_version + "\""@;
    prop_fix(
        i,
        line,
        seq![
            EditV {
                line,
                old_text: found,
                new_text: quoted,
                rule_id,
                description: "Update "@ + package + " from "@ + found + " to "@ + quoted,
            },
        ],
        FixConfidence::Exact,
        rule_id,
        "Update "@ + package + " to "@ + new_version,
    )
}

/// The fix that updates a dependency, where the line of the incident names the package and holds
/// a version.
pub open spec fn update_dependency_fix(
    i: IncidentV,
    package: Seq<char>,
    new_version: Seq<char>,
    source: Option<Seq<char>>,
    rule_id: Seq<char>,
) -> Option<FixV> {
    match (i.line_number, source) {
        (Some(line), Some(s)) => {
            let file = lines_of(s);
            let at = line_index(line);
            if at < file.len() && contains(file[at], package) && regex_valid(version_pattern()) {
                match regex_first(version_pattern(), file[at]) {
                    Some(found) => Some(
                        update_fix(i, line, package, found, new_version, rule_id),
                    ),
                    None => None,
                }
            } else {
                None
            }
        },
        _ => None,
    }
}

/// The fix that updates a dependency to a new version, for the version found on the line.
pub fn make_update_fix(
    rule_id: &str,
    incident: &Incident,
    line: u32,
    package: &str,
    found: &str,
    new_version: &str,
) -> (r: PlannedFix)
    ensures
        r@ == update_fix(incident@, line, package@, found@, new_version@, rule_id@),
{
    let quoted = words3("\"", new_version, "\"");
    let mut words = words3("Update ", package, " from ");
    words.append(found);
    words.append(" to ");
    words.append(quoted.as_str());
    let ghost goal = EditV {
        line,
        old_text: found@,
        new_text: quoted@,
        rule_id: rule_id@,
        description: words@,
    };
    let mut edits: Vec<TextEdit> = Vec::new();
    push_edit(&mut edits, line, found, quoted.as_str(), rule_id, words);
    assert(edit_models(edits@) =~= seq![goal]);
    let mut description = words3("Update ", package, " to ");
    description.append(new_version);
    make_fix(incident, line, edits, FixConfidence::Exact, rule_id, description)
}

/// Plans the update of a dependency. `source` is the content of the file, where it could be
/// read.
pub fn plan_update_dependency(
    rule_id: &str,
    incident: &Incident,
    package: &str,
    new_version: &str,
    source: Option<&str>,
) -> (r: Option<PlannedFix>)
    ensures
        opt_fix(r) == update_dependency_fix(
            incident@,
            package@,
            new_version@,
            match source {
                Some(s) => Some(s@),
                None => None,
            },
            rule_id@,
        ),
        match (r, source) {
            (Some(fix), Some(s)) => edits_stand(fix@.edits, lines_of(s@)),
            _ => true,
        },
{
    let line = match incident.line_number {
        Some(l) => l,
        None => return None,
    };
    let source = match source {
        Some(s) => s,
        None => return None,
    };
    let file = lines(source);
    let at = index_of_line(line);
    if at >= file.len() {
        return None;
    }
    let text = file[at].as_str();
    assert(lines_of(source@)[at as int] == text@);
    if !has_text(text, package) {
        return None;
    }
    let re = match regex::Regex::new("(\"[\\^~><=]*\\d+\\.\\d+\\.\\d+[^\"]*\")") {
        Ok(x) => x,
        Err(_) => return None,
    };
    match find_text(&re, text) {
        Some(found) => Some(
            make_update_fix(rule_id, incident, line, package, found.as_str(), new_version),
        ),
        None => None,
    }
}

} // verus!
