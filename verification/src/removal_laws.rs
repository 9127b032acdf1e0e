//! What the fixes for single incidents change, and which lines they touch.

use crate::fix::{
    entry_renames, entry_strategy, renames_in, EditV, EntryV, FixV, MappingV, StrategyV,
};
use crate::fixers::{
    bracket_step, brackets, closing_line, depth_of, import_path_fix, line_no, matched_text,
    prop_pattern, remove_prop_fix, removal_edits, rename_edits, rename_fix, text_variable,
    update_dependency_fix, version_pattern, Brackets,
};
use crate::incident::IncidentV;
use crate::pattern::{regex_first, regex_valid};
use crate::plan_laws::lemma_pushed;
use crate::text::{contains, lines_of, trimmed};
use vstd::prelude::*;

verus! {

// ---- Brackets ----

/// How many of the first `n` characters of a line are one of three.
pub open spec fn count_of(line: Seq<char>, n: int, a: char, b: char, c: char) -> int
    decreases n,
{
    if n <= 0 || n > line.len() {
        0
    } else {
        count_of(line, n - 1, a, b, c) + if line[n - 1] == a || line[n - 1] == b || line[n - 1]
            == c {
            1int
        } else {
            0
        }
    }
}

/// Whether a line has no quotes.
pub open spec fn unquoted(line: Seq<char>) -> bool {
    forall|k: int|
        0 <= k < line.len() ==> (#[trigger] line[k]) != '\'' && line[k] != '"' && line[k] != '`'
}

proof fn lemma_depth(line: Seq<char>, n: int)
    requires
        unquoted(line),
        0 <= n <= line.len(),
    ensures
        brackets(line, n).depth == count_of(line, n, '{', '[', '(') - count_of(
            line,
            n,
            '}',
            ']',
            ')',
        ),
        !brackets(line, n).single && !brackets(line, n).double && !brackets(line, n).back,
    decreases n,
{
    if n > 0 {
        lemma_depth(line, n - 1);
        assert(line[n - 1] != '\'');
    }
}

/// The depth of a line without quotes is the number of its opening brackets, of all three kinds,
/// less that of its closing ones.
pub proof fn law_depth_counts(line: Seq<char>)
    requires
        unquoted(line),
    ensures
        depth_of(line) == count_of(line, line.len() as int, '{', '[', '(') - count_of(
            line,
            line.len() as int,
            '}',
            ']',
            ')',
        ),
{
    lemma_depth(line, line.len() as int);
}

/// Inside of a quotation nothing but its closing quote changes anything: brackets and other quotes
/// count for nothing there.
pub proof fn law_quoted_is_ignored(b: Brackets, c: char)
    requires
        b.single && !b.double && !b.back && c != '\'' || b.double && !b.single && !b.back && c
            != '"' || b.back && !b.single && !b.double && c != '`',
    ensures
        bracket_step(b, c) == (Brackets { prev: c, ..b }),
{
}

/// A quote opens a quotation, and the same one closes it, unless a backslash stands before it.
pub proof fn law_quote_opens_and_closes(b: Brackets, c: char, prev: char)
    requires
        c == '\'' || c == '"' || c == '`',
        !b.single && !b.double && !b.back,
        b.prev != '\\' && prev != '\\',
    ensures
        ({
            let inside = bracket_step(b, c);
            &&& inside.single == (c == '\'')
            &&& inside.double == (c == '"')
            &&& inside.back == (c == '`')
            &&& bracket_step(Brackets { prev, ..inside }, c) == (Brackets { prev: c, ..b })
            &&& bracket_step(Brackets { prev: '\\', ..inside }, c) == (Brackets {
                prev: c,
                ..inside
            })
        }),
{
}

// ---- Removing a prop ----

/// The depth after the lines from one up to another.
pub open spec fn depth_over(file: Seq<Seq<char>>, from: int, to: int) -> int
    decreases to - from,
{
    if to <= from {
        0
    } else {
        depth_over(file, from, to - 1) + depth_of(file[to - 1])
    }
}

proof fn lemma_depth_first(file: Seq<Seq<char>>, from: int, to: int)
    requires
        from < to,
    ensures
        depth_over(file, from, to) == depth_of(file[from]) + depth_over(file, from + 1, to),
    decreases to - from,
{
    if from + 1 < to {
        lemma_depth_first(file, from, to - 1);
    } else {
        assert(depth_over(file, from, from) == 0);
        assert(depth_over(file, from + 1, from + 1) == 0);
    }
}

proof fn lemma_closing_line(file: Seq<Seq<char>>, from: int, depth: int, end: int)
    requires
        0 <= from <= end < file.len(),
        depth + depth_over(file, from, end + 1) <= 0,
        forall|k: int|
            from <= k < end ==> depth + #[trigger] depth_over(file, from, k + 1) > 0,
    ensures
        closing_line(file, from, depth) == (end, depth + depth_over(file, from, end + 1)),
    decreases end - from,
{
    lemma_depth_first(file, from, end + 1);
    if from < end {
        assert(depth + depth_over(file, from, from + 1) > 0);
        assert(depth_over(file, from, from + 1) == depth_of(file[from])) by {
            assert(depth_over(file, from, from) == 0);
        }
        assert forall|k: int| from + 1 <= k < end implies depth + depth_of(file[from])
            + #[trigger] depth_over(file, from + 1, k + 1) > 0 by {
            lemma_depth_first(file, from, k + 1);
            assert(depth + depth_over(file, from, k + 1) > 0);
        }
        lemma_closing_line(file, from + 1, depth + depth_of(file[from]), end);
    } else {
        assert(depth_over(file, from + 1, from + 1) == 0);
    }
}

/// Whether edits take away the lines from one up to another, each as a whole, and nothing else.
pub open spec fn take_away(
    edits: Seq<EditV>,
    file: Seq<Seq<char>>,
    from: int,
    to: int,
    rule_id: Seq<char>,
) -> bool {
    &&& edits.len() == to - from
    &&& forall|k: int|
        0 <= k < edits.len() ==> {
            &&& (#[trigger] edits[k]).line == line_no(from + k)
            &&& edits[k].old_text == file[from + k]
            &&& edits[k].new_text == Seq::<char>::empty()
            &&& edits[k].rule_id == rule_id
        }
}

proof fn lemma_removal_edits(
    file: Seq<Seq<char>>,
    from: int,
    to: int,
    prop: Seq<char>,
    rule_id: Seq<char>,
)
    requires
        from <= to,
    ensures
        take_away(removal_edits(file, from, to, prop, rule_id), file, from, to, rule_id),
    decreases to - from,
{
    if from < to {
        lemma_removal_edits(file, from, to - 1, prop, rule_id);
        let before = removal_edits(file, from, to - 1, prop, rule_id);
        let now = removal_edits(file, from, to, prop, rule_id);
        assert forall|k: int| 0 <= k < now.len() implies {
            &&& (#[trigger] now[k]).line == line_no(from + k)
            &&& now[k].old_text == file[from + k]
            &&& now[k].new_text == Seq::<char>::empty()
            &&& now[k].rule_id == rule_id
        } by {
            if k < before.len() {
                assert(now[k] == before[k]);
            }
        }
    }
}

/// Whether an incident is about a prop on a line of a file.
pub open spec fn about_prop(
    i: IncidentV,
    source: Seq<char>,
    line: u32,
    prop: Seq<char>,
) -> bool {
    &&& i.line_number == Some(line)
    &&& text_variable(i, "propName"@) == Some(prop)
    &&& 1 <= line <= lines_of(source).len()
}

/// A prop that begins its line, with a value that goes on over the following lines, is removed with
/// all of them: up to the first line behind which all its brackets are closed.
pub proof fn law_lines_of_prop_removed(
    i: IncidentV,
    source: Seq<char>,
    rule_id: Seq<char>,
    line: u32,
    prop: Seq<char>,
    end: int,
)
    requires
        about_prop(i, source, line, prop),
        prop.is_prefix_of(trimmed(lines_of(source)[line - 1])),
        depth_of(lines_of(source)[line - 1]) != 0,
        line <= end < lines_of(source).len(),
        depth_over(lines_of(source), line - 1, end + 1) <= 0,
        forall|k: int|
            line <= k < end ==> #[trigger] depth_over(lines_of(source), line - 1, k + 1) > 0,
    ensures
        remove_prop_fix(i, Some(source), rule_id) is Some,
        take_away(
            remove_prop_fix(i, Some(source), rule_id)->0.edits,
            lines_of(source),
            line - 1,
            end + 1,
            rule_id,
        ),
        remove_prop_fix(i, Some(source), rule_id)->0.confidence is High,
{
    let file = lines_of(source);
    let at = line - 1;
    let depth = depth_of(file[at]);
    lemma_depth_first(file, at, end + 1);
    assert forall|k: int| at + 1 <= k < end implies depth + #[trigger] depth_over(
        file,
        at + 1,
        k + 1,
    ) > 0 by {
        lemma_depth_first(file, at, k + 1);
        assert(depth_over(file, line - 1, k + 1) > 0);
    }
    lemma_closing_line(file, at + 1, depth, end);
    lemma_removal_edits(file, at, end + 1, prop, rule_id);
}

/// A prop that begins its line, with brackets that are closed there, is removed with that line.
pub proof fn law_line_of_prop_removed(
    i: IncidentV,
    source: Seq<char>,
    rule_id: Seq<char>,
    line: u32,
    prop: Seq<char>,
)
    requires
        about_prop(i, source, line, prop),
        prop.is_prefix_of(trimmed(lines_of(source)[line - 1])),
        depth_of(lines_of(source)[line - 1]) == 0,
    ensures
        remove_prop_fix(i, Some(source), rule_id) is Some,
        take_away(
            remove_prop_fix(i, Some(source), rule_id)->0.edits,
            lines_of(source),
            line - 1,
            line as int,
            rule_id,
        ),
        remove_prop_fix(i, Some(source), rule_id)->0.confidence is High,
{
}

/// A prop that stands between others on its line is removed alone; where its brackets are not
/// closed, or it is not found, nothing is changed and the fix is one of low confidence.
pub proof fn law_inline_prop_removed(
    i: IncidentV,
    source: Seq<char>,
    rule_id: Seq<char>,
    line: u32,
    prop: Seq<char>,
)
    requires
        about_prop(i, source, line, prop),
        !prop.is_prefix_of(trimmed(lines_of(source)[line - 1])),
    ensures
        ({
            let found = regex_first(prop_pattern(prop), lines_of(source)[line - 1]);
            let fix = remove_prop_fix(i, Some(source), rule_id);
            &&& fix is Some <==> regex_valid(prop_pattern(prop))
            &&& fix is Some && found is Some && depth_of(found->0) == 0 ==> {
                &&& fix->0.confidence is High
                &&& fix->0.edits.len() == 1
                &&& fix->0.edits[0].line == line
                &&& fix->0.edits[0].old_text == found->0
                &&& fix->0.edits[0].new_text.len() == 0
            }
            &&& fix is Some && (found is None || depth_of(found->0) != 0) ==> {
                &&& fix->0.confidence is Low
                &&& fix->0.edits.len() == 0
            }
        }),
{
}

/// Without a line, a prop, a source or that line in it, no prop is removed.
pub proof fn law_no_prop_no_fix(i: IncidentV, source: Option<Seq<char>>, rule_id: Seq<char>)
    requires
        i.line_number is None || text_variable(i, "propName"@) is None || source is None
            || i.line_number->0 > lines_of(source->0).len(),
        i.line_number is Some ==> i.line_number->0 >= 1,
    ensures
        remove_prop_fix(i, source, rule_id) is None,
{
}

// ---- All fixes ----

/// Whether a fix is for an incident: it names the rule, the file and the line.
pub open spec fn is_for(f: FixV, i: IncidentV, rule_id: Seq<char>) -> bool {
    &&& f.rule_id == rule_id
    &&& f.file_uri == i.file_uri
    &&& i.line_number == Some(f.line)
    &&& f.source is Pattern
}

/// Every fix is for the incident that it was made for.
pub proof fn law_fixes_are_for_incidents(
    i: IncidentV,
    ms: Seq<(Seq<char>, Seq<char>)>,
    a: Seq<char>,
    b: Seq<char>,
    source: Option<Seq<char>>,
    rule_id: Seq<char>,
)
    ensures
        rename_fix(i, ms, source, rule_id) is Some ==> is_for(
            rename_fix(i, ms, source, rule_id)->0,
            i,
            rule_id,
        ),
        remove_prop_fix(i, source, rule_id) is Some ==> is_for(
            remove_prop_fix(i, source, rule_id)->0,
            i,
            rule_id,
        ),
        import_path_fix(i, a, b, rule_id) is Some ==> is_for(
            import_path_fix(i, a, b, rule_id)->0,
            i,
            rule_id,
        ),
        update_dependency_fix(i, a, b, source, rule_id) is Some ==> is_for(
            update_dependency_fix(i, a, b, source, rule_id)->0,
            i,
            rule_id,
        ),
{
}

/// A rename is planned where there is anything to rename, and is certain of it.
pub proof fn law_rename_planned(
    i: IncidentV,
    ms: Seq<(Seq<char>, Seq<char>)>,
    line: u32,
    source: Seq<char>,
    rule_id: Seq<char>,
)
    requires
        i.line_number == Some(line),
    ensures
        ({
            let fix = rename_fix(i, ms, Some(source), rule_id);
            &&& fix is Some <==> rename_edits(i, line, ms, source, rule_id).len() > 0
            &&& fix is Some ==> fix->0.edits == rename_edits(i, line, ms, source, rule_id)
                && fix->0.confidence is Exact
        }),
{
}

/// An import path is changed on the line of the incident, and nothing else is.
pub proof fn law_import_path_changed(
    i: IncidentV,
    old_path: Seq<char>,
    new_path: Seq<char>,
    rule_id: Seq<char>,
)
    ensures
        ({
            let fix = import_path_fix(i, old_path, new_path, rule_id);
            &&& fix is Some <==> i.line_number is Some
            &&& fix is Some ==> {
                &&& fix->0.edits.len() == 1
                &&& fix->0.edits[0].line == i.line_number->0
                &&& fix->0.edits[0].old_text == old_path
                &&& fix->0.edits[0].new_text == new_path
                &&& fix->0.confidence is Exact
            }
        }),
{
}

/// A dependency is updated on the line of the incident where that line names the package: the
/// version that is found there gives way to the new one, in quotes.
pub proof fn law_dependency_updated(
    i: IncidentV,
    package: Seq<char>,
    version: Seq<char>,
    source: Seq<char>,
    line: u32,
    rule_id: Seq<char>,
)
    requires
        i.line_number == Some(line),
        1 <= line <= lines_of(source).len(),
    ensures
        regex_valid(version_pattern()) ==> ({
            let text = lines_of(source)[line - 1];
            let found = regex_first(version_pattern(), text);
            let fix = update_dependency_fix(i, package, version, Some(source), rule_id);
            &&& fix is Some <==> contains(text, package) && found is Some
            &&& fix is Some ==> {
                &&& fix->0.edits.len() == 1
                &&& fix->0.edits[0].line == line
                &&& fix->0.edits[0].old_text == found->0
                &&& fix->0.edits[0].new_text == seq!['"'] + version + seq!['"']
                &&& fix->0.confidence is Exact
            }
        }),
{
    reveal_strlit("\"");
    assert("\""@ =~= seq!['"']);
}

/// The text that an incident is about is that of the first of these variables that is a text: the
/// prop, the component, the import, the class and the variable.
pub proof fn law_matched_text(i: IncidentV)
    ensures
        ({
            let p = text_variable(i, "propName"@);
            let c = text_variable(i, "componentName"@);
            let n = text_variable(i, "importedName"@);
            let k = text_variable(i, "className"@);
            let v = text_variable(i, "variableName"@);
            &&& p is Some ==> matched_text(i) == p->0
            &&& p is None && c is Some ==> matched_text(i) == c->0
            &&& p is None && c is None && n is Some ==> matched_text(i) == n->0
            &&& p is None && c is None && n is None && k is Some ==> matched_text(i) == k->0
            &&& p is None && c is None && n is None && k is None && v is Some ==> matched_text(i)
                == v->0
        }),
{
}

// ---- Strategies ----

proof fn lemma_renames(mappings: Seq<MappingV>, n: int, m: (Seq<char>, Seq<char>))
    requires
        0 <= n <= mappings.len(),
    ensures
        renames_in(mappings, n).contains(m) <==> exists|k: int|
            0 <= k < n && (#[trigger] mappings[k]).from == Some(m.0) && mappings[k].to == Some(m.1),
        renames_in(mappings, n).len() <= n,
        (forall|k: int| 0 <= k < n ==> (#[trigger] mappings[k]).from is Some && mappings[k].to is Some)
            ==> renames_in(mappings, n).len() == n,
    decreases n,
{
    if n > 0 {
        lemma_renames(mappings, n - 1, m);
        let before = renames_in(mappings, n - 1);
        let now = renames_in(mappings, n);
        let last = mappings[n - 1];
        if last.from is Some && last.to is Some {
            let x = (last.from->0, last.to->0);
            assert(now == before.push(x));
            lemma_pushed(before, x, m);
        } else {
            assert(now == before);
        }
    }
}

/// The renames of an entry with mappings are those of its mappings that have both names.
pub proof fn law_mappings_are_renames(e: EntryV, m: (Seq<char>, Seq<char>))
    requires
        exists|k: int|
            0 <= k < e.mappings.len() && (#[trigger] e.mappings[k]).from is Some
                && e.mappings[k].to is Some,
    ensures
        entry_renames(e).contains(m) <==> exists|k: int|
            0 <= k < e.mappings.len() && (#[trigger] e.mappings[k]).from == Some(m.0)
                && e.mappings[k].to == Some(m.1),
{
    let k = choose|k: int|
        0 <= k < e.mappings.len() && (#[trigger] e.mappings[k]).from is Some
            && e.mappings[k].to is Some;
    let n = e.mappings.len() as int;
    let x = (e.mappings[k].from->0, e.mappings[k].to->0);
    lemma_renames(e.mappings, n, x);
    assert(renames_in(e.mappings, n).contains(x));
    lemma_renames(e.mappings, n, m);
}

/// An entry without such mappings has the one rename that it names itself, if it does.
pub proof fn law_entry_is_rename(e: EntryV)
    requires
        forall|k: int|
            0 <= k < e.mappings.len() ==> (#[trigger] e.mappings[k]).from is None
                || e.mappings[k].to is None,
    ensures
        e.from is Some && e.to is Some ==> entry_renames(e).len() == 1 && entry_renames(e)[0] == (
            e.from->0,
            e.to->0,
        ),
        e.from is None || e.to is None ==> entry_renames(e).len() == 0,
{
    let listed = renames_in(e.mappings, e.mappings.len() as int);
    if listed.len() > 0 {
        lemma_renames(e.mappings, e.mappings.len() as int, listed[0]);
        assert(listed.contains(listed[0]));
    }
}

/// An entry for a rename renames, unless there is nothing to rename.
pub proof fn law_rename_entry(e: EntryV)
    requires
        e.strategy == "Rename"@,
    ensures
        entry_renames(e).len() > 0 ==> entry_strategy(e) == StrategyV::Rename(entry_renames(e)),
        entry_renames(e).len() == 0 ==> entry_strategy(e) is Manual,
{
}

proof fn lemma_strategy_names()
    ensures
        "Rename"@ != "RemoveProp"@,
        "Rename"@ != "CssVariablePrefix"@,
        "Rename"@ != "ImportPathChange"@,
        "Rename"@ != "UpdateDependency"@,
        "Rename"@ != "PropValueChange"@,
        "Rename"@ != "PropTypeChange"@,
        "Rename"@ != "LlmAssisted"@,
        "RemoveProp"@ != "CssVariablePrefix"@,
        "RemoveProp"@ != "ImportPathChange"@,
        "RemoveProp"@ != "UpdateDependency"@,
        "RemoveProp"@ != "PropValueChange"@,
        "RemoveProp"@ != "PropTypeChange"@,
        "RemoveProp"@ != "LlmAssisted"@,
        "CssVariablePrefix"@ != "ImportPathChange"@,
        "CssVariablePrefix"@ != "UpdateDependency"@,
        "CssVariablePrefix"@ != "PropValueChange"@,
        "CssVariablePrefix"@ != "PropTypeChange"@,
        "CssVariablePrefix"@ != "LlmAssisted"@,
        "ImportPathChange"@ != "UpdateDependency"@,
        "ImportPathChange"@ != "PropValueChange"@,
        "ImportPathChange"@ != "PropTypeChange"@,
        "ImportPathChange"@ != "LlmAssisted"@,
        "UpdateDependency"@ != "PropValueChange"@,
        "UpdateDependency"@ != "PropTypeChange"@,
        "UpdateDependency"@ != "LlmAssisted"@,
{
    reveal_strlit("Rename");
    reveal_strlit("RemoveProp");
    reveal_strlit("CssVariablePrefix");
    reveal_strlit("ImportPathChange");
    reveal_strlit("UpdateDependency");
    reveal_strlit("PropValueChange");
    reveal_strlit("PropTypeChange");
    reveal_strlit("LlmAssisted");
    assert("Rename"@.len() == 6);
    assert("RemoveProp"@.len() == 10);
    assert("CssVariablePrefix"@.len() == 17);
    assert("ImportPathChange"@.len() == 16);
    assert("UpdateDependency"@.len() == 16);
    assert("PropValueChange"@.len() == 15);
    assert("PropTypeChange"@.len() == 14);
    assert("LlmAssisted"@.len() == 11);
    assert("ImportPathChange"@[0] == 'I');
    assert("UpdateDependency"@[0] == 'U');
}

/// What every other entry stands for. One that needs two texts and lacks one of them is left for
/// manual attention, and so is one of a kind that is not known.
pub proof fn law_other_entry(e: EntryV)
    ensures
        e.strategy == "RemoveProp"@ ==> entry_strategy(e) is RemoveProp,
        e.strategy == "CssVariablePrefix"@ && e.from is Some && e.to is Some ==> entry_strategy(e)
            == StrategyV::CssVariablePrefix(e.from->0, e.to->0),
        e.strategy == "ImportPathChange"@ && e.from is Some && e.to is Some ==> entry_strategy(e)
            == StrategyV::ImportPathChange(e.from->0, e.to->0),
        (e.strategy == "CssVariablePrefix"@ || e.strategy == "ImportPathChange"@) && (e.from is None
            || e.to is None) ==> entry_strategy(e) is Manual,
        e.strategy == "UpdateDependency"@ && e.package is Some && e.new_version is Some
            ==> entry_strategy(e) == StrategyV::UpdateDependency(e.package->0, e.new_version->0),
        e.strategy == "UpdateDependency"@ && (e.package is None || e.new_version is None)
            ==> entry_strategy(e) is Manual,
        e.strategy == "PropValueChange"@ || e.strategy == "PropTypeChange"@ || e.strategy
            == "LlmAssisted"@ ==> entry_strategy(e) is Llm,
        entry_strategy(e) is Llm ==> e.strategy == "PropValueChange"@ || e.strategy
            == "PropTypeChange"@ || e.strategy == "LlmAssisted"@,
        entry_strategy(e) is Rename ==> e.strategy == "Rename"@,
        entry_strategy(e) is RemoveProp ==> e.strategy == "RemoveProp"@,
        entry_strategy(e) is CssVariablePrefix ==> e.strategy == "CssVariablePrefix"@,
        entry_strategy(e) is ImportPathChange ==> e.strategy == "ImportPathChange"@,
        entry_strategy(e) is UpdateDependency ==> e.strategy == "UpdateDependency"@,
{
    lemma_strategy_names();
}

} // verus!
