use frontend_analyzer::apply::{
    apply_file, apply_fixes, apply_to_source, dedup_import_specifiers,
    dedup_specifiers, preview_fixes,
};
use frontend_analyzer::fix::{
    FixConfidence, FixPlan, FixResult, FixSource, PlannedFix, TextEdit,
};

fn edit(line: u32, old_text: &str, new_text: &str) -> TextEdit {
    TextEdit {
        line,
        old_text: old_text.to_string(),
        new_text: new_text.to_string(),
        rule_id: "rule".to_string(),
        description: String::new(),
    }
}

fn fix(edits: Vec<TextEdit>) -> PlannedFix {
    PlannedFix {
        edits,
        confidence: FixConfidence::Exact,
        source: FixSource::Pattern,
        rule_id: "rule".to_string(),
        file_uri: String::new(),
        line: 1,
        description: String::new(),
    }
}

fn plan(files: Vec<(&str, Vec<PlannedFix>)>) -> FixPlan {
    FixPlan {
        files: files.into_iter().map(|(p, f)| (p.to_string(), f)).collect(),
        manual: Vec::new(),
        pending_llm: Vec::new(),
    }
}

#[test]
fn edit_changes_first_occurrence_on_its_line() {
    let r = apply_to_source("aa aa\naa\n", &vec![fix(vec![edit(1, "aa", "b")])]);
    assert_eq!(r.output.as_deref(), Some("b aa\naa\n"));
    assert_eq!((r.applied, r.skipped), (1, 0));
}

#[test]
fn same_edit_is_applied_once() {
    let fixes = vec![fix(vec![edit(1, "a", "ab")]), fix(vec![edit(1, "a", "ab")])];
    let r = apply_to_source("a", &fixes);
    assert_eq!(r.output.as_deref(), Some("ab"));
    assert_eq!((r.applied, r.skipped), (1, 0));
}

#[test]
fn edit_that_does_not_fit_is_skipped() {
    let r = apply_to_source("a\n", &vec![fix(vec![edit(1, "x", "y"), edit(2, "a", "b")])]);
    assert!(r.output.is_none());
    assert_eq!((r.applied, r.skipped), (0, 2));
}

#[test]
fn line_zero_is_the_first() {
    let r = apply_to_source("a\nb", &vec![fix(vec![edit(0, "a", "c")])]);
    assert_eq!(r.output.as_deref(), Some("c\nb"));
}

#[test]
fn carriage_returns_go_and_last_newline_stays() {
    let r = apply_to_source("a\r\nb\r\n", &vec![fix(vec![edit(2, "b", "c")])]);
    assert_eq!(r.output.as_deref(), Some("a\nc\n"));
}

#[test]
fn renamed_specifiers_are_not_repeated() {
    let source = "import { TextContent, Text, Card } from 'x';\n";
    let fixes = vec![fix(vec![edit(1, "TextContent", "Content"), edit(1, "Text,", "Content,")])];
    let r = apply_to_source(source, &fixes);
    assert_eq!(r.output.as_deref(), Some("import { Content, Card } from 'x';\n"));
    assert_eq!(
        dedup_specifiers("import {", " A as B,, A , A", "} from 'x';"),
        "import { A as B, A } from 'x';"
    );
}

#[test]
fn results_of_files_add_up() {
    let p = plan(vec![
        ("/p/a", vec![fix(vec![edit(1, "a", "b")])]),
        ("/p/b", vec![fix(vec![edit(1, "a", "b")])]),
        ("/p/c", vec![fix(vec![edit(1, "a", "b")])]),
    ]);
    let sources =
        vec![Ok("a".to_string()), Err("no such file".to_string()), Ok("c".to_string())];
    let (result, writes) = apply_fixes(&p, &sources);
    assert_eq!(result.files_modified, 1);
    assert_eq!(result.edits_applied, 1);
    assert_eq!(result.edits_skipped, 1);
    assert_eq!(result.errors, vec!["/p/b: no such file".to_string()]);
    assert_eq!(writes, vec![("/p/a".to_string(), "b".to_string())]);
}

#[test]
fn file_adds_to_what_was_there() {
    let mut result = FixResult::default();
    let fixes = vec![fix(vec![edit(1, "a", "b")])];
    assert_eq!(apply_file(&mut result, "/p/a", &Ok("a".to_string()), &fixes), Some("b".to_string()));
    assert_eq!(apply_file(&mut result, "/p/b", &Err("gone".to_string()), &fixes), None);
    assert_eq!(result.files_modified, 1);
    assert_eq!(result.errors, vec!["/p/b: gone".to_string()]);
}

#[test]
fn preview_shows_three_lines_around() {
    let source = "1\n2\n3\n4\nold\n6\n7\n8\n9\n";
    let p = plan(vec![
        ("/p/a", vec![fix(vec![edit(5, "old", "new")])]),
        ("/p/b", vec![fix(vec![edit(1, "x", "y")])]),
        ("/p/c", vec![fix(vec![edit(1, "x", "y")])]),
    ]);
    let sources = vec![Ok(source.to_string()), Ok("no".to_string()), Err("gone".to_string())];
    assert_eq!(
        preview_fixes(&p, &sources),
        "--- a//p/a\n+++ b//p/a\n@@ -2,7 +2,7 @@\n 2\n 3\n 4\n-old\n+new\n 6\n 7\n 8\n"
    );
}

#[test]
fn preview_has_a_hunk_for_each_changed_line() {
    let p = plan(vec![("/p/a", vec![fix(vec![edit(2, "b", "B"), edit(1, "a", "A")])])]);
    assert_eq!(
        preview_fixes(&p, &vec![Ok("a\nb\n".to_string())]),
        "--- a//p/a\n+++ b//p/a\n@@ -1,2 +1,2 @@\n-a\n+A\n-b\n+B\n@@ -1,2 +1,2 @@\n-a\n+A\n-b\n+B\n"
    );
}

#[test]
fn preview_shows_what_is_written() {
    let source = "const a = 1;\nconst b = 2;\n";
    let fixes = || vec![fix(vec![edit(1, "a", "x"), edit(2, "b", "y"), edit(1, "1", "3")])];
    let written = apply_to_source(source, &fixes()).output.unwrap();
    assert_eq!(written, "const x = 3;\nconst y = 2;\n");
    let shown = preview_fixes(&plan(vec![("/p/a", fixes())]), &vec![Ok(source.to_string())]);
    for line in written.lines() {
        assert!(shown.contains(&format!("\n+{line}\n")), "{line}");
    }
}

#[test]
fn names_that_occur_once_stay() {
    let once = dedup_specifiers("import {", " B , A,B,  C as D ,A", "} from 'x';");
    assert_eq!(once, "import { B, A, C as D } from 'x';");
    assert_eq!(dedup_specifiers("import {", " B, A, C as D ", "} from 'x';"), once);
    let mut lines = vec![once.clone(), "A, A".to_string()];
    dedup_import_specifiers(&mut lines);
    assert_eq!(lines, vec![once, "A, A".to_string()]);
    assert_eq!(dedup_specifiers("import {", "  ", "} from 'x';"), "import {  } from 'x';");
}

#[test]
fn preview_shows_the_files_that_are_modified() {
    // The second edit is met twice; the third finds nothing.
    for (source, modified) in [("a", 1), ("b\nb", 1), ("c", 0), ("", 0)] {
        let fixes = || {
            vec![fix(vec![edit(1, "a", "x"), edit(2, "b", "y"), edit(2, "b", "y"), edit(9, "c", "z")])]
        };
        let p = plan(vec![("/p/a", fixes())]);
        let sources = vec![Ok(source.to_string())];
        assert_eq!(apply_fixes(&p, &sources).0.files_modified, modified, "{source}");
        assert_eq!(preview_fixes(&p, &sources).starts_with("--- a//p/a\n"), modified == 1, "{source}");
    }
}

#[test]
fn only_imports_of_names_are_rewritten() {
    let mut lines: Vec<String> = [
        "import { A, A } from 'x';",
        "  import\u{a0}{A,A}from\t'x'; // } from",
        "import D, { A, A } from 'x';",
        "import {} from 'x';",
        "import { A, A } from",
        "import{ A, A } from 'x';",
        "export { A, A } from 'x';",
    ]
    .iter()
    .map(|l| l.to_string())
    .collect();
    let before = lines.clone();
    dedup_import_specifiers(&mut lines);
    assert_eq!(lines[0], "import { A } from 'x';");
    assert_eq!(lines[1], "  import\u{a0}{ A }from\t'x'; // } from");
    assert_eq!(lines[2..], before[2..]);
    let once = lines.clone();
    dedup_import_specifiers(&mut lines);
    assert_eq!(lines, once);
}
