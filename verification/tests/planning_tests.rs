use frontend_analyzer::engine;
use frontend_analyzer::fix::{
    find_strategy, load_strategies_from_json, FixConfidence, FixPlan, FixSource, FixStrategy,
    PlannedFix, RenameMapping,
};
use frontend_analyzer::fix_engine;
use frontend_analyzer::fixers;
use frontend_analyzer::incident::{Incident, Variables};
use frontend_analyzer::report::{RuleSet, Violation};

const ROOT: &str = "/p";

fn incident(file: &str, line: Option<u32>, variables: &[(&str, &str)]) -> Incident {
    let mut v = Variables::new();
    for (name, value) in variables {
        v.insert_text(name, value);
    }
    Incident {
        file_uri: format!("file:///p/{file}"),
        line_number: line,
        code_location: None,
        message: "why".to_string(),
        code_snip: Some("snip".to_string()),
        variables: v,
        effort: None,
        links: Vec::new(),
        is_dependency_incident: false,
    }
}

fn report(rule_id: &str, labels: &[&str], incidents: Vec<Incident>) -> Vec<RuleSet> {
    vec![RuleSet {
        name: "rules".to_string(),
        violations: vec![(
            rule_id.to_string(),
            Violation { labels: labels.iter().map(|l| l.to_string()).collect(), incidents },
        )],
    }]
}

fn mapping(old: &str, new: &str) -> RenameMapping {
    RenameMapping { old: old.to_string(), new: new.to_string() }
}

fn plan(strategy: FixStrategy, incidents: Vec<Incident>, files: &[(&str, &str)]) -> FixPlan {
    engine::plan_fixes(
        &report("rule", &[], incidents),
        ROOT,
        &vec![("rule".to_string(), strategy)],
        &contents(files),
    )
}

fn contents(files: &[(&str, &str)]) -> Vec<(String, String)> {
    files.iter().map(|(p, s)| (format!("/p/{p}"), s.to_string())).collect()
}

fn only_fix(plan: &FixPlan) -> &PlannedFix {
    assert_eq!(plan.files.len(), 1);
    assert_eq!(plan.files[0].1.len(), 1);
    &plan.files[0].1[0]
}

fn edits(fix: &PlannedFix) -> Vec<(u32, &str, &str)> {
    fix.edits.iter().map(|e| (e.line, e.old_text.as_str(), e.new_text.as_str())).collect()
}

#[test]
fn rename_on_the_line_and_values_nearby() {
    let source = "1\n2\n<ToolbarItem\n  spacer={{ default: 'spacerMd' }}\n  x='spacerSm'\n>\n";
    let mappings =
        vec![mapping("spacer", "gap"), mapping("spacerMd", "gapMd"), mapping("same", "same")];
    let p = plan(
        FixStrategy::Rename(mappings),
        vec![incident("a.tsx", Some(4), &[("propName", "spacer")])],
        &[("a.tsx", source)],
    );
    let fix = only_fix(&p);
    assert_eq!(
        edits(fix),
        vec![(4, "spacer", "gap"), (4, "spacerMd", "gapMd"), (5, "spacer", "gap")]
    );
    assert_eq!(fix.confidence, FixConfidence::Exact);
    assert_eq!(fix.source, FixSource::Pattern);
    assert_eq!(
        fix.description,
        "Rename 'spacer' \u{2192} 'gap', 'spacerMd' \u{2192} 'gapMd', 'spacer' \u{2192} 'gap'"
    );
}

#[test]
fn rename_of_an_import_covers_the_file() {
    let source = "import { Chip } from 'x';\nconst a = <Chip />;\nconst b = 1;\n";
    let p = plan(
        FixStrategy::Rename(vec![mapping("Chip", "Label")]),
        vec![incident("a.tsx", Some(1), &[("importedName", "Chip")])],
        &[("a.tsx", source)],
    );
    assert_eq!(edits(only_fix(&p)), vec![(1, "Chip", "Label"), (2, "Chip", "Label")]);
}

#[test]
fn rename_of_values_on_the_line() {
    let p = plan(
        FixStrategy::Rename(vec![mapping("cyan", "teal"), mapping("gold", "yellow")]),
        vec![incident("a.tsx", Some(1), &[("propName", "color")])],
        &[("a.tsx", "<Banner color=\"gold\" />\n")],
    );
    assert_eq!(edits(only_fix(&p)), vec![(1, "gold", "yellow")]);
}

#[test]
fn rename_without_a_file_or_a_line_gives_nothing() {
    let strategy = || FixStrategy::Rename(vec![mapping("a", "b")]);
    let at = |line| vec![incident("a.tsx", line, &[("propName", "a")])];
    assert!(plan(strategy(), at(Some(1)), &[]).files.is_empty());
    assert!(plan(strategy(), at(None), &[("a.tsx", "a")]).files.is_empty());
    assert!(plan(strategy(), at(Some(9)), &[("b.tsx", "a")]).files.is_empty());
}

#[test]
fn css_prefix_is_a_rename() {
    let p = plan(
        FixStrategy::CssVariablePrefix {
            old_prefix: "--pf-v5-".to_string(),
            new_prefix: "--pf-v6-".to_string(),
        },
        vec![incident("a.css", Some(1), &[("variableName", "--pf-v5-x")])],
        &[("a.css", "a { color: var(--pf-v5-x); }")],
    );
    assert_eq!(edits(only_fix(&p)), vec![(1, "--pf-v5-", "--pf-v6-")]);
}

#[test]
fn prop_on_a_line_of_its_own_is_removed() {
    let p = plan(
        FixStrategy::RemoveProp,
        vec![incident("a.tsx", Some(2), &[("propName", "isActive")])],
        &[("a.tsx", "<Button\n  isActive={true}\n/>")],
    );
    let fix = only_fix(&p);
    assert_eq!(edits(fix), vec![(2, "  isActive={true}", "")]);
    assert_eq!(fix.confidence, FixConfidence::High);
    assert_eq!(fix.description, "Remove prop 'isActive'");
    assert_eq!(fix.edits[0].description, "Remove prop 'isActive' (entire line)");
}

#[test]
fn prop_over_several_lines_is_removed() {
    let p = plan(
        FixStrategy::RemoveProp,
        vec![incident("a.tsx", Some(2), &[("propName", "actions")])],
        &[("a.tsx", "<Modal\n  actions={[\n    <A/>\n  ]}\n/>")],
    );
    let fix = only_fix(&p);
    assert_eq!(
        edits(fix),
        vec![(2, "  actions={[", ""), (3, "    <A/>", ""), (4, "  ]}", "")]
    );
    assert_eq!(fix.description, "Remove prop 'actions' (3 lines)");
}

#[test]
fn prop_that_never_closes_is_left() {
    let p = plan(
        FixStrategy::RemoveProp,
        vec![incident("a.tsx", Some(1), &[("propName", "actions")])],
        &[("a.tsx", "  actions={[\n  <A/>\n")],
    );
    let fix = only_fix(&p);
    assert!(fix.edits.is_empty());
    assert_eq!(fix.confidence, FixConfidence::Low);
    assert_eq!(fix.description, "Remove prop 'actions' (unbalanced brackets, manual)");
}

#[test]
fn prop_among_others_is_removed() {
    let p = plan(
        FixStrategy::RemoveProp,
        vec![incident("a.tsx", Some(1), &[("propName", "isActive")])],
        &[("a.tsx", "<Button isActive={true} x=\"1\" />")],
    );
    assert_eq!(edits(only_fix(&p)), vec![(1, " isActive={true}", "")]);
    let p = plan(
        FixStrategy::RemoveProp,
        vec![incident("a.tsx", Some(1), &[("propName", "isActive")])],
        &[("a.tsx", "<Button />")],
    );
    assert_eq!(only_fix(&p).description, "Remove prop 'isActive' (manual)");
}

#[test]
fn import_path_is_changed() {
    let p = plan(
        FixStrategy::ImportPathChange { old_path: "a/old".to_string(), new_path: "a/new".to_string() },
        vec![incident("a.tsx", Some(3), &[])],
        &[],
    );
    let fix = only_fix(&p);
    assert_eq!(edits(fix), vec![(3, "a/old", "a/new")]);
    assert_eq!(fix.description, "Change import path to 'a/new'");
}

#[test]
fn dependency_is_updated() {
    let strategy = || FixStrategy::UpdateDependency {
        package: "@pf/core".to_string(),
        new_version: "^6.0.0".to_string(),
    };
    let at = |line| vec![incident("package.json", Some(line), &[])];
    let files = [("package.json", "{\n  \"@pf/core\": \"^5.4.0\",\n  \"other\": \"1.0.0\"\n}")];
    let p = plan(strategy(), at(2), &files);
    assert_eq!(edits(only_fix(&p)), vec![(2, "\"^5.4.0\"", "\"^6.0.0\"")]);
    assert_eq!(only_fix(&p).description, "Update @pf/core to ^6.0.0");
    assert!(plan(strategy(), at(3), &files).files.is_empty());
}

#[test]
fn manual_and_assisted_fixes() {
    let p = plan(FixStrategy::Manual, vec![incident("a.tsx", None, &[])], &[]);
    assert_eq!(p.manual.len(), 1);
    assert_eq!((p.manual[0].line, p.manual[0].message.as_str()), (0, "why"));
    assert_eq!(p.manual[0].code_snip.as_deref(), Some("snip"));
    let p = plan(FixStrategy::Llm, vec![incident("a.tsx", Some(4), &[])], &[]);
    assert_eq!(p.pending_llm.len(), 1);
    assert_eq!(p.pending_llm[0].file_path, "/p/a.tsx");
    assert_eq!(p.pending_llm[0].line, 4);
    assert!(p.pending_llm[0].source.is_none());
}

#[test]
fn strategy_from_labels_or_assistance() {
    let files = contents(&[("a.tsx", "<Button isActive />")]);
    let at = || vec![incident("a.tsx", Some(1), &[("propName", "isActive")])];
    let labelled = report("other", &["x", "change-type=prop-removal"], at());
    let p = engine::plan_fixes(&labelled, ROOT, &Vec::new(), &files);
    assert_eq!(edits(only_fix(&p)), vec![(1, " isActive", "")]);
    let p = engine::plan_fixes(&report("other", &[], at()), ROOT, &Vec::new(), &files);
    assert_eq!(p.pending_llm.len(), 1);
}

#[test]
fn installed_packages_are_left_alone() {
    let at = vec![incident("node_modules/x/a.tsx", Some(1), &[])];
    let p = plan(FixStrategy::Manual, at, &[]);
    assert!(p.manual.is_empty());
    let at = vec![incident("src/vendor/a.tsx", Some(1), &[])];
    assert_eq!(plan(FixStrategy::Manual, at, &[]).manual.len(), 1);
}

#[test]
fn fixes_stand_by_file_from_the_last_line_up() {
    let strategy =
        FixStrategy::ImportPathChange { old_path: "a".to_string(), new_path: "b".to_string() };
    let p = plan(
        strategy,
        vec![
            incident("b.tsx", Some(1), &[]),
            incident("a.tsx", Some(2), &[]),
            incident("b.tsx", Some(7), &[]),
            incident("b.tsx", Some(3), &[]),
        ],
        &[],
    );
    let found: Vec<(&str, Vec<u32>)> =
        p.files.iter().map(|(f, x)| (f.as_str(), x.iter().map(|y| y.line).collect())).collect();
    assert_eq!(found, vec![("/p/a.tsx", vec![2]), ("/p/b.tsx", vec![7, 3, 1])]);
}

#[test]
fn known_strategies_keep_the_order_too() {
    let at = |file: &str, line| incident(file, Some(line), &[("propName", "theme")]);
    let files = contents(&[("b.tsx", "theme\ntheme\ntheme"), ("a.tsx", "theme")]);
    let incidents = vec![at("b.tsx", 1), at("a.tsx", 1), at("b.tsx", 3), at("b.tsx", 2)];
    let p = fix_engine::plan_fixes(&report("pfv6-prop-remove-nav-theme", &[], incidents), ROOT, &files);
    let found: Vec<(&str, Vec<u32>)> =
        p.files.iter().map(|(f, x)| (f.as_str(), x.iter().map(|y| y.line).collect())).collect();
    assert_eq!(found, vec![("/p/a.tsx", vec![1]), ("/p/b.tsx", vec![3, 2, 1])]);
}

#[test]
fn path_of_a_uri_of_a_path() {
    for (path, root) in [("/a/b.ts", "/p"), ("a/b.ts", "/p"), ("a/b.ts", "/p/")] {
        let absolute = frontend_analyzer::text::join_path(root, path);
        let uri = frontend_analyzer::scanner::path_to_uri(path, root);
        assert_eq!(engine::uri_to_path(&uri, "/elsewhere"), absolute);
    }
}

#[test]
fn strategies_from_a_document() {
    let document = r#"{
        "r1": { "strategy": "Rename", "mappings": [{ "from": "a", "to": "b" }] },
        "r2": { "strategy": "RemoveProp" }
    }"#;
    let table = load_strategies_from_json(document).unwrap();
    assert_eq!(table.len(), 2);
    match find_strategy(&table, "r1") {
        Some(FixStrategy::Rename(m)) => {
            assert_eq!((m[0].old.as_str(), m[0].new.as_str()), ("a", "b"))
        }
        other => panic!("unexpected {other:?}"),
    }
    assert!(matches!(find_strategy(&table, "r2"), Some(FixStrategy::RemoveProp)));
    assert!(find_strategy(&table, "r3").is_none());
    assert!(load_strategies_from_json("{").is_err());
}

#[test]
fn known_strategies() {
    let table = fix_engine::build_strategy_table();
    match find_strategy(&table, "pfv6-prop-value-banner-color") {
        Some(FixStrategy::Rename(m)) => {
            let found: Vec<(&str, &str)> = m.iter().map(|x| (x.old.as_str(), x.new.as_str())).collect();
            assert_eq!(found, vec![("cyan", "teal"), ("gold", "yellow")]);
        }
        other => panic!("unexpected {other:?}"),
    }
    assert!(matches!(
        find_strategy(&table, "pfv6-prop-remove-nav-theme"),
        Some(FixStrategy::RemoveProp)
    ));
    assert!(find_strategy(&table, "no-such-rule").is_none());
}

#[test]
fn plan_from_known_strategies() {
    let files = contents(&[("a.tsx", "<Banner variant=\"gold\"\n  theme={[\n />")]);
    let at = |line, prop| vec![incident("a.tsx", Some(line), &[("propName", prop)])];
    let p = fix_engine::plan_fixes(
        &report("pfv6-prop-value-banner-color", &[], at(1, "variant")),
        ROOT,
        &files,
    );
    assert_eq!(edits(only_fix(&p)), vec![(1, "gold", "yellow")]);
    let p = fix_engine::plan_fixes(
        &report("pfv6-prop-remove-nav-theme", &[], at(2, "theme")),
        ROOT,
        &files,
    );
    assert_eq!(edits(only_fix(&p)), vec![(2, "  theme={[", "")]);
}

#[test]
fn prop_removal_without_its_file() {
    let i = incident("a.tsx", Some(1), &[("propName", "x")]);
    assert!(fix_engine::plan_remove_prop("rule", &i, None).is_none());
    let fix = fix_engine::plan_remove_prop("rule", &i, Some("<A x='1' y />")).unwrap();
    assert_eq!(edits(&fix), vec![(1, " x='1'", "")]);
}

#[test]
fn removed_props_stand_in_their_lines() {
    let source = "<A x='1' y />\n<B\n  x={{\n    a: 1,\n  }}\n/>\n";
    let lines: Vec<&str> = source.lines().collect();
    for line in [1, 3] {
        let i = incident("a.tsx", Some(line), &[("propName", "x")]);
        for fix in [
            fixers::plan_remove_prop("rule", &i, Some(source)).unwrap(),
            fix_engine::plan_remove_prop("rule", &i, Some(source)).unwrap(),
        ] {
            assert!(!fix.edits.is_empty());
            for (at, old_text, _) in edits(&fix) {
                assert!(lines[at as usize - 1].contains(old_text), "{at}: {old_text}");
            }
        }
    }
}
