use frontend_analyzer::fix::LlmFixRequest;
use frontend_analyzer::goose_client::{
    batch_max_turns, build_batch_prompt, build_batch_prompt_with_context, build_prompt,
    group_by_file, log_file_name, rules_display, Action, GooseFixResult, Reply, Session,
};

const CONSTRAINTS: &str = r#"IMPORTANT constraints:
- NEVER use deep import paths like '@patternfly/react-core/dist/esm/...' or '@patternfly/react-core/next'. Always use the public barrel import '@patternfly/react-core'.
- NEVER replace PatternFly components (Button, MenuToggle, etc.) with raw HTML elements (<button>, <a>, <div>). If a component still exists in PF6, keep using it.
- NEVER remove data-ouia-component-id, ouiaId, or other test identifier props unless the migration rule specifically says to.
- NEVER invent or use component names that are not mentioned in the migration rules or already imported in the file. Only use components explicitly named in the rule message.
- When adding new components (ModalHeader, ModalBody, ModalFooter, etc.), import them from the same package as the parent component.
- If the migration rule says a component was "restructured" or "still exists", keep the component and only restructure its props/children as described. If the rule says a component was "removed" and tells you to remove the import, DO remove it and migrate to the replacement described in the rule.
- When a prop migration says to pass a prop to a child component (e.g., 'actions → pass as children of <ModalFooter>'), you MUST create that child component element, import it, and render the prop value within it.

"#;

fn request(rule_id: &str, path: &str, line: u32, message: &str, snip: Option<&str>) -> LlmFixRequest {
    LlmFixRequest {
        rule_id: rule_id.to_string(),
        file_uri: format!("file://{path}"),
        file_path: path.to_string(),
        line,
        message: message.to_string(),
        code_snip: snip.map(str::to_string),
        source: None,
    }
}

fn many(n: u32) -> Vec<LlmFixRequest> {
    (1..=n).map(|i| request(&format!("r{i:02}"), "/p/A.tsx", i, "first\nsecond", None)).collect()
}

/// Runs a session with the given replies and gives the prompts, the turns and the pauses.
fn run(session: &mut Session, replies: Vec<Reply>) -> Vec<(String, u64, u64)> {
    let mut seen = Vec::new();
    for reply in replies {
        match session.next_action() {
            Action::Run { prompt, max_turns, pause_secs } => seen.push((prompt, max_turns, pause_secs)),
            Action::Finish => panic!("the session has ended"),
        }
        session.on_reply(reply);
    }
    seen
}

fn is_over(session: &Session) -> bool {
    matches!(session.next_action(), Action::Finish)
}

fn assert_result(r: &GooseFixResult, rule_id: &str, success: bool, output: &str) {
    assert_eq!(r.file_path, "/p/A.tsx");
    assert_eq!(r.rule_id, rule_id);
    assert_eq!(r.success, success);
    assert_eq!(r.output, output);
}

#[test]
fn prompt_for_one_fix() {
    let r = request("rule-a", "/p/A.tsx", 7, "Rename it", Some("code"));
    let expected = format!(
        "You are applying a PatternFly v5 to v6 migration fix.\n\nFile: /p/A.tsx\nLine: 7\n\n\
         Migration rule [rule-a]:\nRename it\n\nCode context around line 7:\n```\ncode\n```\n\n\
         Instructions:\n1. Read the file at /p/A.tsx\n\
         2. Apply ONLY the change described by the migration rule at or near line 7\n\
         3. Make the minimum edit necessary \u{2014} do not change unrelated code\n\
         4. Write the fixed file\n\n{CONSTRAINTS}\
         Do not explain what you're doing. Just read the file, make the edit, and write it."
    );
    assert_eq!(build_prompt(&r), expected);
}

#[test]
fn prompt_without_a_snippet() {
    let r = request("rule-a", "/p/A.tsx", 7, "Rename it", None);
    assert!(build_prompt(&r).contains("```\n(no code snippet available)\n```"));
}

#[test]
fn prompt_for_many_fixes() {
    let a = request("b-rule", "/p/A.tsx", 3, "Say b", Some("b3"));
    let b = request("a-rule", "/p/A.tsx", 1, "Say a", Some("a1"));
    let c = request("a-rule", "/p/A.tsx", 12, "unused", None);
    let d = request("a-rule", "/p/A.tsx", 20, "unused", Some("a20"));
    let expected = format!(
        "You are applying PatternFly v5 to v6 migration fixes to a single file.\n\n\
         File: /p/A.tsx\n\nApply ALL of the following 2 fixes to this file:\n\
         \n### Fix 1\nLines: 1, 12, 20\nRule [a-rule]:\nSay a\n\n\
         This rule affects multiple locations in the file. Apply ALL steps together as one logical change.\n\n\
         Code contexts:\n```\n  (line 1):\na1\n  (line 20):\na20\n```\n\
         \n### Fix 2\nLine: 3\nRule [b-rule]:\nSay b\n\nCode context:\n```\nb3\n```\n\n\
         Instructions:\n1. Read the file at /p/A.tsx\n2. Apply ALL 2 fixes described above\n\
         3. Make the minimum edits necessary \u{2014} do not change unrelated code\n\
         4. Do NOT revert any changes that were already applied in previous passes\n\
         5. Write the fixed file once with all changes applied\n\n{CONSTRAINTS}\
         Do not explain what you're doing. Just read the file, make the edits, and write it."
    );
    assert_eq!(build_batch_prompt("/p/A.tsx", &vec![&a, &b, &c, &d]), expected);
}

#[test]
fn prompt_with_what_was_applied() {
    let a = request("b-rule", "/p/A.tsx", 3, "Say b", None);
    let applied = vec!["- one".to_string(), "- two".to_string()];
    let prompt = build_batch_prompt_with_context("/p/A.tsx", &vec![&a], &applied);
    assert!(prompt.contains(
        "File: /p/A.tsx\n\n## Previously applied fixes (DO NOT revert these):\n\
         The following fixes were already applied to this file in a previous pass.\n\
         The file on disk already reflects these changes. Do NOT undo them.\n\
         - one\n- two\n\n\nApply ALL of the following 1 fixes to this file:\n"
    ));
    assert!(prompt.contains("Code context:\n```\n(no snippet)\n```"));
}

#[test]
fn requests_by_file() {
    let requests = vec![
        request("1", "/p/b.tsx", 1, "", None),
        request("2", "/p/a.tsx", 2, "", None),
        request("3", "/p/b.tsx", 3, "", None),
    ];
    let groups = group_by_file(&requests);
    let found: Vec<(&str, Vec<&str>)> = groups
        .iter()
        .map(|(path, group)| (path.as_str(), group.iter().map(|r| r.rule_id.as_str()).collect()))
        .collect();
    assert_eq!(found, vec![("/p/a.tsx", vec!["2"]), ("/p/b.tsx", vec!["1", "3"])]);
    let total: usize = groups.iter().map(|(_, group)| group.len()).sum();
    assert_eq!(total, requests.len());
}

#[test]
fn session_without_requests() {
    let session = Session::start("/p/A.tsx", Vec::new());
    assert!(is_over(&session));
    assert_result(&session.result(), "", true, "");
}

#[test]
fn session_with_one_request() {
    let requests = many(1);
    let mut session = Session::start("/p/A.tsx", requests.iter().collect());
    let seen = run(&mut session, vec![Reply::Finished(true, "done".to_string())]);
    assert_eq!(seen, vec![(build_prompt(&requests[0]), 5, 0)]);
    assert!(is_over(&session));
    assert_result(&session.result(), "r01", true, "done");
    assert_eq!(session.prompt_log(), build_prompt(&requests[0]));
}

#[test]
fn single_request_is_not_tried_again() {
    let requests = many(1);
    let mut session = Session::start("/p/A.tsx", requests.iter().collect());
    run(&mut session, vec![Reply::Failed("goose timed out after 120s".to_string())]);
    assert!(is_over(&session));
    assert_result(&session.result(), "r01", false, "Error: goose timed out after 120s");
}

#[test]
fn session_in_chunks() {
    let requests = many(10);
    let mut session = Session::start("/p/A.tsx", requests.iter().collect());
    let seen = run(
        &mut session,
        vec![Reply::Finished(true, "x".to_string()), Reply::Finished(true, "y".to_string())],
    );
    let first: Vec<&LlmFixRequest> = requests.iter().take(8).collect();
    let second: Vec<&LlmFixRequest> = requests.iter().skip(8).collect();
    let applied: Vec<String> = (1..=8).map(|i| format!("- r{i:02} (line {i}): first")).collect();
    let prompts = vec![
        build_batch_prompt("/p/A.tsx", &first),
        build_batch_prompt_with_context("/p/A.tsx", &second, &applied),
    ];
    assert_eq!(seen, vec![(prompts[0].clone(), 13, 0), (prompts[1].clone(), 7, 0)]);
    assert!(is_over(&session));
    assert_result(
        &session.result(),
        "r01, r02, r03, r04, r05, r06, r07, r08, r09, r10",
        true,
        "y",
    );
    assert_eq!(session.prompt_log(), prompts.join("\n\n--- NEXT CHUNK ---\n\n"));
}

#[test]
fn failed_chunk_ends_the_session() {
    let requests = many(10);
    let mut session = Session::start("/p/A.tsx", requests.iter().collect());
    run(&mut session, vec![Reply::Finished(false, "no".to_string())]);
    assert!(is_over(&session));
    assert!(!session.result().success);
    assert_eq!(session.result().output, "no");
}

#[test]
fn error_ends_the_session() {
    let requests = many(10);
    let mut session = Session::start("/p/A.tsx", requests.iter().collect());
    run(&mut session, vec![Reply::Failed("no such program".to_string())]);
    assert!(is_over(&session));
    assert_eq!(session.result().output, "Error: no such program");
}

#[test]
fn chunk_that_timed_out_is_tried_once_more() {
    let requests = many(9);
    let mut session = Session::start("/p/A.tsx", requests.iter().collect());
    let seen = run(
        &mut session,
        vec![
            Reply::Failed("goose timed out after 120s".to_string()),
            Reply::Finished(false, "late".to_string()),
            Reply::Finished(true, "end".to_string()),
        ],
    );
    assert_eq!(seen[0].0, seen[1].0);
    assert_eq!((seen[0].2, seen[1].2, seen[2].2), (0, 10, 0));
    assert!(is_over(&session));
    assert!(session.result().success);
    assert_eq!(session.result().output, "end");

    let mut again = Session::start("/p/A.tsx", requests.iter().collect());
    run(
        &mut again,
        vec![
            Reply::Failed("goose timed out after 120s".to_string()),
            Reply::Failed("goose timed out after 120s".to_string()),
        ],
    );
    assert!(is_over(&again));
    assert!(!again.result().success);
}

#[test]
fn rules_in_brief() {
    let four = many(4);
    assert_eq!(rules_display(&four.iter().collect()), "r01, r02, ... +2 more");
    let three = many(3);
    assert_eq!(rules_display(&three.iter().collect()), "r01, r02, r03");
}

#[test]
fn turns_of_a_batch() {
    assert_eq!(batch_max_turns(0), 5);
    assert_eq!(batch_max_turns(24), 29);
    assert_eq!(batch_max_turns(25), 30);
    assert_eq!(batch_max_turns(1000), 30);
}

#[test]
fn names_of_log_files() {
    assert_eq!(log_file_name(0), "goose-fix-001.json");
    assert_eq!(log_file_name(41), "goose-fix-042.json");
    assert_eq!(log_file_name(1233), "goose-fix-1234.json");
}

#[test]
fn groups_stand_in_the_order_of_their_paths() {
    let paths = ["/p/c.tsx", "/p/a/z.tsx", "/p/a.tsx", "/p/./c.tsx", "/p/a/b.tsx", "/p/a.tsx"];
    let requests: Vec<LlmFixRequest> =
        paths.iter().map(|p| request("r", p, 1, "", None)).collect();
    let groups = group_by_file(&requests);
    let found: Vec<(&str, usize)> =
        groups.iter().map(|(path, group)| (path.as_str(), group.len())).collect();
    assert_eq!(
        found,
        vec![("/p/a/b.tsx", 1), ("/p/a/z.tsx", 1), ("/p/a.tsx", 2), ("/p/c.tsx", 2)]
    );
}
