use frontend_analyzer::code_snip::get_code_snip;
use frontend_analyzer::file_uri::{path_of_uri, path_or_message, FileUri};
use frontend_analyzer::json::Json;
use frontend_analyzer::rules::{
    assemble_ruleset, inherit_labels, is_rules_file, meta_of_dir, meta_of_file, ProviderWhen, Rule,
    RuleSetMeta, WhenCondition,
};
use frontend_analyzer::serve::{Listener, ServeOpts, DEFAULT_PORT};
use frontend_analyzer::service::FrontendProvider;

fn lines(n: usize) -> Vec<String> {
    (1..=n).map(|i| format!("line {i}")).collect()
}

fn rule(labels: &[&str]) -> Rule {
    Rule {
        rule_id: "r".to_string(),
        description: String::new(),
        labels: labels.iter().map(|l| l.to_string()).collect(),
        effort: Some(1),
        category: None,
        when: WhenCondition::Provider(ProviderWhen { conditions: Vec::new() }),
        message: String::new(),
        tag: None,
        links: Vec::new(),
    }
}

#[test]
fn snippet_in_the_middle() {
    assert_eq!(
        get_code_snip(&lines(20), 9, 9, 1),
        "    9  line 9\n   10  line 10\n   11  line 11\n"
    );
}

#[test]
fn snippet_at_the_beginning() {
    assert_eq!(
        get_code_snip(&lines(20), 0, 1, 1),
        "    1  line 1\n    2  line 2\n    3  line 3\n    4  line 4\n"
    );
}

#[test]
fn snippet_at_the_end() {
    assert_eq!(get_code_snip(&lines(3), 2, 2, 1), "    2  line 2\n    3  line 3\n");
    assert_eq!(get_code_snip(&lines(3), 9, 9, 1), "");
    assert_eq!(get_code_snip(&Vec::new(), 0, 0, 10), "");
}

#[test]
fn provider_starts_without_a_project() {
    let provider = FrontendProvider::new(10);
    assert_eq!(provider.context_lines, 10);
    assert_eq!(provider.root(), Err("Provider not initialized"));
}

#[test]
fn provider_takes_a_location_that_exists() {
    let mut provider = FrontendProvider::new(10);
    let reply = provider.init("/p", true);
    assert!(reply.successful);
    assert_eq!((reply.error.as_str(), reply.id), ("", 1));
    assert_eq!(provider.root(), Ok("/p"));
    let reply = provider.init("/gone", false);
    assert!(!reply.successful);
    assert_eq!((reply.error.as_str(), reply.id), ("Location does not exist: /gone", 0));
    assert_eq!(provider.root(), Ok("/p"));
}

#[test]
fn provider_lists_its_capabilities() {
    assert_eq!(
        FrontendProvider::new(0).capabilities(),
        vec!["referenced", "cssclass", "cssvar", "dependency"]
    );
}

#[test]
fn port_goes_before_socket() {
    let both = ServeOpts { port: Some(1), socket: Some("/s".to_string()) };
    assert_eq!(both.listener(), Listener::Tcp(1));
    let socket = ServeOpts { port: None, socket: Some("/s".to_string()) };
    assert_eq!(socket.listener(), Listener::Unix("/s".to_string()));
    let none = ServeOpts { port: None, socket: None };
    assert_eq!(none.listener(), Listener::Tcp(DEFAULT_PORT));
    assert_eq!(DEFAULT_PORT, 9090);
}

#[test]
fn keys_of_conditions() {
    let when = ProviderWhen {
        conditions: vec![
            ("frontend.referenced".to_string(), Json::Bool(true)),
            ("as".to_string(), Json::Null),
            ("a.b.c".to_string(), Json::Text("x".to_string())),
        ],
    };
    let found: Vec<(String, String, &Json)> = when.parse_conditions();
    assert_eq!(found.len(), 2);
    assert_eq!((found[0].0.as_str(), found[0].1.as_str()), ("frontend", "referenced"));
    assert_eq!(found[0].2, &Json::Bool(true));
    assert_eq!((found[1].0.as_str(), found[1].1.as_str()), ("a", "b.c"));
}

#[test]
fn files_with_rules() {
    assert!(is_rules_file("a.yaml"));
    assert!(is_rules_file("a.yml"));
    assert!(is_rules_file("ruleset.yml"));
    assert!(!is_rules_file("ruleset.yaml"));
    assert!(!is_rules_file("a.json"));
}

#[test]
fn labels_are_inherited_once() {
    let mut rules = vec![rule(&["b"]), rule(&[])];
    let labels = vec!["a".to_string(), "b".to_string(), "a".to_string()];
    inherit_labels(&mut rules, &labels);
    assert_eq!(rules[0].labels, vec!["b", "a"]);
    assert_eq!(rules[1].labels, vec!["a", "b"]);
    inherit_labels(&mut rules, &labels);
    assert_eq!(rules[0].labels, vec!["b", "a"]);
    assert_eq!(rules[1].labels, vec!["a", "b"]);
}

#[test]
fn ruleset_from_a_directory() {
    let meta = RuleSetMeta {
        name: "set".to_string(),
        description: "d".to_string(),
        labels: vec!["a".to_string()],
    };
    let set = assemble_ruleset(meta, vec![rule(&["b"])], "/rules");
    assert_eq!(set.meta.name, "set");
    assert_eq!(set.source_dir, "/rules");
    assert_eq!(set.rules[0].labels, vec!["b", "a"]);
    assert_eq!(set.rules[0].effort, Some(1));
}

#[test]
fn names_of_rulesets() {
    assert_eq!(meta_of_dir("/rules/pf/").name, "pf");
    assert_eq!(meta_of_dir("/").name, "");
    assert_eq!(meta_of_file("/rules/pf.v6.yaml").name, "pf.v6");
    assert_eq!(meta_of_file("/rules/.hidden").name, ".hidden");
    assert!(meta_of_file("/rules/x.yaml").labels.is_empty());
}

#[test]
fn path_of_a_file_uri() {
    assert_eq!(path_of_uri("file:///p/a%20b.tsx"), Ok(b"/p/a b.tsx".to_vec()));
    // A path need not be Unicode.
    assert_eq!(path_of_uri("file:///tmp/%FF"), Ok(b"/tmp/\xff".to_vec()));
    assert_eq!(
        path_of_uri("p/a.tsx"),
        Err("invalid URI 'p/a.tsx': relative URL without a base".to_string())
    );
    assert_eq!(
        path_of_uri("mailto:a@b"),
        Err("cannot convert URI to path: mailto:a@b".to_string())
    );
    assert_eq!(
        path_of_uri("file://host/p/a.tsx"),
        Err("cannot convert URI to path: file://host/p/a.tsx".to_string())
    );
}

#[test]
fn path_or_message_of_what_a_uri_came_to() {
    assert_eq!(path_or_message("u", FileUri::Path(b"/p".to_vec())), Ok(b"/p".to_vec()));
    assert_eq!(
        path_or_message("u", FileUri::NoPath),
        Err("cannot convert URI to path: u".to_string())
    );
    assert_eq!(
        path_or_message("u", FileUri::Refused("why".to_string())),
        Err("invalid URI 'u': why".to_string())
    );
}
