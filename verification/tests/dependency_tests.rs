use frontend_analyzer::capabilities::DependencyCondition;
use frontend_analyzer::dependency::{
    check_dependencies, check_single_package_json, find_key_line, find_package_jsons,
    parse_loose_semver, strip_npm_prefix, version_in_bounds, workspace_patterns, ChildPackage,
    DependencyError, LockfileEntry, PackageFile,
};
use frontend_analyzer::incident::Incident;

#[test]
fn test_strip_npm_prefix() {
    assert_eq!(strip_npm_prefix("^6.4.1"), "6.4.1");
    assert_eq!(strip_npm_prefix("~5.4.2"), "5.4.2");
    assert_eq!(strip_npm_prefix(">=1.0.0"), "1.0.0");
    assert_eq!(strip_npm_prefix("5.4.2"), "5.4.2");
}

#[test]
fn test_parse_loose_semver() {
    assert_eq!(parse_loose_semver("5.4.2"), Some((5, 4, 2)));
    assert_eq!(parse_loose_semver("6.0.0-alpha.1"), Some((6, 0, 0)));
    assert_eq!(parse_loose_semver("6.4.1"), Some((6, 4, 1)));
}

#[test]
fn test_version_in_bounds() {
    let cond = DependencyCondition {
        name: None,
        nameregex: None,
        upperbound: Some("5.99.99".into()),
        lowerbound: None,
    };
    // v5 should match (<=5.99.99)
    assert!(version_in_bounds("^5.4.14", &cond));
    assert!(version_in_bounds("5.4.2", &cond));
    // v6 should NOT match (>5.99.99)
    assert!(!version_in_bounds("^6.4.1", &cond));
    assert!(!version_in_bounds("6.0.0", &cond));
}

fn react_core_below_6() -> DependencyCondition {
    DependencyCondition {
        name: Some("@patternfly/react-core".into()),
        nameregex: None,
        upperbound: Some("5.99.99".into()),
        lowerbound: None,
    }
}

fn package(path: &str, content: &str) -> PackageFile {
    PackageFile {
        path: path.to_string(),
        content: content.to_string(),
    }
}

fn dependent(name: &str, version: &str, constraint: &str) -> LockfileEntry {
    LockfileEntry {
        name: name.to_string(),
        version: version.to_string(),
        dependencies: vec![("@patternfly/react-core".to_string(), constraint.to_string())],
    }
}

fn text<'a>(incident: &'a Incident, name: &str) -> Option<&'a str> {
    incident.variables.get(name).and_then(|v| v.as_str())
}

#[test]
fn test_check_dependencies_finds_lockfile_dependents_npm() {
    // react-core already at v6, but react-topology at v5
    let packages = vec![package(
        "/project/package.json",
        r#"{
  "name": "test-project",
  "devDependencies": {
    "@patternfly/react-core": "^6.4.1",
    "@patternfly/react-topology": "5.2.1",
    "@patternfly/react-table": "^6.4.1"
  }
}"#,
    )];
    let dependents = vec![dependent("@patternfly/react-topology", "5.2.1", "^5.1.1")];
    let incidents = check_dependencies(&packages, &dependents, &react_core_below_6()).unwrap();

    // react-core itself is at v6: no primary match.
    assert_eq!(incidents.len(), 1);
    let incident = &incidents[0];
    assert_eq!(text(incident, "dependencyName"), Some("@patternfly/react-topology"));
    assert_eq!(text(incident, "dependencyVersion"), Some("5.2.1"));
    assert_eq!(text(incident, "dependencyType"), Some("devDependencies"));
    assert_eq!(text(incident, "isDependentOf"), Some("@patternfly/react-core"));
    assert_eq!(text(incident, "dependentConstraint"), Some("^5.1.1"));
    assert_eq!(incident.line_number, Some(5));
    assert!(incident.code_snip.as_ref().unwrap().contains("react-topology"));
}

#[test]
fn test_check_dependencies_finds_lockfile_dependents_yarn() {
    let packages = vec![package(
        "/project/package.json",
        r#"{
  "name": "test-project",
  "devDependencies": {
    "@patternfly/react-core": "^6.4.1",
    "@patternfly/react-log-viewer": "5.3.0"
  }
}"#,
    )];
    let dependents = vec![dependent("@patternfly/react-log-viewer", "5.3.0", "npm:^5.0.0")];
    let incidents = check_dependencies(&packages, &dependents, &react_core_below_6()).unwrap();
    assert_eq!(incidents.len(), 1);
    assert_eq!(
        text(&incidents[0], "dependencyName"),
        Some("@patternfly/react-log-viewer")
    );
    assert_eq!(
        text(&incidents[0], "isDependentOf"),
        Some("@patternfly/react-core")
    );
}

#[test]
fn test_check_dependencies_no_false_positives_for_v6_dependents() {
    // All packages at v6: no conflicts
    let packages = vec![package(
        "/project/package.json",
        r#"{
  "devDependencies": {
    "@patternfly/react-core": "^6.4.1",
    "@patternfly/react-table": "^6.4.1"
  }
}"#,
    )];
    let dependents = vec![
        LockfileEntry {
            name: "@patternfly/react-core".to_string(),
            version: "6.4.1".to_string(),
            dependencies: Vec::new(),
        },
        dependent("@patternfly/react-table", "6.4.1", "^6.0.0"),
    ];
    let incidents = check_dependencies(&packages, &dependents, &react_core_below_6()).unwrap();
    assert!(incidents.is_empty());
}

#[test]
fn test_check_dependencies_skips_non_direct_deps() {
    // react-topology is no direct dependency
    let packages = vec![package(
        "/project/package.json",
        r#"{
  "devDependencies": {
    "@patternfly/react-core": "^6.4.1"
  }
}"#,
    )];
    let dependents = vec![dependent("@patternfly/react-topology", "5.2.1", "^5.1.1")];
    let incidents = check_dependencies(&packages, &dependents, &react_core_below_6()).unwrap();
    assert!(incidents.is_empty());
}

#[test]
fn test_find_package_jsons_nested_workspace_root() {
    //   root/package.json          (no workspaces, script-only)
    //   root/frontend/package.json (workspaces: ["packages/*"])
    //   root/frontend/packages/sdk/package.json
    //   root/backend/package.json  (no workspaces)
    let root = workspace_patterns(
        "/root",
        r#"{ "name": "root", "scripts": { "start": "echo hi" } }"#,
    );
    assert!(root.is_none());
    let frontend = workspace_patterns(
        "/root/frontend",
        r#"{ "name": "frontend", "workspaces": ["packages/*"] }"#,
    );
    assert_eq!(frontend.unwrap(), vec!["/root/frontend/packages/*/package.json"]);
    let children = vec![
        ChildPackage {
            dir_name: "frontend".to_string(),
            pkg_path: "/root/frontend/package.json".to_string(),
            members: Some(vec!["/root/frontend/packages/sdk/package.json".to_string()]),
        },
        ChildPackage {
            dir_name: "backend".to_string(),
            pkg_path: "/root/backend/package.json".to_string(),
            members: None,
        },
    ];
    let found = find_package_jsons("/root/package.json", &None, &children);
    assert_eq!(
        found,
        vec![
            "/root/frontend/packages/sdk/package.json",
            "/root/frontend/package.json",
            "/root/backend/package.json",
            "/root/package.json",
        ]
    );
}

#[test]
fn test_find_package_jsons_root_with_workspaces_unchanged() {
    // When the root has workspaces, subdirectories are not scanned.
    let members = Some(vec!["/root/packages/a/package.json".to_string()]);
    let children = vec![ChildPackage {
        dir_name: "other".to_string(),
        pkg_path: "/root/other/package.json".to_string(),
        members: None,
    }];
    let found = find_package_jsons("/root/package.json", &members, &children);
    assert_eq!(
        found,
        vec!["/root/packages/a/package.json", "/root/package.json"]
    );
}

#[test]
fn test_find_package_jsons_skips_node_modules() {
    let children = vec![ChildPackage {
        dir_name: "node_modules".to_string(),
        pkg_path: "/root/node_modules/package.json".to_string(),
        members: None,
    }];
    let found = find_package_jsons("/root/package.json", &None, &children);
    assert_eq!(found, vec!["/root/package.json"]);
}

#[test]
fn test_check_dependencies_nested_workspace_root_with_v5_deps() {
    let packages = vec![
        package(
            "/root/frontend/packages/sdk/package.json",
            r#"{
  "name": "@org/sdk",
  "dependencies": {
    "@patternfly/react-core": "^6.2.2"
  }
}"#,
        ),
        package(
            "/root/frontend/package.json",
            r#"{
  "name": "frontend",
  "workspaces": ["packages/*"],
  "dependencies": {
    "@patternfly/react-core": "^5.4.10",
    "@patternfly/react-icons": "^5.4.2"
  }
}"#,
        ),
        package("/root/package.json", r#"{ "name": "root", "scripts": {} }"#),
    ];
    let incidents = check_dependencies(&packages, &Vec::new(), &react_core_below_6()).unwrap();
    assert_eq!(incidents.len(), 1);
    let incident = &incidents[0];
    assert!(incident.file_uri.contains("frontend/package.json"));
    assert_eq!(text(incident, "dependencyName"), Some("@patternfly/react-core"));
    assert_eq!(text(incident, "dependencyVersion"), Some("^5.4.10"));
}

#[test]
fn test_packages_are_listed_once() {
    let children = vec![
        ChildPackage {
            dir_name: "a".to_string(),
            pkg_path: "/root/a/package.json".to_string(),
            members: Some(vec![
                "/root/b/package.json".to_string(),
                "/root/a//package.json".to_string(),
                "/root/b/./package.json".to_string(),
            ]),
        },
        ChildPackage {
            dir_name: "b".to_string(),
            pkg_path: "/root/b/package.json".to_string(),
            members: None,
        },
    ];
    let found = find_package_jsons("/root/package.json", &None, &children);
    assert_eq!(
        found,
        vec!["/root/b/package.json", "/root/a/package.json", "/root/package.json"]
    );
}

#[test]
fn test_workspaces_as_an_object() {
    let patterns = workspace_patterns("/root", r#"{"workspaces": {"packages": ["a", 1, "b/*"]}}"#);
    assert_eq!(
        patterns.unwrap(),
        vec!["/root/a/package.json", "/root/b/*/package.json"]
    );
    assert_eq!(
        workspace_patterns("/root", r#"{"workspaces": true}"#),
        Some(Vec::new())
    );
    assert_eq!(workspace_patterns("/root", "{"), None);
}

#[test]
fn test_unreadable_package_json() {
    let r = check_single_package_json("/p/package.json", "{", &react_core_below_6());
    let Err(DependencyError::Json(message)) = r else { panic!("{r:?}") };
    assert_eq!(message, "EOF while parsing an object at line 1 column 1");
}

#[test]
fn test_name_pattern() {
    let pattern = |p: &str| DependencyCondition {
        name: None,
        nameregex: Some(p.to_string()),
        upperbound: None,
        lowerbound: None,
    };
    let content = r#"{"dependencies": {"react": "18", "vue": "3"}, "peerDependencies": {"react-dom": 1}}"#;
    let found = check_single_package_json("/p/package.json", content, &pattern("^react")).unwrap();
    assert_eq!(found.len(), 2);
    assert_eq!(text(&found[0], "dependencyName"), Some("react"));
    assert_eq!(text(&found[1], "dependencyName"), Some("react-dom"));
    assert_eq!(text(&found[1], "dependencyVersion"), Some(""));
    assert_eq!(text(&found[1], "dependencyType"), Some("peerDependencies"));
    // A pattern that cannot be compiled matters only where there is something to match.
    let r = check_single_package_json("/p/package.json", content, &pattern("("));
    assert!(matches!(r, Err(DependencyError::Pattern(_))));
    assert!(check_single_package_json("/p/package.json", "{}", &pattern("("))
        .unwrap()
        .is_empty());
}

#[test]
fn test_versions_that_cannot_be_read_are_kept() {
    let cond = DependencyCondition {
        name: None,
        nameregex: None,
        upperbound: Some("5.99.99".into()),
        lowerbound: Some("5.1".into()),
    };
    assert!(version_in_bounds("workspace:*", &cond));
    assert!(!version_in_bounds("5.0.9", &cond));
    assert!(version_in_bounds("5.1.0", &cond));
    assert_eq!(parse_loose_semver("1"), Some((1, 0, 0)));
    assert_eq!(parse_loose_semver("1.2.3+build"), Some((1, 2, 3)));
    assert_eq!(parse_loose_semver("v1"), None);
    assert_eq!(parse_loose_semver("99999999999999999999"), None);
    assert_eq!(strip_npm_prefix("  <= 2.0 "), "2.0");
}

#[test]
fn test_line_of_a_key() {
    let content = "{\n  \"a\": 1,\n  \"b\": 2\n}";
    assert_eq!(find_key_line(content, "b"), 3);
    assert_eq!(find_key_line(content, "c"), 1);
}

#[test]
fn dependents_outside_the_bounds_are_left_out() {
    let packages = vec![package(
        "/project/package.json",
        r#"{ "dependencies": { "topology": "^1.0.0" } }"#,
    )];
    let mut condition = react_core_below_6();
    condition.lowerbound = Some("5.0.0".into());
    let count = |constraint: &str| {
        let dependents = vec![dependent("topology", "1.2.0", constraint)];
        check_dependencies(&packages, &dependents, &condition).unwrap().len()
    };
    assert_eq!(count("^4.0.0"), 0);
    assert_eq!(count("npm:^4.0.0"), 0);
    assert_eq!(count("^5.1.0"), 1);
    assert_eq!(count("npm:~5.1.0"), 1);
    assert_eq!(count("^6.0.0"), 0);
    assert_eq!(count("latest"), 1);
    let other = vec![LockfileEntry {
        name: "topology".to_string(),
        version: "1.2.0".to_string(),
        dependencies: vec![("react".to_string(), "^5.0.0".to_string())],
    }];
    assert!(check_dependencies(&packages, &other, &condition).unwrap().is_empty());
}

#[test]
fn root_with_workspaces_is_checked_once() {
    let members = Some(vec![
        "/root/./package.json".to_string(),
        "/root/a/package.json".to_string(),
        "/root/package.json".to_string(),
        "/root/a/package.json".to_string(),
    ]);
    let found = find_package_jsons("/root/package.json", &members, &Vec::new());
    assert_eq!(found, vec!["/root/a/package.json", "/root/package.json"]);
}
