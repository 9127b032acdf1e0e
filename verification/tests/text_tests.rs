use frontend_analyzer::capabilities::DependencyCondition;
use frontend_analyzer::dependency::{check_single_package_json, is_skipped_package_dir};
use frontend_analyzer::index_lookup::get_stem;
use frontend_analyzer::json::{parse_json, parse_shallow_json, Json};
use frontend_analyzer::paths::{path_has, rank_paths, same_path, strip_dir};
use frontend_analyzer::pattern::compile_opt;
use frontend_analyzer::scanner::{
    collect_files, is_skipped_dir, scan_file_classnames, scan_file_css_vars,
};
use frontend_analyzer::spans::{slice_between, slice_within};
use frontend_analyzer::text::{
    extension, file_name, has_text, join_path, join_texts, lines, rank_texts, replace_first,
    show_number, split_on, trim, Rank,
};
use regex::Regex;
use std::path::Path;

#[test]
fn joining_undoes_splitting() {
    for s in ["", "a", "a/b", "/a//b/"] {
        assert_eq!(join_texts(&split_on(s, '/'), "/"), s);
    }
    assert_eq!(split_on("a/b/", '/'), vec!["a", "b", ""]);
}

#[test]
fn lines_of_a_text() {
    for s in ["", "a", "a\n", "a\r\nb\r", "\n\n", "a\r\r\n"] {
        let expected: Vec<String> = s.lines().map(str::to_string).collect();
        assert_eq!(lines(s), expected);
    }
}

#[test]
fn trimming_and_replacing() {
    for s in ["", "  a b\t\n", "\u{a0}x\u{3000}", "x"] {
        assert_eq!(trim(s), s.trim());
    }
    assert_eq!(replace_first("aXbX", "X", "y").as_deref(), Some("aybX"));
    assert_eq!(replace_first("ab", "", "y").as_deref(), Some("yab"));
    assert_eq!(replace_first("ab", "X", "y"), None);
    assert!(has_text("abc", "bc") && has_text("abc", "") && !has_text("abc", "cb"));
}

#[test]
fn numbers_are_shown() {
    for n in [0u64, 9, 10, 4711, u64::MAX] {
        assert_eq!(show_number(n), n.to_string());
    }
}

#[test]
fn order_of_texts() {
    assert_eq!(rank_texts("a", "b"), Rank::Less);
    assert_eq!(rank_texts("b", "a"), Rank::More);
    assert_eq!(rank_texts("a", "a"), Rank::Same);
    assert_eq!(rank_texts("a", "ab"), Rank::Less);
}

#[test]
fn order_of_paths() {
    assert_eq!(rank_paths("a/b", "a.x"), Rank::Less);
    assert_eq!(rank_paths("a//b/.", "a/b"), Rank::Same);
    assert_eq!(rank_paths("/b", "/a/c"), Rank::More);
}

#[test]
fn names_and_extensions() {
    assert_eq!(file_name("/a/b.ts").as_deref(), Some("b.ts"));
    assert_eq!(file_name("/a/..").as_deref(), None);
    assert_eq!(extension("/a/b.d.ts").as_deref(), Some("ts"));
    assert_eq!(extension("/a/.env").as_deref(), None);
    assert_eq!(join_path("/a", "b"), "/a/b");
    assert_eq!(join_path("/a/", "b"), "/a/b");
    assert_eq!(join_path("/a", "/b"), "/b");
}

#[test]
fn components_of_paths() {
    assert!(same_path("/a/./b/", "/a//b"));
    assert!(!same_path("a", "./a"));
    assert!(path_has("/a/node_modules/b", "node_modules"));
    assert!(!path_has("/a/node_modules2/b", "node_modules"));
    assert_eq!(strip_dir("/p/src/a.ts", "/p/").as_deref(), Some("src/a.ts"));
    assert_eq!(strip_dir("/p2/a.ts", "/p"), None);
}

#[test]
fn slices_by_bytes() {
    assert_eq!(slice_between("a\u{e9}b", 1, 3).as_deref(), Some("\u{e9}"));
    assert_eq!(slice_between("a\u{e9}b", 1, 2), None);
    assert_eq!(slice_between("ab", 1, 9), None);
    assert_eq!(slice_within("ab", 1, 9), "b");
}

#[test]
fn patterns_are_compiled() {
    assert!(matches!(compile_opt(&None), Ok(None)));
    assert!(matches!(compile_opt(&Some("a+".to_string())), Ok(Some(_))));
    assert!(compile_opt(&Some("(".to_string())).is_err());
}

#[test]
fn documents_are_read() {
    let expected = Json::Object(vec![(
        "a".to_string(),
        Json::List(vec![Json::Null, Json::Bool(true), Json::Text("x".to_string())]),
    )]);
    assert_eq!(parse_json("{\"a\": [null, true, \"x\"]}"), Some(expected));
    assert_eq!(parse_json("{"), None);
    let deep = format!("{}{}", "[".repeat(200), "]".repeat(200));
    assert!(parse_json(&deep).is_some());
    let too_deep = "recursion limit exceeded at line 1 column 128".to_string();
    assert_eq!(parse_shallow_json(&deep), Err(too_deep));
    assert_eq!(parse_shallow_json("1"), Ok(Json::Number("1".to_string())));
}

#[test]
fn files_that_are_scanned() {
    let paths: Vec<String> =
        ["/p/a.tsx", "/p/b.css", "/p/c.mjs", "/p/d", "/p/e.d.ts"].iter().map(|p| p.to_string()).collect();
    assert_eq!(collect_files(&paths, &None).unwrap(), vec!["/p/a.tsx", "/p/c.mjs", "/p/e.d.ts"]);
    let filter = Some("\\.tsx$".to_string());
    assert_eq!(collect_files(&paths, &filter).unwrap(), vec!["/p/a.tsx"]);
    assert!(collect_files(&paths, &Some("(".to_string())).is_err());
    assert!(is_skipped_dir("node_modules") && !is_skipped_dir("src"));
    assert!(is_skipped_package_dir("__mocks__") && !is_skipped_package_dir("packages"));
}

#[test]
fn incidents_show_five_lines_around() {
    let source = "1\n2\n3\n4\n5\n6\nconst a = <div className=\"pf-x\" />;\n8\n9\n10\n11\n12\n13\n";
    let re = Regex::new("pf-x").unwrap();
    let (found, error) = scan_file_classnames("/p/a.tsx", source, "/p", &re);
    assert!(error.is_none());
    assert_eq!(found.len(), 1);
    assert_eq!(found[0].line_number, Some(7));
    assert_eq!(
        found[0].code_snip.as_deref(),
        Some(
            " 2  2\n 3  3\n 4  4\n 5  5\n 6  6\n 7  const a = <div className=\"pf-x\" />;\n \
             8  8\n 9  9\n10  10\n11  11\n12  12\n"
        )
    );
}

#[test]
fn incidents_show_the_lines_that_are_there() {
    let re = Regex::new("--x").unwrap();
    let (found, _) = scan_file_css_vars("/p/a.ts", "const a = '--x';", "/p", &re);
    assert_eq!(found.len(), 1);
    assert_eq!(found[0].code_snip.as_deref(), Some("1  const a = '--x';\n"));
}

#[test]
fn unparsable_file_gives_its_message() {
    let re = Regex::new("x").unwrap();
    let (found, error) = scan_file_classnames("/p/a.tsx", "const = <", "/p", &re);
    assert!(found.is_empty());
    let error = error.unwrap();
    assert_eq!(error.file_path, "/p/a.tsx");
    assert!(!error.message.is_empty());
}

#[test]
fn dependencies_show_three_lines_around() {
    let condition = DependencyCondition {
        name: Some("b".to_string()),
        nameregex: None,
        upperbound: Some("2.0.0".to_string()),
        lowerbound: None,
    };
    let content = "{\n  \"dependencies\": {\n    \"a\": \"1.0.0\",\n    \"b\": \"^2.0.0\",\n    \"c\": \"3.0.0\"\n  }\n}\n";
    let found = check_single_package_json("/p/package.json", content, &condition).unwrap();
    assert_eq!(found.len(), 1);
    assert_eq!(
        found[0].code_snip.as_deref(),
        Some(
            "1  {\n2    \"dependencies\": {\n3      \"a\": \"1.0.0\",\n4      \"b\": \"^2.0.0\",\n\
             5      \"c\": \"3.0.0\"\n6    }\n7  }\n"
        )
    );
}

/// Paths made of a few segments, absolute and relative, with and without a slash at the end.
fn many_paths() -> Vec<String> {
    let segments = ["", ".", "..", "a", "b.ts", ".c", "d."];
    let mut paths = vec![String::new(), "/".to_string(), "//".to_string()];
    for x in segments {
        for y in segments {
            for z in segments {
                paths.push(format!("{x}/{y}/{z}"));
                paths.push(format!("{x}{y}{z}"));
            }
        }
    }
    paths
}

#[test]
fn paths_compare_by_components() {
    let paths = many_paths();
    for a in &paths {
        for b in paths.iter().step_by(7) {
            let (p, q) = (Path::new(a), Path::new(b));
            assert_eq!(same_path(a, b), p == q, "{a} {b}");
            let expected = if p < q {
                Rank::Less
            } else if p == q {
                Rank::Same
            } else {
                Rank::More
            };
            assert_eq!(rank_paths(a, b), expected, "{a} {b}");
        }
    }
}

#[test]
fn paths_below_directories() {
    let paths = many_paths();
    for a in &paths {
        for b in paths.iter().step_by(5) {
            let expected = Path::new(a).strip_prefix(b).ok().map(|p| p.to_string_lossy().into_owned());
            assert_eq!(strip_dir(a, b), expected, "{a} {b}");
            assert_eq!(join_path(a, b), Path::new(a).join(b).to_string_lossy(), "{a} {b}");
        }
    }
}

#[test]
fn names_in_paths() {
    for a in &many_paths() {
        let p = Path::new(a);
        let name = p.file_name().map(|s| s.to_string_lossy().into_owned());
        assert_eq!(file_name(a), name, "{a}");
        let ext = p.extension().map(|s| s.to_string_lossy().into_owned());
        assert_eq!(extension(a), ext, "{a}");
        if let (Some(name), Some(stem)) = (name, p.file_stem()) {
            assert_eq!(get_stem(&name), stem.to_string_lossy(), "{a}");
        }
        let has = p.components().any(|c| c.as_os_str() == "a");
        assert_eq!(path_has(a, "a"), has, "{a}");
    }
}

#[test]
fn white_space_is_trimmed() {
    for c in (0..0x3100u32).filter_map(char::from_u32) {
        let s = format!("{c}x{c}");
        assert_eq!(trim(&s), s.trim(), "{:x}", c as u32);
    }
}

#[test]
fn texts_compare_by_characters() {
    let texts = ["", "a", "ab", "b", "\u{e9}", "\u{ffff}", "\u{10000}", "z", "Z"];
    for a in texts {
        for b in texts {
            let expected = if a < b {
                Rank::Less
            } else if a == b {
                Rank::Same
            } else {
                Rank::More
            };
            assert_eq!(rank_texts(a, b), expected);
        }
    }
}
