use frontend_analyzer::classnames::scan_classname_usage;
use frontend_analyzer::incident::Incident;
use frontend_analyzer::json::Json;
use frontend_analyzer::scanner::{parse_program, SourceKind};
use regex::Regex;

fn scan_source(source: &str, pattern: &str) -> Vec<Incident> {
    let program = parse_program(source, SourceKind::Tsx).unwrap();
    let re = Regex::new(pattern).unwrap();
    program
        .get("body")
        .and_then(|body| body.as_list())
        .unwrap()
        .iter()
        .flat_map(|stmt| scan_classname_usage(stmt, source, &re, "file:///test.tsx"))
        .collect()
}

#[test]
fn test_jsx_classname_string_literal() {
    let source = r#"const el = <div className="pf-m-expandable">hello</div>;"#;
    let incidents = scan_source(source, r"pf-m-expandable");
    assert_eq!(incidents.len(), 1);
    assert_eq!(
        incidents[0].variables.get("matchingText"),
        Some(&Json::Text("pf-m-expandable".to_string()))
    );
}

#[test]
fn test_jsx_class_attribute() {
    let source = r#"const el = <div class="pf-m-expandable">hello</div>;"#;
    let incidents = scan_source(source, r"pf-m-expandable");
    assert_eq!(incidents.len(), 1);
}

#[test]
fn test_string_literal_in_variable() {
    let source = r#"const cls = "pf-m-expandable";"#;
    let incidents = scan_source(source, r"pf-m-expandable");
    assert_eq!(incidents.len(), 1);
}

#[test]
fn test_template_literal() {
    let source = r#"const cls = `pf-m-expandable ${other}`;"#;
    let incidents = scan_source(source, r"pf-m-expandable");
    assert_eq!(incidents.len(), 1);
}

#[test]
fn classnames_test_no_match() {
    let source = r#"const el = <div className="something-else">hello</div>;"#;
    let incidents = scan_source(source, r"pf-m-expandable");
    assert!(incidents.is_empty());
}

#[test]
fn test_nested_jsx_classname() {
    let source = r#"const el = <div><span className="pf-m-expandable">hi</span></div>;"#;
    let incidents = scan_source(source, r"pf-m-expandable");
    assert_eq!(incidents.len(), 1);
}

#[test]
fn test_classname_inside_map_callback() {
    let source = r#"
        const el = <ul>{items.map((item) => (
            <li className="pf-v5-c-tabs__item">text</li>
        ))}</ul>;
    "#;
    let incidents = scan_source(source, r"pf-v5-");
    assert_eq!(incidents.len(), 1);
    assert_eq!(
        incidents[0].variables.get("matchingText"),
        Some(&Json::Text("pf-v5-c-tabs__item".to_string()))
    );
}

#[test]
fn test_classname_inside_ternary() {
    let source = r#"
        const el = <div>{condition ? (
            <span className="pf-v5-c-button pf-m-plain">click</span>
        ) : null}</div>;
    "#;
    let incidents = scan_source(source, r"pf-v5-");
    assert_eq!(incidents.len(), 1);
}

#[test]
fn test_classname_inside_logical_and() {
    let source = r#"
        const el = <div>{show && <span className="pf-v5-c-icon">icon</span>}</div>;
    "#;
    let incidents = scan_source(source, r"pf-v5-");
    assert_eq!(incidents.len(), 1);
}

#[test]
fn test_classname_inside_nested_map_and_ternary() {
    let source = r#"
        const el = <div>{items.map((item) => (
            item.visible ? <span className="pf-v5-c-label">label</span> : null
        ))}</div>;
    "#;
    let incidents = scan_source(source, r"pf-v5-");
    assert_eq!(incidents.len(), 1);
}

#[test]
fn test_classname_in_get_elements_by_classname() {
    let source = r#"
        const els = document.getElementsByClassName("pf-c-wizard__main-body");
    "#;
    let incidents = scan_source(source, r"pf-c-wizard");
    assert_eq!(incidents.len(), 1);
}

#[test]
fn test_classname_inside_prop_value_ternary() {
    // Simulates platform-form.tsx: className on <button> inside a ternary
    // inside a JSX prop value on a non-exported component
    let source = r#"
        const MyForm: React.FC = () => {
            return (
                <FormGroup
                    labelIcon={
                        condition ? (
                            <Popover>
                                <button className="pf-v5-c-button pf-m-plain">
                                    <HelpIcon />
                                </button>
                            </Popover>
                        ) : undefined
                    }
                />
            );
        };
    "#;
    let incidents = scan_source(source, r"pf-v5-");
    assert_eq!(
        incidents.len(),
        1,
        "Should find pf-v5 inside prop value ternary"
    );
}

#[test]
fn test_classname_inside_optional_chain_map() {
    // `items?.map()` is an optional chain.
    let source = r#"
        const Table: React.FC = () => {
            return (
                <tbody>{currentPageItems?.map((item) => (
                    <tr>
                        <td className="pf-v5-c-tooltip__content">text</td>
                    </tr>
                ))}</tbody>
            );
        };
    "#;
    let incidents = scan_source(source, r"pf-v5-");
    assert_eq!(
        incidents.len(),
        1,
        "Should find pf-v5 inside optional chain .map() callback"
    );
}

#[test]
fn test_classname_inside_optional_chain_filter_map() {
    // Chained optional: items?.filter(...)?.map(...)
    let source = r#"
        const el = <ul>{items?.filter(Boolean)?.map((item) => (
            <li className="pf-v5-c-tabs__item">text</li>
        ))}</ul>;
    "#;
    let incidents = scan_source(source, r"pf-v5-");
    assert_eq!(incidents.len(), 1);
}

#[test]
fn test_classname_inside_for_loop() {
    let source = r#"
        function render() {
            const els = [];
            for (let i = 0; i < items.length; i++) {
                els.push(<div className="pf-v5-c-button">btn</div>);
            }
            return els;
        }
    "#;
    let incidents = scan_source(source, r"pf-v5-");
    assert_eq!(incidents.len(), 1, "Should find pf-v5 inside for loop");
}

#[test]
fn test_classname_inside_switch() {
    let source = r#"
        function render(type: string) {
            switch (type) {
                case "a":
                    return <div className="pf-v5-c-alert">alert</div>;
                default:
                    return null;
            }
        }
    "#;
    let incidents = scan_source(source, r"pf-v5-");
    assert_eq!(incidents.len(), 1, "Should find pf-v5 inside switch");
}

#[test]
fn test_classname_inside_try_catch() {
    let source = r#"
        function render() {
            try {
                return <div className="pf-v5-c-card">card</div>;
            } catch (e) {
                return <span className="pf-v5-c-alert">error</span>;
            }
        }
    "#;
    let incidents = scan_source(source, r"pf-v5-");
    assert_eq!(incidents.len(), 2, "Should find pf-v5 in try and catch");
}

#[test]
fn test_classname_inside_ts_as_expression() {
    let source = r#"
        const el = <div style={{
            color: "red"
        } as React.CSSProperties} className="pf-v5-c-button">click</div>;
    "#;
    let incidents = scan_source(source, r"pf-v5-");
    assert_eq!(incidents.len(), 1);
}

// ── Tests for class component patterns (create-secret.tsx, file-input.tsx) ──

#[test]
fn test_classname_in_class_component_render() {
    // Mirrors create-secret.tsx: class component with render() returning JSX
    // containing native <input> elements with className
    let source = r#"
        class BasicAuthSubform extends React.Component<Props, State> {
            render() {
                return (
                    <>
                        <div className="form-group">
                            <input
                                className="pf-v5-c-form-control"
                                type="text"
                                name="username"
                            />
                        </div>
                        <div className="form-group">
                            <input
                                className="pf-v5-c-form-control"
                                type="password"
                                name="password"
                            />
                        </div>
                    </>
                );
            }
        }
    "#;
    let incidents = scan_source(source, r"pf-v5-");
    assert_eq!(
        incidents.len(),
        2,
        "Should find pf-v5 in class component render() method"
    );
}

#[test]
fn test_classname_in_jsx_returned_from_function_call() {
    // Mirrors file-input.tsx: render() returns connectDropTarget(<div>...</div>)
    // where JSX is passed as argument to a function, not in a return statement
    let source = r#"
        class FileInput extends React.Component<Props, State> {
            render() {
                return connectDropTarget(
                    <div className="co-file-dropzone">
                        <div className="pf-v5-c-input-group">
                            <input className="pf-v5-c-form-control" type="text" />
                            <span className="pf-v5-c-button pf-m-tertiary">Browse</span>
                        </div>
                    </div>,
                );
            }
        }
    "#;
    let incidents = scan_source(source, r"pf-v5-");
    assert_eq!(
        incidents.len(),
        3,
        "Should find pf-v5 in JSX passed as function call argument"
    );
}

#[test]
fn test_classname_in_jsx_binary_expression() {
    // Mirrors ApprovalTaskActionDropdown.tsx line 120-128:
    // (<Spinner className="pf-v5-u-mr-xs" />) + t('text')
    // JSX in a binary expression (addition with string)
    let source = r#"
        const tooltipContent = () => {
            return (
                (<Spinner className="pf-v5-u-mr-xs" size="sm" />) + t('Checking...')
            );
        };
    "#;
    let incidents = scan_source(source, r"pf-v5-");
    assert_eq!(
        incidents.len(),
        1,
        "Should find pf-v5 in JSX inside binary expression"
    );
}

#[test]
fn test_classname_in_class_component_with_map_callback() {
    // Mirrors create-secret.tsx render() with _.map() returning JSX
    let source = r#"
        class CreateConfigSubform extends React.Component<Props, State> {
            render() {
                const list = items.map((item, index) => {
                    return (
                        <div key={item.uid}>
                            <input className="pf-v5-c-form-control" type="text" />
                        </div>
                    );
                });
                return <>{list}</>;
            }
        }
    "#;
    let incidents = scan_source(source, r"pf-v5-");
    assert_eq!(
        incidents.len(),
        1,
        "Should find pf-v5 in class component map callback"
    );
}

#[test]
fn test_classname_on_custom_prop_name() {
    // Mirrors resource-sidebar.tsx: additionalClassNames="pf-v5-u-my-md"
    // The scanner checks className/class attrs specifically, but should also
    // catch this via string literal matching
    let source = r#"
        const el = <SimpleTabNav additionalClassNames="pf-v5-u-my-md" />;
    "#;
    let incidents = scan_source(source, r"pf-v5-");
    assert_eq!(
        incidents.len(),
        1,
        "Should find pf-v5 in custom prop string value via string literal matching"
    );
}

#[test]
fn test_classname_in_class_component_exported_with_hoc() {
    // Mirrors create-secret.tsx: class component wrapped in withTranslation() HOC
    // export const BasicAuthSubform = withTranslation()(BasicAuthSubformWithTranslation);
    let source = r#"
        class BasicAuthSubformWithTranslation extends React.Component<Props, State> {
            render() {
                return (
                    <input className="pf-v5-c-form-control" type="text" />
                );
            }
        }
        export const BasicAuthSubform = withTranslation()(BasicAuthSubformWithTranslation);
    "#;
    let incidents = scan_source(source, r"pf-v5-");
    assert_eq!(
        incidents.len(),
        1,
        "Should find pf-v5 in class component exported via HOC"
    );
}

#[test]
fn test_classname_in_css_in_js_object_key() {
    // CSS-in-JS (emotion): class name used as object property key selector
    // e.g. css({ '& > .pf-v5-c-card__body': { padding: '0 !important' } })
    let source = r#"
        const section = css({
            '& > .pf-v5-c-card__body': {
                padding: '0 !important',
            },
        });
    "#;
    let incidents = scan_source(source, r"pf-v5-");
    assert_eq!(
        incidents.len(),
        1,
        "Should find pf-v5 in CSS-in-JS object key selector"
    );
    assert_eq!(
        incidents[0].variables.get("matchingText").and_then(|v| v.as_str()),
        Some("& > .pf-v5-c-card__body"),
    );
}

#[test]
fn test_classname_in_direct_object_key() {
    // Direct class selector as object key
    let source = r#"
        const styles = {
            '.pf-v5-c-button': { color: 'red' },
        };
    "#;
    let incidents = scan_source(source, r"pf-v5-");
    assert_eq!(
        incidents.len(),
        1,
        "Should find pf-v5 in direct object key"
    );
}

#[test]
fn test_classname_object_key_no_false_positive() {
    // Non-class-name object keys should not match
    let source = r#"
        const config = {
            'padding': '10px',
            'margin-top': '5px',
        };
    "#;
    let incidents = scan_source(source, r"pf-v5-");
    assert_eq!(
        incidents.len(),
        0,
        "Should not find pf-v5 in non-class object keys"
    );
}

#[test]
fn test_classname_object_spread_property() {
    // Spread properties should be walked
    let source = r#"
        const base = "pf-v5-c-alert";
        const styles = { ...{ key: base } };
    "#;
    let incidents = scan_source(source, r"pf-v5-");
    assert_eq!(
        incidents.len(),
        1,
        "Should find pf-v5 in spread property value"
    );
}

// -- condition/test expression walking tests --

#[test]
fn test_classname_in_if_condition() {
    // Mirrors theme.tsx: if (el.classList.contains('pf-v5-theme-dark'))
    let source = r#"
        function toggle() {
            if (document.documentElement.classList.contains('pf-v5-theme-dark')) {
                setLight(true);
            }
        }
    "#;
    let incidents = scan_source(source, r"pf-v5-");
    assert_eq!(
        incidents.len(),
        1,
        "Should find pf-v5 in if condition"
    );
}

#[test]
fn test_classname_in_ternary_condition() {
    // Mirrors theme.ts: !x.contains('pf-v5-theme-dark') ? 'a' : 'b'
    let source = r#"
        const result = !document.documentElement.classList.contains('pf-v5-theme-dark')
            ? 'console-light'
            : 'console-dark';
    "#;
    let incidents = scan_source(source, r"pf-v5-");
    assert_eq!(
        incidents.len(),
        1,
        "Should find pf-v5 in ternary condition"
    );
}

#[test]
fn test_classname_in_while_condition() {
    let source = r#"
        function process() {
            while (el.classList.contains('pf-v5-c-spinner')) {
                doWork();
            }
        }
    "#;
    let incidents = scan_source(source, r"pf-v5-");
    assert_eq!(
        incidents.len(),
        1,
        "Should find pf-v5 in while condition"
    );
}

#[test]
fn test_classname_in_switch_discriminant() {
    let source = r#"
        function check() {
            switch (getClass('pf-v5-c-button')) {
                case 'a': break;
            }
        }
    "#;
    let incidents = scan_source(source, r"pf-v5-");
    assert_eq!(
        incidents.len(),
        1,
        "Should find pf-v5 in switch discriminant"
    );
}

#[test]
fn test_classname_in_iife() {
    // IIFE pattern: (() => { ... })()
    let source = r#"
        const el = (() => {
            return <div className="pf-v5-c-button">click</div>;
        })();
    "#;
    let incidents = scan_source(source, r"pf-v5-");
    assert_eq!(
        incidents.len(),
        1,
        "Should find pf-v5 inside IIFE"
    );
}
