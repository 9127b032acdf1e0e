use frontend_analyzer::css_vars::scan_css_var_usage;
use frontend_analyzer::incident::Incident;
use frontend_analyzer::json::Json;
use frontend_analyzer::scanner::{parse_program, SourceKind};
use regex::Regex;

fn scan_source(source: &str, pattern: &str) -> Vec<Incident> {
    let program = parse_program(source, SourceKind::Tsx).unwrap();
    let re = Regex::new(pattern).unwrap();
    program
        .get("body")
        .and_then(|body| body.as_list())
        .unwrap()
        .iter()
        .flat_map(|stmt| scan_css_var_usage(stmt, source, &re, "file:///test.tsx"))
        .collect()
}

#[test]
fn test_string_literal_css_var() {
    let source = r#"const color = "--pf-v5-global--Color--100";"#;
    let incidents = scan_source(source, r"--pf-v5-");
    assert_eq!(incidents.len(), 1);
    assert_eq!(
        incidents[0].variables.get("matchingText"),
        Some(&Json::Text(
            "--pf-v5-global--Color--100".to_string()
        ))
    );
}

#[test]
fn test_template_literal_css_var() {
    let source = r#"const style = `var(--pf-v5-global--spacer--md)`;"#;
    let incidents = scan_source(source, r"--pf-v5-");
    assert_eq!(incidents.len(), 1);
}

#[test]
fn css_vars_test_no_match() {
    let source = r#"const color = "--pf-v6-global--Color--100";"#;
    let incidents = scan_source(source, r"--pf-v5-");
    assert!(incidents.is_empty());
}

#[test]
fn test_css_var_in_function_call() {
    let source = r#"getComputedStyle(el).getPropertyValue("--pf-v5-global--Color--100");"#;
    let incidents = scan_source(source, r"--pf-v5-");
    assert_eq!(incidents.len(), 1);
}

#[test]
fn test_css_var_in_variable_declaration() {
    let source = r#"const varName = "--pf-v5-global--spacer--lg";"#;
    let incidents = scan_source(source, r"--pf-v5-");
    assert_eq!(incidents.len(), 1);
}

#[test]
fn test_css_var_in_style_object_key() {
    let source = r#"
        const el = <div style={{ "--pf-v5-c-label--Color": "red" }}>text</div>;
    "#;
    let incidents = scan_source(source, r"--pf-v5-");
    assert_eq!(incidents.len(), 1);
    assert_eq!(
        incidents[0].variables.get("matchingText"),
        Some(&Json::Text(
            "--pf-v5-c-label--Color".to_string()
        ))
    );
}

#[test]
fn test_css_var_in_style_object_value() {
    let source = r#"
        const el = <div style={{ color: "var(--pf-v5-global--Color--100)" }}>text</div>;
    "#;
    let incidents = scan_source(source, r"--pf-v5-");
    assert_eq!(incidents.len(), 1);
}

#[test]
fn test_css_var_inside_map_callback() {
    let source = r#"
        const el = <ul>{items.map((item) => (
            <li style={{ "--pf-v5-c-label--Color": item.color }}>text</li>
        ))}</ul>;
    "#;
    let incidents = scan_source(source, r"--pf-v5-");
    assert_eq!(incidents.len(), 1);
}

#[test]
fn test_css_var_inside_ternary() {
    let source = r#"
        const el = <div>{condition ? (
            <span style={{ "--pf-v5-c-icon--Color": "blue" }}>icon</span>
        ) : null}</div>;
    "#;
    let incidents = scan_source(source, r"--pf-v5-");
    assert_eq!(incidents.len(), 1);
}

#[test]
fn test_css_var_inside_logical_and() {
    let source = r#"
        const el = <div>{show && <span style={{ "--pf-v5-c-icon--Color": "blue" }}>icon</span>}</div>;
    "#;
    let incidents = scan_source(source, r"--pf-v5-");
    assert_eq!(incidents.len(), 1);
}

#[test]
fn test_css_var_in_object_expression() {
    let source = r#"
        const styles = {
            "--pf-v5-c-label__content--before--BorderColor": borderColor,
            "--pf-v5-c-label--BackgroundColor": backgroundColor,
        };
    "#;
    let incidents = scan_source(source, r"--pf-v5-");
    assert_eq!(incidents.len(), 2);
}

#[test]
fn test_css_var_in_ts_as_expression() {
    let source = r#"
        const el = <Label style={{
            "--pf-v5-c-label__content--before--BorderColor": borderColor,
            "--pf-v5-c-label--BackgroundColor": backgroundColor,
        } as React.CSSProperties} />;
    "#;
    let incidents = scan_source(source, r"--pf-v5-");
    assert_eq!(incidents.len(), 2);
}

#[test]
fn test_css_var_in_ts_satisfies_expression() {
    let source = r#"
        const styles = {
            "--pf-v5-c-label--Color": "red",
        } satisfies Record<string, string>;
    "#;
    let incidents = scan_source(source, r"--pf-v5-");
    assert_eq!(incidents.len(), 1);
}

// --- Statements ---

#[test]
fn test_css_var_inside_if_block() {
    // Reproduces the PipelineRunsStatusCard.tsx Gap 1:
    // CSS var inside an if-body assignment expression
    let source = r#"
        function render() {
            let xAxisStyle = { tickLabels: { fill: 'var(--pf-v5-global--Color--100)' } };
            if (tickValues.length > 7) {
                xAxisStyle = {
                    tickLabels: {
                        fill: 'var(--pf-v5-global--Color--100)',
                        angle: 320,
                    },
                };
            }
            return xAxisStyle;
        }
    "#;
    let incidents = scan_source(source, r"--pf-v5-");
    assert_eq!(
        incidents.len(),
        2,
        "Should find CSS var in both variable declaration AND if-body assignment"
    );
}

#[test]
fn test_css_var_inside_if_else_chain() {
    // Reproduces the pipeline-topology/utils.ts Gap 2:
    // CSS vars inside if/else-if/else assignment branches
    let source = r#"
        function getDiamondState() {
            let diamondColor: string;
            if (isPipelineRun) {
                diamondColor = 'var(--pf-v5-global--active-color--100)';
            } else if (!isFinallyTask) {
                diamondColor = 'var(--pf-v5-global--BackgroundColor--200)';
            } else {
                diamondColor = 'var(--pf-v5-global--BackgroundColor--light-100)';
            }
            return diamondColor;
        }
    "#;
    let incidents = scan_source(source, r"--pf-v5-");
    assert_eq!(
        incidents.len(),
        3,
        "Should find CSS var in all three if/else-if/else branches"
    );
}

#[test]
fn test_css_var_inside_for_loop() {
    let source = r#"
        function buildStyles() {
            const styles = [];
            for (let i = 0; i < items.length; i++) {
                styles.push({ color: 'var(--pf-v5-global--Color--100)' });
            }
            return styles;
        }
    "#;
    let incidents = scan_source(source, r"--pf-v5-");
    assert_eq!(incidents.len(), 1, "Should find CSS var inside for loop");
}

#[test]
fn test_css_var_inside_for_of_loop() {
    let source = r#"
        function buildStyles() {
            for (const item of items) {
                item.style = 'var(--pf-v5-global--spacer--md)';
            }
        }
    "#;
    let incidents = scan_source(source, r"--pf-v5-");
    assert_eq!(incidents.len(), 1, "Should find CSS var inside for-of loop");
}

#[test]
fn test_css_var_inside_switch() {
    let source = r#"
        function getColor(type: string) {
            switch (type) {
                case "success":
                    return 'var(--pf-v5-global--success-color--100)';
                case "danger":
                    return 'var(--pf-v5-global--danger-color--100)';
                default:
                    return 'var(--pf-v5-global--Color--100)';
            }
        }
    "#;
    let incidents = scan_source(source, r"--pf-v5-");
    assert_eq!(
        incidents.len(),
        3,
        "Should find CSS var in all switch cases"
    );
}

#[test]
fn test_css_var_inside_try_catch() {
    let source = r#"
        function getStyle() {
            try {
                return { color: 'var(--pf-v5-global--Color--100)' };
            } catch (e) {
                return { color: 'var(--pf-v5-global--danger-color--100)' };
            } finally {
                cleanup('var(--pf-v5-global--spacer--md)');
            }
        }
    "#;
    let incidents = scan_source(source, r"--pf-v5-");
    assert_eq!(
        incidents.len(),
        3,
        "Should find CSS var in try, catch, and finally"
    );
}

#[test]
fn test_css_var_inside_while_loop() {
    let source = r#"
        function process() {
            while (hasMore) {
                applyStyle('var(--pf-v5-global--spacer--lg)');
            }
        }
    "#;
    let incidents = scan_source(source, r"--pf-v5-");
    assert_eq!(incidents.len(), 1, "Should find CSS var inside while loop");
}

// --- Expressions ---

#[test]
fn test_css_var_in_assignment_expression() {
    // Direct test for AssignmentExpression handling
    let source = r#"
        function update() {
            style = { fill: 'var(--pf-v5-global--Color--100)' };
        }
    "#;
    let incidents = scan_source(source, r"--pf-v5-");
    assert_eq!(
        incidents.len(),
        1,
        "Should find CSS var in assignment expression"
    );
}

#[test]
fn test_css_var_inside_optional_chain() {
    let source = r#"
        const el = <ul>{items?.map((item) => (
            <li style={{ color: 'var(--pf-v5-global--Color--100)' }}>text</li>
        ))}</ul>;
    "#;
    let incidents = scan_source(source, r"--pf-v5-");
    assert_eq!(
        incidents.len(),
        1,
        "Should find CSS var inside optional chain .map() callback"
    );
}

#[test]
fn test_css_var_in_tagged_template() {
    let source = r#"
        const styles = css`
            color: var(--pf-v5-global--Color--100);
            background: var(--pf-v5-global--BackgroundColor--200);
        `;
    "#;
    let incidents = scan_source(source, r"--pf-v5-");
    assert_eq!(
        incidents.len(),
        2,
        "Should find each CSS var match in tagged template literal"
    );
}

#[test]
fn test_css_var_in_spread_property() {
    let source = r#"
        const baseStyles = { "--pf-v5-c-label--Color": "red" };
        const styles = { ...baseStyles };
    "#;
    let incidents = scan_source(source, r"--pf-v5-");
    // Only the original object key should match, not the spread reference
    assert_eq!(incidents.len(), 1);
}

#[test]
fn test_css_var_in_computed_member() {
    let source = r#"
        const val = styles["--pf-v5-global--Color--100"];
    "#;
    let incidents = scan_source(source, r"--pf-v5-");
    assert_eq!(
        incidents.len(),
        1,
        "Should find CSS var in computed member expression"
    );
}

#[test]
fn test_css_var_in_await_expression() {
    let source = r#"
        async function getStyle() {
            const color = await Promise.resolve('var(--pf-v5-global--Color--100)');
        }
    "#;
    let incidents = scan_source(source, r"--pf-v5-");
    assert_eq!(
        incidents.len(),
        1,
        "Should find CSS var in await expression"
    );
}

#[test]
fn test_css_var_in_labeled_statement() {
    let source = r#"
        function process() {
            outer: for (const item of items) {
                item.color = 'var(--pf-v5-global--Color--100)';
            }
        }
    "#;
    let incidents = scan_source(source, r"--pf-v5-");
    assert_eq!(
        incidents.len(),
        1,
        "Should find CSS var inside labeled statement"
    );
}

// -- condition/test expression walking tests --

#[test]
fn test_css_var_in_if_condition() {
    let source = r#"
        function check() {
            if (el.style.getPropertyValue('--pf-v5-c-button--Color')) {
                doSomething();
            }
        }
    "#;
    let incidents = scan_source(source, r"--pf-v5-");
    assert_eq!(
        incidents.len(),
        1,
        "Should find CSS var in if condition"
    );
}

#[test]
fn test_css_var_in_ternary_condition() {
    let source = r#"
        const color = el.style.getPropertyValue('--pf-v5-c-button--Color')
            ? 'blue'
            : 'red';
    "#;
    let incidents = scan_source(source, r"--pf-v5-");
    assert_eq!(
        incidents.len(),
        1,
        "Should find CSS var in ternary condition"
    );
}

#[test]
fn test_css_var_in_iife() {
    // IIFE: (() => { ... })()
    let source = r#"
        const el = (() => {
            return <div style={{ marginTop: 'var(--pf-v5-global--spacer--sm)' }} />;
        })();
    "#;
    let incidents = scan_source(source, r"--pf-v5-");
    assert_eq!(
        incidents.len(),
        1,
        "Should find CSS var inside IIFE"
    );
}

#[test]
fn test_css_var_in_computed_property_key_with_ts_as() {
    // style={{ ['--pf-v5-c-button--PaddingRight' as any]: '0px' }}
    let source = r#"
        const el = <div
            style={{ ['--pf-v5-c-button--PaddingRight' as any]: '0px' }}
        />;
    "#;
    let incidents = scan_source(source, r"--pf-v5-");
    assert_eq!(
        incidents.len(),
        1,
        "Should find CSS var in computed property key with TS 'as' cast"
    );
    assert_eq!(
        incidents[0]
            .variables
            .get("matchingText")
            .and_then(|v| v.as_str()),
        Some("--pf-v5-c-button--PaddingRight"),
    );
}

#[test]
fn test_css_var_in_computed_template_literal_key() {
    let source = r#"
        const styles = {
            [`--pf-v5-c-button--PaddingRight`]: '0px',
        };
    "#;
    let incidents = scan_source(source, r"--pf-v5-");
    assert_eq!(
        incidents.len(),
        1,
        "Should find CSS var in computed template literal property key"
    );
}

#[test]
fn test_css_var_in_optional_chain_member_access() {
    // The call stands behind a member access in an optional chain.
    let source =
        r#"const val = getComputedStyle(el)?.getPropertyValue("--pf-v5-global--Color--100");"#;
    let incidents = scan_source(source, r"--pf-v5-");
    assert_eq!(
        incidents.len(),
        1,
        "Should find CSS var inside optional chain member access"
    );
}

#[test]
fn test_css_var_in_optional_chain_property_read() {
    // el.style.getPropertyValue("--pf-v5-...")?.trim()
    let source =
        r#"const val = el.style.getPropertyValue("--pf-v5-global--spacer--md")?.trim();"#;
    let incidents = scan_source(source, r"--pf-v5-");
    assert_eq!(
        incidents.len(),
        1,
        "Should find CSS var when result has optional chain method call"
    );
}

#[test]
fn test_tagged_template_multiline_reports_correct_line_per_match() {
    // Each incident stands on the line of its match, not where the template starts.
    let source = "const styles = css`\n  color: var(--pf-v5-global--Color--100);\n  font-size: var(--pf-v5-global--FontSize--md);\n`;\n";
    let incidents = scan_source(source, r"--pf-v5-");
    assert_eq!(
        incidents.len(),
        2,
        "Should find both CSS vars in multi-line tagged template"
    );
    assert_eq!(
        incidents[0].line_number,
        Some(2),
        "First CSS var should be on line 2, not line 1"
    );
    assert_eq!(
        incidents[1].line_number,
        Some(3),
        "Second CSS var should be on line 3, not line 1"
    );
}
