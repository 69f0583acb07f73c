use lattice::code_blocks::{parse_code_blocks, render_code_blocks, CodeBlock};
use lattice::gherkin::{
    parse_gherkin_features, render_gherkin_features, validate_gherkin_steps, GherkinFeature,
    GherkinScenario,
};

fn block(name: &str, language: &str, code: &str) -> CodeBlock {
    CodeBlock { name: name.to_string(), language: language.to_string(), code: code.to_string() }
}

#[test]
fn code_blocks_blank_gives_one_rust_block() {
    assert_eq!(parse_code_blocks("  \n "), vec![block("Block 1", "rust", "")]);
}

#[test]
fn code_blocks_parse_names_languages_and_code() {
    let src = "## First\n```rust\nfn main() {}\n  \n```\n\n```\nplain\n```\n";
    assert_eq!(
        parse_code_blocks(src),
        vec![block("First", "rust", "fn main() {}"), block("Block 2", "text", "plain")]
    );
}

#[test]
fn code_blocks_without_fence_keep_all_text() {
    assert_eq!(parse_code_blocks("### Note\nhello  \n"), vec![block("Note", "text", "### Note\nhello")]);
}

#[test]
fn code_blocks_render_and_read_back() {
    let blocks = vec![block("A", "py", "print(1)\n"), block(" ", "", "")];
    let text = render_code_blocks(&blocks);
    assert_eq!(text, "## A\n```py\nprint(1)\n```\n\n## Block\n```\n```\n");
    assert_eq!(
        parse_code_blocks(&text),
        vec![block("A", "py", "print(1)"), block("Block", "text", "")]
    );
}

#[test]
fn gherkin_blank_gives_default_feature() {
    let f = parse_gherkin_features("");
    assert_eq!(f.len(), 1);
    assert_eq!(f[0].name, "Test cases");
    assert_eq!(f[0].scenarios, vec![GherkinScenario { name: "Scenario 1".into(), steps: "".into() }]);
}

#[test]
fn gherkin_parses_background_scenarios_and_tags() {
    let src = "Feature: Login\n  Background:\n    Given a user\n\n  Scenario: ok\n    @tag\n    Given x\n    When y\n  Scenario Outline:\n    Then z\nFeature:\n";
    let f = parse_gherkin_features(src);
    assert_eq!(f.len(), 2);
    assert_eq!(f[0].name, "Login");
    assert_eq!(f[0].background, "Given a user");
    assert_eq!(f[0].scenarios.len(), 2);
    assert_eq!(f[0].scenarios[0].name, "ok");
    assert_eq!(f[0].scenarios[0].steps, "Given x\nWhen y");
    assert_eq!(f[0].scenarios[1].name, "Scenario 2");
    assert_eq!(f[0].scenarios[1].steps, "Then z");
    assert_eq!(f[1].name, "Test cases");
    assert_eq!(f[1].scenarios[0].name, "Scenario 1");
}

#[test]
fn gherkin_render_layout() {
    let f = vec![GherkinFeature {
        name: "F".into(),
        background: "Given bg\n".into(),
        scenarios: vec![
            GherkinScenario { name: "S".into(), steps: "Given a\n\nWhen b".into() },
            GherkinScenario { name: "".into(), steps: "".into() },
        ],
    }];
    assert_eq!(
        render_gherkin_features(&f),
        "Feature: F\n\n  Background:\n    Given bg\n\n  Scenario: S\n    Given a\n    When b\n\n  Scenario: Scenario"
    );
}

#[test]
fn gherkin_step_order_rules() {
    assert_eq!(validate_gherkin_steps(""), Ok(()));
    assert_eq!(validate_gherkin_steps("Given a\nAnd b\nWhen c\nThen d\nBut e"), Ok(()));
    assert_eq!(
        validate_gherkin_steps("When a"),
        Err("steps line 1: `When` cannot appear before `Given`".to_string())
    );
    assert_eq!(
        validate_gherkin_steps("Given a\n\nThen b"),
        Err("steps line 3: `Then` cannot appear before `When`".to_string())
    );
    assert_eq!(
        validate_gherkin_steps("And a"),
        Err("steps line 1: `And/But` must follow Given/When/Then".to_string())
    );
    assert_eq!(
        validate_gherkin_steps("Given a\nfoo bar"),
        Err("steps line 2: must start with Given/When/Then/And/But (got `foo`)".to_string())
    );
    assert_eq!(
        validate_gherkin_steps("Given a\nWhen b"),
        Err("steps must include at least one Given, one When, and one Then".to_string())
    );
}

#[test]
fn rendered_code_blocks_read_back() {
    let bs = vec![
        CodeBlock { name: "Main".into(), language: "rust".into(), code: "fn main() {\n\n    run();\n}".into() },
        CodeBlock { name: "Empty one".into(), language: "sh".into(), code: String::new() },
        CodeBlock { name: "Config".into(), language: "toml".into(), code: "## not a heading\nkey = 1".into() },
    ];
    assert_eq!(parse_code_blocks(&render_code_blocks(&bs)), bs);
}

#[test]
fn rendered_gherkin_features_read_back() {
    let fs = vec![
        GherkinFeature {
            name: "Login".into(),
            background: "Given a user\nAnd a @mention in the background".into(),
            scenarios: vec![
                GherkinScenario { name: "Good password".into(), steps: "Given the form\nWhen I log in\nThen I see home".into() },
                GherkinScenario { name: "No steps yet".into(), steps: String::new() },
            ],
        },
        GherkinFeature {
            name: "Logout".into(),
            background: String::new(),
            scenarios: vec![GherkinScenario { name: "Bye".into(), steps: "When I leave\nThen I am out".into() }],
        },
    ];
    assert_eq!(parse_gherkin_features(&render_gherkin_features(&fs)), fs);
}
