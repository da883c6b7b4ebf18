use lintdoc::event::{DocEvent, DocTag, DocTagEnd};
use lintdoc::lint::{Diagnostic, LintError};
use lintdoc::page::{generate_rule, FixKind, GenRule, RuleMetadata, RuleSource, RuleSourceKind};
use lintdoc::registry::{Registry, RuleEntry};
use lintdoc::site::{failure_message, generate_group, generate_rule_docs, RuleFailure, RunError};
use lintdoc::transducer::{
    collect_examples, documented_examples, DocError, Example, ProtocolError,
};
use lintdoc::directive::{BlockType, CodeBlockTest, JsSource};

fn meta(name: &str, docs: &str) -> RuleMetadata {
    RuleMetadata {
        name: name.to_string(),
        version: "1.0.0".to_string(),
        recommended: false,
        fix_kind: None,
        language: "js".to_string(),
        sources: Vec::new(),
        source_kind: RuleSourceKind::SameLogic,
        docs: docs.to_string(),
    }
}

fn entry(name: &str, docs: &str, outcomes: Vec<Vec<Diagnostic>>) -> RuleEntry {
    RuleEntry { meta: meta(name, docs), outcomes }
}

fn diagnostic(rendered: &str, has_code_action: bool) -> Diagnostic {
    Diagnostic {
        category: "lint/style/useConst".to_string(),
        rendered: rendered.to_string(),
        has_code_action,
    }
}

const FOOT: &str = "## Related links\n\n- [Disable a rule](/linter/#disable-a-lint-rule)\n- [Rule options](/linter/#rule-options)\n";

#[test]
fn page_of_a_plain_rule() {
    let meta = meta("useConst", "Use `const`.\n\nMore.");
    let page = generate_rule(GenRule {
        group: "style",
        rule: "useConst",
        is_recommended: false,
        meta: &meta,
        outcomes: &Vec::new(),
    })
    .unwrap();
    assert_eq!(page.file_name, "use-const.md");
    assert_eq!(
        page.content,
        format!(
            "---\ntitle: useConst (since v1.0.0)\n---\n\n**Diagnostic Category: `lint/style/useConst`**\n\nUse `const`.\n\nMore.\n\n{FOOT}"
        )
    );
    assert_eq!(
        page.summary,
        vec![
            DocEvent::Text("Use ".to_string()),
            DocEvent::Code("const".to_string()),
            DocEvent::Text(".".to_string()),
        ]
    );
    assert_eq!((page.summary_from, page.summary_to), (1, 4));
}

#[test]
fn page_with_note_caution_and_sources() {
    let mut meta = meta("noVar", "No `var`.");
    meta.version = "next".to_string();
    meta.fix_kind = Some(FixKind::Unsafe);
    meta.language = "ts".to_string();
    meta.source_kind = RuleSourceKind::Inspired;
    meta.sources = vec![
        RuleSource {
            rule_name: "no-var".to_string(),
            url: "https://eslint.org/docs/latest/rules/no-var".to_string(),
        },
        RuleSource {
            rule_name: "other/no-var".to_string(),
            url: "https://example.org/no-var".to_string(),
        },
    ];
    let page = generate_rule(GenRule {
        group: "nursery",
        rule: "noVar",
        is_recommended: true,
        meta: &meta,
        outcomes: &Vec::new(),
    })
    .unwrap();
    assert_eq!(page.file_name, "no-var.md");
    assert_eq!(
        page.content,
        format!(
            "---\ntitle: noVar (not released)\n---\n\n**Diagnostic Category: `lint/nursery/noVar`**\n\n:::note\n- This rule is recommended by Biome. A diagnostic error will appear when linting your code.\n- This rule has an **unsafe** fix.\n- This rule is applied to **TypeScript and TSX** files.\n:::\n\n:::caution\nThis rule is part of the [nursery](/linter/rules/#nursery) group.\n:::\n\nSources: \n- Inspired from: <a href=\"https://eslint.org/docs/latest/rules/no-var\" target=\"_blank\"><code>no-var</code></a>\n- Inspired from: <a href=\"https://example.org/no-var\" target=\"_blank\"><code>other/no-var</code></a>\n\nNo `var`.\n\n{FOOT}"
        )
    );
}

#[test]
fn page_notes_by_fix_and_language() {
    let mut meta = meta("useConst", "");
    meta.fix_kind = Some(FixKind::Safe);
    meta.language = "json".to_string();
    meta.sources = vec![RuleSource { rule_name: "prefer-const".to_string(), url: "u".to_string() }];
    let page = generate_rule(GenRule {
        group: "style",
        rule: "useConst",
        is_recommended: false,
        meta: &meta,
        outcomes: &Vec::new(),
    })
    .unwrap();
    assert_eq!(
        page.content,
        format!(
            "---\ntitle: useConst (since v1.0.0)\n---\n\n**Diagnostic Category: `lint/style/useConst`**\n\n:::note\n- This rule has a **safe** fix.\n- This rule is applied to **JSON** files.\n:::\n\nSources: \n- Same as: <a href=\"u\" target=\"_blank\"><code>prefer-const</code></a>\n\n{FOOT}"
        )
    );
    meta.language = "css".to_string();
    meta.fix_kind = None;
    meta.sources = Vec::new();
    let page = generate_rule(GenRule {
        group: "style",
        rule: "useConst",
        is_recommended: true,
        meta: &meta,
        outcomes: &Vec::new(),
    })
    .unwrap();
    assert_eq!(
        page.content,
        format!(
            "---\ntitle: useConst (since v1.0.0)\n---\n\n**Diagnostic Category: `lint/style/useConst`**\n\n:::note\n- This rule is recommended by Biome. A diagnostic error will appear when linting your code.\n:::\n\n{FOOT}"
        )
    );
}

#[test]
fn page_fails_with_the_error_of_its_documentation() {
    let mut meta = meta("useConst", "```js,expect_diagnostic\nlet a;\n```\n");
    let outcomes = vec![vec![diagnostic("<x>", true)]];
    let payload = GenRule {
        group: "style",
        rule: "useConst",
        is_recommended: false,
        meta: &meta,
        outcomes: &outcomes,
    };
    assert_eq!(
        generate_rule(payload),
        Err(DocError::Example(LintError::UndeclaredFixKind { rule: "useConst".to_string() }))
    );
    meta.fix_kind = Some(FixKind::Safe);
    let payload = GenRule {
        group: "style",
        rule: "useConst",
        is_recommended: false,
        meta: &meta,
        outcomes: &outcomes,
    };
    assert!(generate_rule(payload).is_ok());
}

#[test]
fn examples_are_the_analyzed_code_blocks() {
    let docs = "Intro.\n\n```js,expect_diagnostic\nlet a;\n```\n\n```js,ignore\nskipped\n```\n\n```shell\nls\n```\n\n```\nplain\n```\n\n```json\n{}\n```\n";
    assert_eq!(
        documented_examples(docs),
        vec![
            Example {
                test: CodeBlockTest {
                    block_type: BlockType::Js(JsSource::Jsx),
                    expect_diagnostic: true,
                    ignore: false,
                },
                code: "let a;\n".to_string(),
            },
            Example {
                test: CodeBlockTest {
                    block_type: BlockType::Json,
                    expect_diagnostic: false,
                    ignore: false,
                },
                code: "{}\n".to_string(),
            },
        ]
    );
    let events = vec![
        DocEvent::Text("outside".to_string()),
        DocEvent::Start(DocTag::CodeBlock("css".to_string())),
        DocEvent::Text("a {".to_string()),
        DocEvent::Text("}".to_string()),
        DocEvent::End(DocTagEnd::CodeBlock),
        DocEvent::End(DocTagEnd::CodeBlock),
        DocEvent::Start(DocTag::CodeBlock("ts".to_string())),
    ];
    assert_eq!(
        collect_examples(&events),
        vec![Example {
            test: CodeBlockTest {
                block_type: BlockType::Css,
                expect_diagnostic: false,
                ignore: false,
            },
            code: "a {}".to_string(),
        }]
    );
}

#[test]
fn group_with_one_broken_rule_sets_it_aside() {
    let broken = "Broken.\n\n```js,expect_diagnostic\nlet a;\n```\n";
    let rules = vec![
        entry("noFirst", "First rule.", Vec::new()),
        entry("noSecond", broken, vec![Vec::new()]),
        entry("noThird", "Third rule.", Vec::new()),
    ];
    let given = generate_group("style", &rules).unwrap();
    assert_eq!(
        given.errors,
        vec![RuleFailure {
            rule: "noSecond".to_string(),
            error: LintError::NoDiagnostic { code: "let a;\n".to_string() },
        }]
    );
    assert_eq!(given.pages.len(), 2);
    assert_eq!(given.pages[0].file_name, "no-first.md");
    assert_eq!(given.pages[1].file_name, "no-third.md");
    assert_eq!(
        given.pages[1].content,
        format!(
            "---\ntitle: noThird (since v1.0.0)\n---\n\n**Diagnostic Category: `lint/style/noThird`**\n\nThird rule.\n\n{FOOT}"
        )
    );
    let icon = "<span class='inline-icon'><Icon name=\"seti:javascript\" label=\"JavaScript and super languages rule.\" size=\"1.2rem\"/></span>";
    assert_eq!(
        given.table,
        format!(
            "\n## Style\n\nRules enforcing a consistent and idiomatic way of writing your code.\n| Rule name | Description | Properties |\n| --- | --- | --- |\n| [noFirst](/linter/rules/no-first) | First rule. | {icon} |\n| [noThird](/linter/rules/no-third) | Third rule. | {icon} |\n"
        )
    );
    assert_eq!(given.recommended, "");
}

#[test]
fn group_lists_recommended_rules_and_skips_unreleased_ones() {
    let mut first = entry("noFirst", "A *first* rule.\n\nWith more.", Vec::new());
    first.meta.recommended = true;
    first.meta.fix_kind = Some(FixKind::Safe);
    first.meta.language = "ts".to_string();
    let mut second = entry("noSecond", "Second.", Vec::new());
    second.meta.recommended = true;
    second.meta.version = "next".to_string();
    let mut third = entry("noThird", "<https://biomejs.dev>", Vec::new());
    third.meta.fix_kind = Some(FixKind::Unsafe);
    third.meta.language = "json".to_string();
    let rules = vec![first, second, third];
    let given = generate_group("style", &rules).unwrap();
    assert_eq!(given.pages.len(), 2);
    assert_eq!(
        given.recommended,
        "\t<li><a href='/linter/rules/no-first'>noFirst</a></li>\n"
    );
    assert_eq!(
        given.table,
        "\n## Style\n\nRules enforcing a consistent and idiomatic way of writing your code.\n| Rule name | Description | Properties |\n| --- | --- | --- |\n| [noFirst](/linter/rules/no-first) | A <em>first</em> rule. | <span class='inline-icon'><Icon name=\"approve-check-circle\" size=\"1.2rem\" label=\"This rule is recommended\" /></span><span class='inline-icon'><Icon name=\"seti:config\" label=\"The rule has a safe fix\" size=\"1.2rem\"  /></span><span class='inline-icon'><Icon name=\"seti:typescript\" label=\"TypeScript rule\" size=\"1.2rem\"/></span> |\n| [noThird](/linter/rules/no-third) | <a href=\"https://biomejs.dev\">https://biomejs.dev</a> | <span class='inline-icon'><Icon name=\"warning\" label=\"The rule has an unsafe fix\" size=\"1.2rem\" /></span><span class='inline-icon'><Icon name=\"seti:json\" label=\"JSON rule\" size=\"1.2rem\"/></span> |\n"
    );
    let nursery = generate_group("nursery", &rules).unwrap();
    assert_eq!(nursery.recommended, "");
    assert!(nursery.pages[0].content.contains(":::caution\n"));
    assert!(!nursery.pages[0].content.contains("recommended"));
}

#[test]
fn group_ends_the_run_on_a_protocol_error() {
    let rules = vec![
        entry("noFirst", "First rule.", Vec::new()),
        entry("noSecond", "Second.\n\n---\n", Vec::new()),
        entry("noThird", "Third rule.", Vec::new()),
    ];
    let result = generate_group("style", &rules);
    assert_eq!(
        result,
        Err(RunError {
            rule: "noSecond".to_string(),
            error: ProtocolError::UnsupportedEvent,
            at: 3,
        })
    );
}

fn registry_of(rules: Vec<(&str, RuleEntry)>) -> Registry {
    let mut registry = Registry::new();
    for (group, entry) in rules {
        registry.record_rule(group, entry);
    }
    registry
}

#[test]
fn registry_keeps_groups_and_rules_in_order() {
    let registry = registry_of(vec![
        ("style", entry("useConst", "s1", Vec::new())),
        ("nursery", entry("noNew", "n1", Vec::new())),
        ("a11y", entry("useAlt", "a1", Vec::new())),
        ("style", entry("noVar", "s2", Vec::new())),
        ("style", entry("useConst", "s3", Vec::new())),
        ("a11y", entry("noBlink", "a2", Vec::new())),
    ]);
    assert_eq!(registry.rule_count(), 6);
    let names: Vec<(String, Vec<(String, String)>)> = registry
        .rule_groups()
        .iter()
        .map(|group| {
            let rules = group
                .rules
                .iter()
                .map(|rule| (rule.meta.name.clone(), rule.meta.docs.clone()))
                .collect();
            (group.name.clone(), rules)
        })
        .collect();
    let pair = |a: &str, b: &str| (a.to_string(), b.to_string());
    assert_eq!(
        names,
        vec![
            ("a11y".to_string(), vec![pair("noBlink", "a2"), pair("useAlt", "a1")]),
            ("nursery".to_string(), vec![pair("noNew", "n1")]),
            ("style".to_string(), vec![pair("noVar", "s2"), pair("useConst", "s3")]),
        ]
    );
    assert!(registry.groups_known());
    assert!(registry.holds_nursery());
    let other = registry_of(vec![("mystery", entry("noNew", "n1", Vec::new()))]);
    assert!(!other.groups_known());
    assert!(!other.holds_nursery());
}

#[test]
fn run_with_one_broken_rule_among_three() {
    let broken = "Broken.\n\n```js\nlet a;\n```\n";
    let mut recommended = entry("useConst", "Use const.", Vec::new());
    recommended.meta.recommended = true;
    let registry = registry_of(vec![
        ("style", recommended),
        ("nursery", entry("noNew", "New.", Vec::new())),
        ("style", entry("noVar", broken, vec![vec![diagnostic("<x>", false)]])),
        ("a11y", entry("useAlt", "Alt.", Vec::new())),
    ]);
    let docs = generate_rule_docs(&registry).unwrap();
    assert_eq!(
        docs.errors,
        vec![RuleFailure {
            rule: "noVar".to_string(),
            error: LintError::UnexpectedDiagnostic {
                category: "lint/style/useConst".to_string(),
                code: "let a;\n".to_string(),
            },
        }]
    );
    let files: Vec<&str> = docs.pages.iter().map(|page| page.file_name.as_str()).collect();
    assert_eq!(files, vec!["use-alt.md", "use-const.md", "no-new.md"]);
    assert_eq!(
        docs.pages[1].content,
        format!(
            "---\ntitle: useConst (since v1.0.0)\n---\n\n**Diagnostic Category: `lint/style/useConst`**\n\n:::note\n- This rule is recommended by Biome. A diagnostic error will appear when linting your code.\n- This rule is applied to **JavaScript and super languages** files.\n:::\n\nUse const.\n\n{FOOT}"
        )
    );
    assert_eq!(
        failure_message(&docs.errors),
        Some(
            "failed to generate documentation pages for the following rules:\n- noVar: analysis returned an unexpected diagnostic, code `snippet:\n\n\"lint/style/useConst\"\n\nlet a;\n\n"
                .to_string()
        )
    );
    assert_eq!(
        docs.number_of_rules,
        "<!-- this file is auto generated, use `cargo lintdoc` to update it -->\n4"
    );
    assert_eq!(
        docs.recommended_rules,
        "<!-- this file is auto generated, use `cargo lintdoc` to update it -->\n <ul>\n\t<li><a href='/linter/rules/use-const'>useConst</a></li>\n\n</ul>"
    );
    assert_eq!(
        docs.reference,
        "<!-- this file is auto generated, use `cargo lintdoc` to update it -->\n<li><code>accessibility</code>: Rules focused on preventing accessibility problems.</li>\n<li><code>style</code>: Rules enforcing a consistent and idiomatic way of writing your code.</li>\n<li><code>nursery</code>: New rules that are still under development.  Nursery rules require explicit opt-in via configuration on stable versions because they may still have bugs or performance problems. They are enabled by default on nightly builds, but as they are unstable their diagnostic severity may be set to either error or warning, depending on whether we intend for the rule to be recommended or not when it eventually gets stabilized. Nursery rules get promoted to other groups once they become stable or may be removed.  Rules that belong to this group are not subject to semantic version.</li>\n"
    );
    assert!(docs.index.starts_with(
        "---\ntitle: Rules\ndescription: List of available lint rules.\n---\n\n\nimport RecommendedRules from \"@/components/generated/RecommendedRules.astro\";\n"
    ));
    assert!(docs.index.ends_with(
        "\n## Recommended rules\n\nThe recommended rules are:\n\n<RecommendedRules />\n"
    ));
    let accessibility = docs.index.find("\n## Accessibility\n").unwrap();
    let style = docs.index.find("\n## Style\n").unwrap();
    let nursery = docs.index.find("\n## Nursery\n").unwrap();
    assert!(accessibility < style && style < nursery);
    assert!(docs.index.contains(
        "\n## Nursery\n\nNew rules that are still under development.\n\nNursery rules"
    ));
    assert!(docs.index.contains(
        "Rules that belong to this group <strong>are not subject to semantic version</strong>.\n| Rule name | Description | Properties |\n| --- | --- | --- |\n| [noNew](/linter/rules/no-new) | New. | "
    ));
    assert!(!docs.index.contains("noVar"));
}

#[test]
fn run_without_failure_has_no_report() {
    let registry = registry_of(vec![("nursery", entry("noNew", "New.", Vec::new()))]);
    let docs = generate_rule_docs(&registry).unwrap();
    assert!(docs.errors.is_empty());
    assert_eq!(failure_message(&docs.errors), None);
    assert_eq!(docs.pages.len(), 1);
}
