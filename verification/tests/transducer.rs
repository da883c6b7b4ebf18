use lintdoc::event::{parse_markdown, DocEvent, DocTag, DocTagEnd, LinkKind};
use lintdoc::lint::{Diagnostic, LintError};
use lintdoc::transducer::{
    parse_documentation, render_documentation, DocError, Documentation, ProtocolError,
};

fn text(content: &str) -> DocEvent {
    DocEvent::Text(content.to_string())
}

fn render(docs: &str) -> Documentation {
    parse_documentation("rule", docs, &Vec::new(), false).unwrap()
}

#[test]
fn ordered_list_is_numbered_from_item_order() {
    assert_eq!(render("1. a\n2. b").content, "1. a\n2. b\n\n");
    assert_eq!(render("1. a\n1. b\n1. c").content, "1. a\n2. b\n3. c\n\n");
    assert_eq!(render("7. a\n3. b").content, "7. a\n8. b\n\n");
}

#[test]
fn summary_is_the_first_paragraph_only() {
    let rendered = render("First *one*.\n\nSecond one.\n\nThird.");
    assert_eq!(
        rendered.summary,
        vec![
            text("First "),
            DocEvent::Start(DocTag::Emphasis),
            text("one"),
            DocEvent::End(DocTagEnd::Emphasis),
            text("."),
        ]
    );
    assert_eq!((rendered.summary_from, rendered.summary_to), (1, 6));
    assert_eq!(rendered.content, "First _one_.\n\nSecond one.\n\nThird.\n\n");
}

#[test]
fn heading_paragraph_and_inline_markup() {
    let rendered = render("## Title\n\nSome `code` and **bold**\nnext line  \nlast");
    assert_eq!(
        rendered.content,
        "## Title\n\nSome `code` and **bold**\nnext line<br />\nlast\n\n"
    );
    assert_eq!((rendered.summary_from, rendered.summary_to), (4, 14));
}

#[test]
fn links_are_written_by_kind() {
    assert_eq!(
        render("<https://biomejs.dev>").content,
        "<https://biomejs.dev>\n\n"
    );
    assert_eq!(
        render("[site](https://biomejs.dev)").content,
        "[site](https://biomejs.dev)\n\n"
    );
    assert_eq!(
        render("[site](https://biomejs.dev \"The site\")").content,
        "[site](https://biomejs.dev \"The site\")\n\n"
    );
    assert_eq!(
        render("[site][ref]\n\n[ref]: https://biomejs.dev").content,
        "[site](https://biomejs.dev)\n\n"
    );
}

#[test]
fn collapsed_link_is_a_protocol_error() {
    let result = parse_documentation("rule", "[ref][]\n\n[ref]: https://biomejs.dev", &Vec::new(), false);
    assert_eq!(
        result,
        Err(DocError::Protocol { error: ProtocolError::UnsupportedLink, at: 1 })
    );
}

#[test]
fn unsupported_markdown_is_a_protocol_error() {
    let result = parse_documentation("rule", "text\n\n---\n", &Vec::new(), false);
    assert_eq!(
        result,
        Err(DocError::Protocol { error: ProtocolError::UnsupportedEvent, at: 3 })
    );
    let result = parse_documentation("rule", "    indented code\n", &Vec::new(), false);
    assert_eq!(
        result,
        Err(DocError::Protocol { error: ProtocolError::UnsupportedEvent, at: 0 })
    );
}

#[test]
fn nested_lists_are_indented() {
    assert_eq!(
        render("- a\n  - b\n  - c\n- d").content,
        "- a\n  - b\n  - c\n\n\n- d\n\n"
    );
}

#[test]
fn fence_tag_comes_from_the_directive() {
    let outcomes = vec![vec![]];
    let rendered = parse_documentation("rule", "```js,ignore\nlet a;\n```\n", &Vec::new(), false).unwrap();
    assert_eq!(rendered.content, "```jsx\nlet a;\n```\n\n");
    let rendered = parse_documentation("rule", "```ts\nlet a;\n```\n", &outcomes, false).unwrap();
    assert_eq!(rendered.content, "```ts\nlet a;\n```\n\n");
    let rendered = parse_documentation("rule", "```\nplain\n```\n", &Vec::new(), false).unwrap();
    assert_eq!(rendered.content, "```\nplain\n```\n\n");
    let rendered = parse_documentation("rule", "```shell\nls\n```\n", &Vec::new(), false).unwrap();
    assert_eq!(rendered.content, "```shell\nls\n```\n\n");
    let rendered = parse_documentation("rule", "```vue\n<script></script>\n```\n", &outcomes, false).unwrap();
    assert_eq!(rendered.content, "```vue\n<script></script>\n```\n\n");
}

#[test]
fn expected_diagnostic_is_set_behind_the_block() {
    let diagnostic = Diagnostic {
        category: "lint/style/useConst".to_string(),
        rendered: "<strong>useConst</strong>".to_string(),
        has_code_action: false,
    };
    let rendered = parse_documentation(
        "useConst",
        "```js,expect_diagnostic\nlet a = 1;\n```\n",
        &vec![vec![diagnostic]],
        false,
    )
    .unwrap();
    assert_eq!(
        rendered.content,
        "```jsx\nlet a = 1;\n```\n\n<pre class=\"language-text\"><code class=\"language-text\"><strong>useConst</strong></code></pre>\n\n"
    );
}

#[test]
fn missing_and_extra_analyses_are_protocol_errors() {
    let docs = "```js\nlet a = 1;\n```\n";
    assert_eq!(
        parse_documentation("rule", docs, &Vec::new(), false),
        Err(DocError::Protocol { error: ProtocolError::MissingAnalysis, at: 2 })
    );
    assert_eq!(
        parse_documentation("rule", docs, &vec![vec![], vec![]], false),
        Err(DocError::Protocol { error: ProtocolError::ExtraAnalysis, at: 3 })
    );
}

#[test]
fn wrong_example_is_an_example_error() {
    let docs = "```js,expect_diagnostic\nlet a = 1;\n```\n";
    assert_eq!(
        parse_documentation("rule", docs, &vec![vec![]], false),
        Err(DocError::Example(LintError::NoDiagnostic { code: "let a = 1;\n".to_string() }))
    );
}

#[test]
fn hand_made_stream_with_protocol_breaches() {
    let orphan = vec![DocEvent::End(DocTagEnd::Link)];
    assert_eq!(
        render_documentation("rule", &orphan, &Vec::new(), false),
        Err(DocError::Protocol { error: ProtocolError::OrphanedLinkEnd, at: 0 })
    );
    let link = DocEvent::Start(DocTag::Link(LinkKind::Inline, "a".to_string(), String::new()));
    let nested = vec![link.clone(), link];
    assert_eq!(
        render_documentation("rule", &nested, &Vec::new(), false),
        Err(DocError::Protocol { error: ProtocolError::NestedLink, at: 1 })
    );
    let list_end = vec![DocEvent::End(DocTagEnd::List)];
    assert_eq!(
        render_documentation("rule", &list_end, &Vec::new(), false),
        Err(DocError::Protocol { error: ProtocolError::OrphanedListEnd, at: 0 })
    );
    let overflow = vec![
        DocEvent::Start(DocTag::List(Some(u64::MAX))),
        DocEvent::Start(DocTag::Item),
        DocEvent::End(DocTagEnd::Item),
    ];
    assert_eq!(
        render_documentation("rule", &overflow, &Vec::new(), false),
        Err(DocError::Protocol { error: ProtocolError::OrdinalOverflow, at: 2 })
    );
}

fn start(tag: DocTag) -> DocEvent {
    DocEvent::Start(tag)
}

fn end(tag: DocTagEnd) -> DocEvent {
    DocEvent::End(tag)
}

#[test]
fn every_supported_event_is_rendered() {
    let events = vec![
        start(DocTag::Heading(3)),
        text("Title"),
        end(DocTagEnd::Heading),
        start(DocTag::BlockQuote),
        start(DocTag::Paragraph),
        start(DocTag::Strikethrough),
        text("old"),
        end(DocTagEnd::Strikethrough),
        DocEvent::SoftBreak,
        start(DocTag::Strong),
        text("bold"),
        end(DocTagEnd::Strong),
        DocEvent::HardBreak,
        start(DocTag::Emphasis),
        DocEvent::Code("x < y".to_string()),
        end(DocTagEnd::Emphasis),
        end(DocTagEnd::Paragraph),
        end(DocTagEnd::BlockQuote),
        start(DocTag::Link(LinkKind::Shortcut, "/to".to_string(), "Title \"q\"".to_string())),
        text("label"),
        end(DocTagEnd::Link),
        start(DocTag::Link(LinkKind::Autolink, "https://a.b".to_string(), "unused".to_string())),
        text("https://a.b"),
        end(DocTagEnd::Link),
        end(DocTagEnd::CodeBlock),
    ];
    let rendered = render_documentation("rule", &events, &Vec::new(), false).unwrap();
    assert_eq!(
        rendered.content,
        "### Title\n\n>~old~\n**bold**<br />\n_`x < y`_\n\n\n[label](/to \"Title \"q\"\")<https://a.b>```\n\n"
    );
    assert_eq!((rendered.summary_from, rendered.summary_to), (5, 16));
    assert_eq!(rendered.summary.len(), 11);
    assert_eq!(rendered.summary[0], start(DocTag::Strikethrough));
    assert_eq!(rendered.summary[10], end(DocTagEnd::Emphasis));
}

#[test]
fn summary_of_a_stream_without_paragraph_is_empty() {
    let events = vec![start(DocTag::Heading(1)), text("Title"), end(DocTagEnd::Heading)];
    let rendered = render_documentation("rule", &events, &Vec::new(), false).unwrap();
    assert_eq!(rendered.content, "# Title\n\n");
    assert!(rendered.summary.is_empty());
    assert_eq!((rendered.summary_from, rendered.summary_to), (3, 3));
}

#[test]
fn summary_of_an_open_paragraph_runs_to_the_end() {
    let events = vec![text("before"), start(DocTag::Paragraph), text("a"), DocEvent::SoftBreak];
    let rendered = render_documentation("rule", &events, &Vec::new(), false).unwrap();
    assert_eq!(rendered.summary, vec![text("a"), DocEvent::SoftBreak]);
    assert_eq!((rendered.summary_from, rendered.summary_to), (2, 4));
}

#[test]
fn empty_first_paragraph_is_still_the_summary() {
    let events = vec![
        start(DocTag::Paragraph),
        end(DocTagEnd::Paragraph),
        start(DocTag::Paragraph),
        text("second"),
        end(DocTagEnd::Paragraph),
    ];
    let rendered = render_documentation("rule", &events, &Vec::new(), false).unwrap();
    assert!(rendered.summary.is_empty());
    assert_eq!((rendered.summary_from, rendered.summary_to), (1, 1));
    assert_eq!(rendered.content, "\n\nsecond\n\n");
}

#[test]
fn ordered_lists_nest_and_keep_counting() {
    assert_eq!(
        render("1. a\n   1. x\n   2. y\n2. b").content,
        "1. a\n  1. x\n  2. y\n\n\n- b\n\n"
    );
    assert_eq!(render("3. a\n\n   text\n4. b").content, "3. a\n\ntext\n\n\n4. b\n\n\n\n");
    let events = vec![
        start(DocTag::List(Some(9))),
        start(DocTag::Item),
        end(DocTagEnd::Item),
        start(DocTag::Item),
        start(DocTag::List(None)),
        start(DocTag::Item),
        end(DocTagEnd::Item),
        start(DocTag::List(None)),
        start(DocTag::Item),
        end(DocTagEnd::Item),
        end(DocTagEnd::List),
        start(DocTag::Item),
        end(DocTagEnd::Item),
        end(DocTagEnd::List),
        end(DocTagEnd::Item),
        end(DocTagEnd::List),
        start(DocTag::Item),
    ];
    let rendered = render_documentation("rule", &events, &Vec::new(), false).unwrap();
    assert_eq!(
        rendered.content,
        "9. \n10. \n  10. \n\n    11. \n\n  - \n\n\n\n- "
    );
}

#[test]
fn text_outside_a_block_is_no_snippet() {
    let docs = "```json,expect_diagnostic\n{ \"a\": 1,\n}\n```\n\nAfter.\n\n```json\n{}\n```\n";
    let diagnostic = Diagnostic {
        category: "parse".to_string(),
        rendered: "expected a property\n".to_string(),
        has_code_action: false,
    };
    let outcomes = vec![vec![diagnostic], vec![]];
    let rendered = parse_documentation("rule", docs, &outcomes, false).unwrap();
    assert_eq!(
        rendered.content,
        "```json\n{ \"a\": 1,\n}\n```\n\n<pre class=\"language-text\"><code class=\"language-text\">expected a property\n</code></pre>\n\nAfter.\n\n```json\n{}\n```\n\n"
    );
    let swapped = vec![vec![], vec![Diagnostic {
        category: "parse".to_string(),
        rendered: String::new(),
        has_code_action: false,
    }]];
    assert_eq!(
        parse_documentation("rule", docs, &swapped, false),
        Err(DocError::Example(LintError::NoDiagnostic { code: "{ \"a\": 1,\n}\n".to_string() }))
    );
}

#[test]
fn ignored_block_with_expectation_gets_an_empty_transcript() {
    let rendered =
        parse_documentation("rule", "```js,expect_diagnostic,ignore\nlet a;\n```\n", &Vec::new(), false)
            .unwrap();
    assert_eq!(
        rendered.content,
        "```jsx\nlet a;\n```\n\n<pre class=\"language-text\"><code class=\"language-text\"></code></pre>\n\n"
    );
}

#[test]
fn block_without_language_that_expects_a_diagnostic_fails() {
    assert_eq!(
        parse_documentation("rule", "```expect_diagnostic\nlet a;\n```\n", &Vec::new(), false),
        Err(DocError::Example(LintError::NoDiagnostic { code: "let a;\n".to_string() }))
    );
}

#[test]
fn markdown_is_read_into_events() {
    assert_eq!(
        parse_markdown("# T\n\n> *q*\n\n1. `c`\n\n```js\nx\n```\n"),
        vec![
            start(DocTag::Heading(1)),
            text("T"),
            end(DocTagEnd::Heading),
            start(DocTag::BlockQuote),
            start(DocTag::Paragraph),
            start(DocTag::Emphasis),
            text("q"),
            end(DocTagEnd::Emphasis),
            end(DocTagEnd::Paragraph),
            end(DocTagEnd::BlockQuote),
            start(DocTag::List(Some(1))),
            start(DocTag::Item),
            DocEvent::Code("c".to_string()),
            end(DocTagEnd::Item),
            end(DocTagEnd::List),
            start(DocTag::CodeBlock("js".to_string())),
            text("x\n"),
            end(DocTagEnd::CodeBlock),
        ]
    );
    assert_eq!(
        parse_markdown("###### six\n\n- **b**\\\nc"),
        vec![
            start(DocTag::Heading(6)),
            text("six"),
            end(DocTagEnd::Heading),
            start(DocTag::List(None)),
            start(DocTag::Item),
            start(DocTag::Strong),
            text("b"),
            end(DocTagEnd::Strong),
            DocEvent::HardBreak,
            text("c"),
            end(DocTagEnd::Item),
            end(DocTagEnd::List),
        ]
    );
}

#[test]
fn links_are_read_by_kind() {
    let link = |kind: LinkKind, title: &str| {
        start(DocTag::Link(kind, "https://biomejs.dev".to_string(), title.to_string()))
    };
    let events = parse_markdown(
        "[a](https://biomejs.dev \"t\") <https://biomejs.dev> [b][r] [r] [r][]\n\n[r]: https://biomejs.dev",
    );
    let links: Vec<DocEvent> = events
        .into_iter()
        .filter(|event| matches!(event, DocEvent::Start(DocTag::Link(..))))
        .collect();
    assert_eq!(
        links,
        vec![
            link(LinkKind::Inline, "t"),
            link(LinkKind::Autolink, ""),
            link(LinkKind::Reference, ""),
            link(LinkKind::Shortcut, ""),
            link(LinkKind::Other, ""),
        ]
    );
}

#[test]
fn unsupported_markdown_is_described() {
    assert_eq!(
        parse_markdown("---\n\n    code\n\n![i](u)"),
        vec![
            DocEvent::Unsupported("Rule".to_string()),
            start(DocTag::Unsupported("CodeBlock(Indented)".to_string())),
            text("code\n"),
            end(DocTagEnd::CodeBlock),
            start(DocTag::Paragraph),
            start(DocTag::Unsupported(
                "Image { link_type: Inline, dest_url: Borrowed(\"u\"), title: Borrowed(\"\"), id: Borrowed(\"\") }"
                    .to_string()
            )),
            text("i"),
            end(DocTagEnd::Unsupported("Image".to_string())),
            end(DocTagEnd::Paragraph),
        ]
    );
}
