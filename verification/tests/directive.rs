use lintdoc::directive::{BlockType, CodeBlockTest, JsSource};

fn directive(block_type: BlockType, expect_diagnostic: bool, ignore: bool) -> CodeBlockTest {
    CodeBlockTest { block_type, expect_diagnostic, ignore }
}

#[test]
fn empty_info_string_gives_the_default_directive() {
    assert_eq!(
        CodeBlockTest::from_str(""),
        directive(BlockType::Foreign(String::new()), false, false)
    );
}

#[test]
fn flags_in_any_order_give_the_same_directive() {
    let first = CodeBlockTest::from_str("js expect_diagnostic ignore");
    let second = CodeBlockTest::from_str("ignore expect_diagnostic js");
    assert_eq!(first, second);
    assert_eq!(first, directive(BlockType::Js(JsSource::Jsx), true, true));
}

#[test]
fn last_language_token_wins() {
    assert_eq!(
        CodeBlockTest::from_str("js ts"),
        directive(BlockType::Js(JsSource::TypeScript), false, false)
    );
    assert_eq!(
        CodeBlockTest::from_str("ts,js"),
        directive(BlockType::Js(JsSource::Jsx), false, false)
    );
}

#[test]
fn unknown_token_forces_ignore() {
    assert_eq!(
        CodeBlockTest::from_str("foo"),
        directive(BlockType::Foreign("foo".to_string()), false, true)
    );
    assert_eq!(
        CodeBlockTest::from_str("js,foo,expect_diagnostic"),
        directive(BlockType::Foreign("foo".to_string()), true, true)
    );
    assert_eq!(
        CodeBlockTest::from_str("foo js"),
        directive(BlockType::Js(JsSource::Jsx), false, true)
    );
}

#[test]
fn every_language_token_is_read() {
    let cases = [
        ("cjs", BlockType::Js(JsSource::Script)),
        ("js", BlockType::Js(JsSource::Jsx)),
        ("mjs", BlockType::Js(JsSource::Jsx)),
        ("jsx", BlockType::Js(JsSource::Jsx)),
        ("ts", BlockType::Js(JsSource::TypeScript)),
        ("mts", BlockType::Js(JsSource::TypeScript)),
        ("cts", BlockType::Js(JsSource::TypeScript)),
        ("tsx", BlockType::Js(JsSource::Tsx)),
        ("svelte", BlockType::Js(JsSource::Svelte)),
        ("astro", BlockType::Js(JsSource::Astro)),
        ("vue", BlockType::Js(JsSource::Vue)),
        ("json", BlockType::Json),
        ("css", BlockType::Css),
    ];
    for (token, block_type) in cases {
        assert_eq!(CodeBlockTest::from_str(token), directive(block_type, false, false));
    }
}

#[test]
fn separators_and_white_space_hold_no_token() {
    assert_eq!(
        CodeBlockTest::from_str(" ,\t, json ,, \t"),
        directive(BlockType::Json, false, false)
    );
    assert_eq!(
        CodeBlockTest::from_str("\u{a0}css\u{2003},\nexpect_diagnostic\r"),
        directive(BlockType::Css, true, false)
    );
    assert_eq!(
        CodeBlockTest::from_str(",,,"),
        directive(BlockType::Foreign(String::new()), false, false)
    );
}

#[test]
fn keywords_are_matched_whole() {
    assert_eq!(
        CodeBlockTest::from_str("ignored"),
        directive(BlockType::Foreign("ignored".to_string()), false, true)
    );
    assert_eq!(
        CodeBlockTest::from_str("JS"),
        directive(BlockType::Foreign("JS".to_string()), false, true)
    );
    assert_eq!(
        CodeBlockTest::from_str("ts ignore"),
        directive(BlockType::Js(JsSource::TypeScript), false, true)
    );
}
