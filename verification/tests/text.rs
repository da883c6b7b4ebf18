use lintdoc::group::{extract_group_metadata, generate_reference, known_group};
use lintdoc::markup::{markup_to_string, write_markup_to_string, Markup, MarkupNode};
use lintdoc::order::str_less;
use lintdoc::text::{
    ascii_lowercase, push_decimal, push_repeated, replace_char, str_eq, whitespace,
};

fn node(emphasis: bool, content: &str) -> MarkupNode {
    MarkupNode { emphasis, content: content.to_string() }
}

#[test]
fn decimal_notation() {
    let mut out = String::from("n=");
    push_decimal(&mut out, 0);
    out.push(',');
    push_decimal(&mut out, 7);
    out.push(',');
    push_decimal(&mut out, 10);
    out.push(',');
    push_decimal(&mut out, 4096);
    out.push(',');
    push_decimal(&mut out, u64::MAX);
    assert_eq!(out, "n=0,7,10,4096,18446744073709551615");
}

#[test]
fn repeated_pieces() {
    let mut out = String::from(">");
    push_repeated(&mut out, "ab", 3);
    push_repeated(&mut out, "x", 0);
    assert_eq!(out, ">ababab");
}

#[test]
fn characters_replaced_and_lowered() {
    assert_eq!(replace_char("a\nb\n\nc", '\n', ' '), "a b  c");
    assert_eq!(replace_char("", '\n', ' '), "");
    assert_eq!(ascii_lowercase("Accessibility A11Y É"), "accessibility a11y É");
}

#[test]
fn white_space_is_the_unicode_property() {
    for c in ['\t', '\n', '\u{b}', '\u{c}', '\r', ' ', '\u{85}', '\u{a0}', '\u{1680}', '\u{2000}',
        '\u{200a}', '\u{2028}', '\u{2029}', '\u{202f}', '\u{205f}', '\u{3000}']
    {
        assert!(whitespace(c));
        assert!(c.is_whitespace());
    }
    for c in ['a', '\u{8}', '\u{e}', '\u{200b}', '\u{180e}', '\u{feff}', ','] {
        assert!(!whitespace(c));
        assert!(!c.is_whitespace());
    }
}

#[test]
fn white_space_agrees_with_std_on_every_character() {
    for code in 0..0x3100u32 {
        if let Some(c) = char::from_u32(code) {
            assert_eq!(whitespace(c), c.is_whitespace());
        }
    }
}

#[test]
fn texts_compare() {
    assert!(str_eq("abc", "abc"));
    assert!(!str_eq("abc", "abd"));
    assert!(!str_eq("abc", "ab"));
    assert!(str_less("a11y", "complexity"));
    assert!(str_less("noVar", "noVars"));
    assert!(str_less("", "a"));
    assert!(str_less("Z", "a"));
    assert!(str_less("z", "é"));
    assert!(!str_less("useConst", "useConst"));
    assert!(!str_less("b", "a"));
    assert!(!str_less("a", ""));
    for (a, b) in [("style", "suspicious"), ("a", "b"), ("ab", "a"), ("é", "z"), ("", "")] {
        assert_eq!(str_less(a, b), a < b);
        assert_eq!(str_less(b, a), b < a);
    }
}

#[test]
fn markup_is_written_as_html() {
    let markup = Markup {
        nodes: vec![node(false, "a < b & \"c\" > d "), node(true, "<strong>"), node(false, ".")],
    };
    let mut buffer = String::from("x");
    write_markup_to_string(&mut buffer, &markup);
    assert_eq!(
        buffer,
        "xa &lt; b &amp; &quot;c&quot; &gt; d <strong>&lt;strong&gt;</strong>."
    );
}

#[test]
fn markup_is_written_as_plain_text() {
    let markup = Markup {
        nodes: vec![node(false, "a < b\n"), node(true, "bold"), node(false, ".")],
    };
    assert_eq!(markup_to_string(&markup), "a < b\nbold.");
    let hidden = Markup { nodes: vec![node(false, "a\u{200b}b")] };
    assert_eq!(markup_to_string(&hidden), "a\u{fffd}b");
}

#[test]
fn groups_have_a_name_and_a_description() {
    let (name, description) = extract_group_metadata("a11y");
    assert_eq!(name, "Accessibility");
    assert_eq!(
        description,
        Markup { nodes: vec![node(false, "Rules focused on preventing accessibility problems.")] }
    );
    let (name, description) = extract_group_metadata("nursery");
    assert_eq!(name, "Nursery");
    assert_eq!(description.nodes.len(), 3);
    assert_eq!(description.nodes[1], node(true, "are not subject to semantic version"));
    assert_eq!(description.nodes[2], node(false, "."));
    for (group, name) in [
        ("complexity", "Complexity"),
        ("correctness", "Correctness"),
        ("performance", "Performance"),
        ("security", "Security"),
        ("style", "Style"),
        ("suspicious", "Suspicious"),
    ] {
        assert!(known_group(group));
        assert_eq!(extract_group_metadata(group).0, name);
    }
    assert!(!known_group("Style"));
    assert!(!known_group(""));
}

#[test]
fn reference_line_of_a_group() {
    let mut buffer = String::new();
    generate_reference("security", &mut buffer);
    generate_reference("nursery", &mut buffer);
    assert_eq!(
        buffer,
        "<li><code>security</code>: Rules that detect potential security flaws.</li>\n<li><code>nursery</code>: New rules that are still under development.  Nursery rules require explicit opt-in via configuration on stable versions because they may still have bugs or performance problems. They are enabled by default on nightly builds, but as they are unstable their diagnostic severity may be set to either error or warning, depending on whether we intend for the rule to be recommended or not when it eventually gets stabilized. Nursery rules get promoted to other groups once they become stable or may be removed.  Rules that belong to this group are not subject to semantic version.</li>\n"
    );
}
