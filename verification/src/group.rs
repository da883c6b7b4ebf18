//! The groups of rules: the name and the description of each, and the line
//! that stands for a group in the reference.

use crate::markup::{markup_plain, markup_to_string, Markup, MarkupNode, MarkupNodeView};
use crate::text::{ascii_lowercase, ascii_lowered, replace_char, str_eq, with_replaced};
use vstd::prelude::*;

verus! {

/// Whether a text is the identifier of a group of rules.
pub open spec fn is_known_group(group: Seq<char>) -> bool {
    ||| group == "a11y"@
    ||| group == "complexity"@
    ||| group == "correctness"@
    ||| group == "nursery"@
    ||| group == "performance"@
    ||| group == "security"@
    ||| group == "style"@
    ||| group == "suspicious"@
}

/// The name of a group, as its pages show it.
pub open spec fn group_name(group: Seq<char>) -> Seq<char> {
    if group == "a11y"@ {
        "Accessibility"@
    } else if group == "complexity"@ {
        "Complexity"@
    } else if group == "correctness"@ {
        "Correctness"@
    } else if group == "nursery"@ {
        "Nursery"@
    } else if group == "performance"@ {
        "Performance"@
    } else if group == "security"@ {
        "Security"@
    } else if group == "style"@ {
        "Style"@
    } else {
        "Suspicious"@
    }
}

/// A text without style, as one piece.
pub open spec fn plain_node(content: Seq<char>) -> MarkupNodeView {
    MarkupNodeView { emphasis: false, content }
}

/// What the description of the nursery says before its emphasized words.
pub open spec fn nursery_opening() -> Seq<char> {
    "New rules that are still under development.\n\nNursery rules require explicit opt-in via configuration on stable versions because they may still have bugs or performance problems.\nThey are enabled by default on nightly builds, but as they are unstable their diagnostic severity may be set to either error or\nwarning, depending on whether we intend for the rule to be recommended or not when it eventually gets stabilized.\nNursery rules get promoted to other groups once they become stable or may be removed.\n\nRules that belong to this group "@
}

/// The description of a group.
pub open spec fn group_description(group: Seq<char>) -> Seq<MarkupNodeView> {
    if group == "a11y"@ {
        seq![plain_node("Rules focused on preventing accessibility problems."@)]
    } else if group == "complexity"@ {
        seq![
            plain_node("Rules that focus on inspecting complex code that could be simplified."@),
        ]
    } else if group == "correctness"@ {
        seq![
            plain_node("Rules that detect code that is guaranteed to be incorrect or useless."@),
        ]
    } else if group == "nursery"@ {
        seq![
            plain_node(nursery_opening()),
            MarkupNodeView { emphasis: true, content: "are not subject to semantic version"@ },
            plain_node("."@),
        ]
    } else if group == "performance"@ {
        seq![
            plain_node(
                "Rules catching ways your code could be written to run faster, or generally be more efficient."@,
            ),
        ]
    } else if group == "security"@ {
        seq![plain_node("Rules that detect potential security flaws."@)]
    } else if group == "style"@ {
        seq![
            plain_node("Rules enforcing a consistent and idiomatic way of writing your code."@),
        ]
    } else {
        seq![plain_node("Rules that detect code that is likely to be incorrect or useless."@)]
    }
}

/// Tells whether a text is the identifier of a group of rules.
pub fn known_group(group: &str) -> (known: bool)
    ensures
        known == is_known_group(group@),
{
    str_eq(group, "a11y") || str_eq(group, "complexity") || str_eq(group, "correctness") || str_eq(
        group,
        "nursery",
    ) || str_eq(group, "performance") || str_eq(group, "security") || str_eq(group, "style")
        || str_eq(group, "suspicious")
}

/// A styled text of one piece without style.
fn plain(content: &str) -> (markup: Markup)
    ensures
        markup@ == seq![plain_node(content@)],
{
    let mut nodes: Vec<MarkupNode> = Vec::new();
    nodes.push(MarkupNode { emphasis: false, content: String::from_str(content) });
    let markup = Markup { nodes };
    proof {
        assert(markup@ =~= seq![plain_node(content@)]);
    }
    markup
}

/// The description of the nursery.
fn nursery_description() -> (markup: Markup)
    ensures
        markup@ == group_description("nursery"@),
{
    let mut nodes: Vec<MarkupNode> = Vec::new();
    nodes.push(
        MarkupNode {
            emphasis: false,
            content: String::from_str(
                "New rules that are still under development.\n\nNursery rules require explicit opt-in via configuration on stable versions because they may still have bugs or performance problems.\nThey are enabled by default on nightly builds, but as they are unstable their diagnostic severity may be set to either error or\nwarning, depending on whether we intend for the rule to be recommended or not when it eventually gets stabilized.\nNursery rules get promoted to other groups once they become stable or may be removed.\n\nRules that belong to this group ",
            ),
        },
    );
    nodes.push(
        MarkupNode {
            emphasis: true,
            content: String::from_str("are not subject to semantic version"),
        },
    );
    nodes.push(MarkupNode { emphasis: false, content: String::from_str(".") });
    let markup = Markup { nodes };
    proof {
        lemma_groups_differ();
        assert(markup@ =~= group_description("nursery"@));
    }
    markup
}

/// The identifiers of the groups differ from one another.
pub proof fn lemma_groups_differ()
    ensures
        "a11y"@ != "complexity"@,
        "a11y"@ != "correctness"@,
        "a11y"@ != "nursery"@,
        "a11y"@ != "performance"@,
        "a11y"@ != "security"@,
        "a11y"@ != "style"@,
        "a11y"@ != "suspicious"@,
        "complexity"@ != "correctness"@,
        "complexity"@ != "nursery"@,
        "complexity"@ != "performance"@,
        "complexity"@ != "security"@,
        "complexity"@ != "style"@,
        "complexity"@ != "suspicious"@,
        "correctness"@ != "nursery"@,
        "correctness"@ != "performance"@,
        "correctness"@ != "security"@,
        "correctness"@ != "style"@,
        "correctness"@ != "suspicious"@,
        "nursery"@ != "performance"@,
        "nursery"@ != "security"@,
        "nursery"@ != "style"@,
        "nursery"@ != "suspicious"@,
        "performance"@ != "security"@,
        "performance"@ != "style"@,
        "performance"@ != "suspicious"@,
        "security"@ != "style"@,
        "security"@ != "suspicious"@,
        "style"@ != "suspicious"@,
{
    reveal_strlit("a11y");
    reveal_strlit("complexity");
    reveal_strlit("correctness");
    reveal_strlit("nursery");
    reveal_strlit("performance");
    reveal_strlit("security");
    reveal_strlit("style");
    reveal_strlit("suspicious");
    assert("a11y"@.len() == 4);
    assert("complexity"@.len() == 10);
    assert("correctness"@.len() == 11);
    assert("nursery"@.len() == 7);
    assert("performance"@.len() == 11);
    assert("security"@.len() == 8);
    assert("style"@.len() == 5);
    assert("suspicious"@.len() == 10);
    assert("complexity"@[0] == 'c');
    assert("suspicious"@[0] == 's');
    assert("correctness"@[0] == 'c');
    assert("performance"@[0] == 'p');
}

/// The name and the description of a group of rules.
pub fn extract_group_metadata(group: &str) -> (metadata: (&'static str, Markup))
    requires
        is_known_group(group@),
    ensures
        metadata.0@ == group_name(group@),
        metadata.1@ == group_description(group@),
{
    if str_eq(group, "a11y") {
        ("Accessibility", plain("Rules focused on preventing accessibility problems."))
    } else if str_eq(group, "complexity") {
        (
            "Complexity",
            plain("Rules that focus on inspecting complex code that could be simplified."),
        )
    } else if str_eq(group, "correctness") {
        (
            "Correctness",
            plain("Rules that detect code that is guaranteed to be incorrect or useless."),
        )
    } else if str_eq(group, "nursery") {
        proof {
            lemma_groups_differ();
        }
        ("Nursery", nursery_description())
    } else if str_eq(group, "performance") {
        (
            "Performance",
            plain(
                "Rules catching ways your code could be written to run faster, or generally be more efficient.",
            ),
        )
    } else if str_eq(group, "security") {
        ("Security", plain("Rules that detect potential security flaws."))
    } else if str_eq(group, "style") {
        ("Style", plain("Rules enforcing a consistent and idiomatic way of writing your code."))
    } else {
        ("Suspicious", plain("Rules that detect code that is likely to be incorrect or useless."))
    }
}

/// The line of a group in the reference: its name in lower case, and its
/// description as plain text on one line.
pub open spec fn reference_line(group: Seq<char>) -> Seq<char> {
    "<li><code>"@ + ascii_lowered(group_name(group)) + "</code>: "@ + with_replaced(
        markup_plain(group_description(group)),
        '\n',
        ' ',
    ) + "</li>\n"@
}

/// Appends the line of a group to the reference.
pub fn generate_reference(group: &str, buffer: &mut String)
    requires
        is_known_group(group@),
    ensures
        final(buffer)@ == old(buffer)@ + reference_line(group@),
{
    let (name, description) = extract_group_metadata(group);
    let description = markup_to_string(&description);
    let description = replace_char(description.as_str(), '\n', ' ');
    let name = ascii_lowercase(name);
    buffer.append("<li><code>");
    buffer.append(name.as_str());
    buffer.append("</code>: ");
    buffer.append(description.as_str());
    buffer.append("</li>\n");
    proof {
        assert(final(buffer)@ =~= old(buffer)@ + reference_line(group@));
    }
}

} // verus!
