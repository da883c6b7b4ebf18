//! Styled text: pieces of text of which some are emphasized, and the two
//! forms in which it is written out, as HTML and as plain text.

use biome_console::fmt::{Formatter, Termcolor, HTML};
use biome_console::MarkupElement;
use biome_diagnostics::termcolor::NoColor;
use vstd::prelude::*;

verus! {

/// A piece of text with one style.
#[derive(Debug, PartialEq, Eq)]
pub struct MarkupNode {
    /// Whether the text is emphasized.
    pub emphasis: bool,
    pub content: String,
}

/// A styled text: its pieces in their order.
#[derive(Debug, PartialEq, Eq)]
pub struct Markup {
    pub nodes: Vec<MarkupNode>,
}

/// A piece of styled text, as contracts speak of it.
pub struct MarkupNodeView {
    pub emphasis: bool,
    pub content: Seq<char>,
}

impl View for MarkupNode {
    type V = MarkupNodeView;

    open spec fn view(&self) -> MarkupNodeView {
        MarkupNodeView { emphasis: self.emphasis, content: self.content@ }
    }
}

impl View for Markup {
    type V = Seq<MarkupNodeView>;

    open spec fn view(&self) -> Seq<MarkupNodeView> {
        self.nodes@.map_values(|node: MarkupNode| node@)
    }
}

/// What stands for a character in HTML: the four characters that mean
/// something there are written as entities.
pub open spec fn html_escape(c: char) -> Seq<char> {
    if c == '"' {
        "&quot;"@
    } else if c == '&' {
        "&amp;"@
    } else if c == '<' {
        "&lt;"@
    } else if c == '>' {
        "&gt;"@
    } else {
        seq![c]
    }
}

/// A text as it stands in HTML, character by character.
pub open spec fn html_escaped(text: Seq<char>) -> Seq<char>
    decreases text.len(),
{
    if text.len() == 0 {
        Seq::empty()
    } else {
        html_escaped(text.drop_last()) + html_escape(text.last())
    }
}

/// A piece of styled text as HTML: an emphasized one is set in `strong`.
pub open spec fn node_html(node: MarkupNodeView) -> Seq<char> {
    if node.emphasis {
        "<strong>"@ + html_escaped(node.content) + "</strong>"@
    } else {
        html_escaped(node.content)
    }
}

/// A styled text as HTML: its pieces one after the other.
pub open spec fn markup_html(nodes: Seq<MarkupNodeView>) -> Seq<char>
    decreases nodes.len(),
{
    if nodes.len() == 0 {
        Seq::empty()
    } else {
        markup_html(nodes.drop_last()) + node_html(nodes.last())
    }
}

/// What biome_console's writer for terminals writes for a text when the
/// terminal takes no colors: the text with what a terminal cannot show
/// replaced.
pub uninterp spec fn terminal_text(content: Seq<char>) -> Seq<char>;

/// A styled text as plain text: its pieces one after the other, each as a
/// terminal without colors shows it.
pub open spec fn markup_plain(nodes: Seq<MarkupNodeView>) -> Seq<char>
    decreases nodes.len(),
{
    if nodes.len() == 0 {
        Seq::empty()
    } else {
        markup_plain(nodes.drop_last()) + terminal_text(nodes.last().content)
    }
}

/// Writes one piece of text without style through `biome_console`'s
/// `Formatter::write_markup` and its `HTML` writer, which puts an entity for
/// each of `"`, `&`, `<` and `>` and copies every other byte.
#[verifier::external_body]
fn html_of_text(content: &str) -> (out: String)
    ensures
        out@ == html_escaped(content@),
{
    let mut buffer = Vec::new();
    let mut writer = HTML(&mut buffer);
    let node = biome_console::MarkupNode { elements: &[], content: &content };
    let _ = Formatter::new(&mut writer).write_markup(biome_console::Markup(&[node]));
    String::from_utf8_lossy(&buffer).into_owned()
}

/// Writes one piece of text with the element `Emphasis` through
/// `biome_console`'s `Formatter::write_markup` and its `HTML` writer, which
/// sets the escaped text between `<strong>` and `</strong>`.
#[verifier::external_body]
fn html_of_emphasis(content: &str) -> (out: String)
    ensures
        out@ == "<strong>"@ + html_escaped(content@) + "</strong>"@,
{
    let mut buffer = Vec::new();
    let mut writer = HTML(&mut buffer);
    let elements = [MarkupElement::Emphasis];
    let node = biome_console::MarkupNode { elements: &elements, content: &content };
    let _ = Formatter::new(&mut writer).write_markup(biome_console::Markup(&[node]));
    String::from_utf8_lossy(&buffer).into_owned()
}

/// Writes one piece of text through `biome_console`'s
/// `Formatter::write_markup` and its `Termcolor` writer over a `NoColor`
/// terminal. Without colors the writer shows no style, so the result is a
/// function of the text alone: the contract gives it its name.
#[verifier::external_body]
fn plain_of_text(content: &str) -> (out: String)
    ensures
        out@ == terminal_text(content@),
{
    let mut buffer = Vec::new();
    let mut writer = Termcolor(NoColor::new(&mut buffer));
    let node = biome_console::MarkupNode { elements: &[], content: &content };
    let _ = Formatter::new(&mut writer).write_markup(biome_console::Markup(&[node]));
    String::from_utf8_lossy(&buffer).into_owned()
}

/// Appends a styled text to a buffer, as HTML.
pub fn write_markup_to_string(buffer: &mut String, markup: &Markup)
    ensures
        final(buffer)@ == old(buffer)@ + markup_html(markup@),
{
    let mut i: usize = 0;
    proof {
        assert(markup@.take(0) =~= Seq::<MarkupNodeView>::empty());
    }
    while i < markup.nodes.len()
        invariant
            i <= markup.nodes.len(),
            buffer@ == old(buffer)@ + markup_html(markup@.take(i as int)),
        decreases markup.nodes.len() - i,
    {
        let node = &markup.nodes[i];
        let html = if node.emphasis {
            html_of_emphasis(node.content.as_str())
        } else {
            html_of_text(node.content.as_str())
        };
        proof {
            let next = markup@.take(i + 1);
            assert(next.drop_last() =~= markup@.take(i as int));
            assert(next.last() == node@);
            assert(html@ == node_html(node@));
        }
        buffer.append(html.as_str());
        i = i + 1;
    }
    proof {
        assert(markup@.take(markup.nodes.len() as int) =~= markup@);
    }
}

/// A styled text as plain text.
pub fn markup_to_string(markup: &Markup) -> (text: String)
    ensures
        text@ == markup_plain(markup@),
{
    let mut text = String::new();
    let mut i: usize = 0;
    proof {
        assert(markup@.take(0) =~= Seq::<MarkupNodeView>::empty());
    }
    while i < markup.nodes.len()
        invariant
            i <= markup.nodes.len(),
            text@ == markup_plain(markup@.take(i as int)),
        decreases markup.nodes.len() - i,
    {
        let node = &markup.nodes[i];
        let plain = plain_of_text(node.content.as_str());
        proof {
            let next = markup@.take(i + 1);
            assert(next.drop_last() =~= markup@.take(i as int));
            assert(next.last() == node@);
        }
        text.append(plain.as_str());
        i = i + 1;
    }
    proof {
        assert(markup@.take(markup.nodes.len() as int) =~= markup@);
    }
    text
}

} // verus!
