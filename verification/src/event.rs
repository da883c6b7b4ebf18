//! The events of a markdown document, as the transducer reads them, and the
//! tokenizer that yields them.

use pulldown_cmark::{html, CodeBlockKind, Event, LinkType, Parser, Tag, TagEnd};
use vstd::prelude::*;

verus! {

/// How a link was written in the markdown source.
#[derive(Clone, Copy, Debug, PartialEq, Eq, Structural)]
pub enum LinkKind {
    /// `<https://example.org>`
    Autolink,
    /// `[text](destination)`
    Inline,
    /// `[text][label]`
    Reference,
    /// `[label]`
    Shortcut,
    /// Any other way, none of which the transducer renders.
    Other,
}

/// An element that opens in the event stream and holds other events.
#[derive(Clone, Debug, PartialEq, Eq)]
pub enum DocTag {
    Paragraph,
    /// A heading and its level, from 1 to 6.
    Heading(usize),
    BlockQuote,
    /// A fenced code block and its info string.
    CodeBlock(String),
    /// A list; an ordered one has the number of its first item.
    List(Option<u64>),
    Item,
    Emphasis,
    Strong,
    Strikethrough,
    /// A link: how it was written, its destination and its title.
    Link(LinkKind, String, String),
    /// An element that the transducer does not render, described.
    Unsupported(String),
}

/// The end of an element.
#[derive(Clone, Debug, PartialEq, Eq)]
pub enum DocTagEnd {
    Paragraph,
    Heading,
    BlockQuote,
    CodeBlock,
    List,
    Item,
    Emphasis,
    Strong,
    Strikethrough,
    Link,
    /// The end of an element that the transducer does not render, described.
    Unsupported(String),
}

/// One event of a markdown document, in document order.
#[derive(Clone, Debug, PartialEq, Eq)]
pub enum DocEvent {
    Start(DocTag),
    End(DocTagEnd),
    Text(String),
    /// Inline code.
    Code(String),
    SoftBreak,
    HardBreak,
    /// An event that the transducer does not render, described.
    Unsupported(String),
}

/// pulldown-cmark's `Event`, of which nothing is known here: the tokenizer
/// reads it into a `DocEvent`.
#[verifier::external_type_specification]
#[verifier::external_body]
pub struct ExEvent<'a>(Event<'a>);

/// pulldown-cmark's `Tag`, of which nothing is known here: the tokenizer
/// reads it into a `DocTag`.
#[verifier::external_type_specification]
#[verifier::external_body]
pub struct ExTag<'a>(Tag<'a>);

/// pulldown-cmark's `TagEnd`, of which nothing is known here: the tokenizer
/// reads it into a `DocTagEnd`.
#[verifier::external_type_specification]
#[verifier::external_body]
pub struct ExTagEnd(TagEnd);

/// pulldown-cmark's `LinkType`, of which nothing is known here: the
/// tokenizer reads it into a `LinkKind`.
#[verifier::external_type_specification]
#[verifier::external_body]
pub struct ExLinkType(LinkType);

/// The events that pulldown-cmark's parser, with none of its options
/// enabled, yields for a markdown text.
pub uninterp spec fn markdown_events(docs: Seq<char>) -> Seq<DocEvent>;

/// The HTML that pulldown-cmark writes for the events of a markdown text
/// from the one numbered `from` up to, and without, the one numbered `to`.
pub uninterp spec fn markdown_html(docs: Seq<char>, from: nat, to: nat) -> Seq<char>;

/// Reads pulldown-cmark's `LinkType`: the four ways of writing a link that
/// the transducer renders keep their names, the others are `Other`.
#[verifier::external_body]
fn link_kind(link_type: LinkType) -> LinkKind {
    match link_type {
        LinkType::Autolink => LinkKind::Autolink,
        LinkType::Inline => LinkKind::Inline,
        LinkType::Reference => LinkKind::Reference,
        LinkType::Shortcut => LinkKind::Shortcut,
        _ => LinkKind::Other,
    }
}

/// Reads pulldown-cmark's `Tag`, variant by variant; one that the transducer
/// does not render is kept as its `Debug` text.
#[verifier::external_body]
fn doc_tag(tag: Tag<'_>) -> DocTag {
    match tag {
        Tag::Paragraph => DocTag::Paragraph,
        Tag::Heading { level, .. } => DocTag::Heading(level as usize),
        Tag::BlockQuote => DocTag::BlockQuote,
        Tag::CodeBlock(CodeBlockKind::Fenced(info)) => DocTag::CodeBlock(info.into_string()),
        Tag::List(first) => DocTag::List(first),
        Tag::Item => DocTag::Item,
        Tag::Emphasis => DocTag::Emphasis,
        Tag::Strong => DocTag::Strong,
        Tag::Strikethrough => DocTag::Strikethrough,
        Tag::Link { link_type, dest_url, title, .. } => DocTag::Link(link_kind(link_type), dest_url.into_string(), title.into_string()),
        other => DocTag::Unsupported(format!("{other:?}")),
    }
}

/// Reads pulldown-cmark's `TagEnd`, variant by variant; one that the
/// transducer does not render is kept as its `Debug` text.
#[verifier::external_body]
fn doc_tag_end(tag: TagEnd) -> DocTagEnd {
    match tag {
        TagEnd::Paragraph => DocTagEnd::Paragraph,
        TagEnd::Heading(_) => DocTagEnd::Heading,
        TagEnd::BlockQuote => DocTagEnd::BlockQuote,
        TagEnd::CodeBlock => DocTagEnd::CodeBlock,
        TagEnd::List(_) => DocTagEnd::List,
        TagEnd::Item => DocTagEnd::Item,
        TagEnd::Emphasis => DocTagEnd::Emphasis,
        TagEnd::Strong => DocTagEnd::Strong,
        TagEnd::Strikethrough => DocTagEnd::Strikethrough,
        TagEnd::Link => DocTagEnd::Link,
        other => DocTagEnd::Unsupported(format!("{other:?}")),
    }
}

/// Reads pulldown-cmark's `Event`, variant by variant; one that the
/// transducer does not render is kept as its `Debug` text.
#[verifier::external_body]
fn doc_event(event: Event<'_>) -> DocEvent {
    match event {
        Event::Start(tag) => DocEvent::Start(doc_tag(tag)),
        Event::End(tag) => DocEvent::End(doc_tag_end(tag)),
        Event::Text(text) => DocEvent::Text(text.into_string()),
        Event::Code(text) => DocEvent::Code(text.into_string()),
        Event::SoftBreak => DocEvent::SoftBreak,
        Event::HardBreak => DocEvent::HardBreak,
        other => DocEvent::Unsupported(format!("{other:?}")),
    }
}

/// Runs `pulldown_cmark::Parser::new` over a text and collects the events
/// that it yields. The parser is a function of the text alone, and so is
/// what comes out: the contract gives it its name.
#[verifier::external_body]
fn tokenize(docs: &str) -> (events: Vec<DocEvent>)
    ensures
        events@ == markdown_events(docs@),
{
    Parser::new(docs).map(doc_event).collect()
}

/// Runs `pulldown_cmark::html::write_html` over a run of the events that
/// `pulldown_cmark::Parser::new` yields for a text. What it writes is a
/// function of the text and of the two bounds: the contract gives it its name.
#[verifier::external_body]
pub(crate) fn write_events_html(docs: &str, from: usize, to: usize) -> (out: String)
    ensures
        out@ == markdown_html(docs@, from as nat, to as nat),
{
    let mut bytes = Vec::new();
    let _ = html::write_html(&mut bytes, Parser::new(docs).take(to).skip(from));
    String::from_utf8_lossy(&bytes).into_owned()
}

/// The events of a markdown text, in document order. An event that the
/// transducer does not render is handed out as `Unsupported`, with a
/// description of what it was.
pub fn parse_markdown(docs: &str) -> (events: Vec<DocEvent>)
    ensures
        events@ == markdown_events(docs@),
{
    tokenize(docs)
}

/// A copy of an event.
pub fn copy_event(event: &DocEvent) -> (copy: DocEvent)
    ensures
        copy == *event,
{
    match event {
        DocEvent::Start(tag) => DocEvent::Start(
            match tag {
                DocTag::Paragraph => DocTag::Paragraph,
                DocTag::Heading(level) => DocTag::Heading(*level),
                DocTag::BlockQuote => DocTag::BlockQuote,
                DocTag::CodeBlock(info) => DocTag::CodeBlock(info.clone()),
                DocTag::List(first) => DocTag::List(*first),
                DocTag::Item => DocTag::Item,
                DocTag::Emphasis => DocTag::Emphasis,
                DocTag::Strong => DocTag::Strong,
                DocTag::Strikethrough => DocTag::Strikethrough,
                DocTag::Link(kind, dest, title) => DocTag::Link(*kind, dest.clone(), title.clone()),
                DocTag::Unsupported(what) => DocTag::Unsupported(what.clone()),
            },
        ),
        DocEvent::End(tag) => DocEvent::End(
            match tag {
                DocTagEnd::Paragraph => DocTagEnd::Paragraph,
                DocTagEnd::Heading => DocTagEnd::Heading,
                DocTagEnd::BlockQuote => DocTagEnd::BlockQuote,
                DocTagEnd::CodeBlock => DocTagEnd::CodeBlock,
                DocTagEnd::List => DocTagEnd::List,
                DocTagEnd::Item => DocTagEnd::Item,
                DocTagEnd::Emphasis => DocTagEnd::Emphasis,
                DocTagEnd::Strong => DocTagEnd::Strong,
                DocTagEnd::Strikethrough => DocTagEnd::Strikethrough,
                DocTagEnd::Link => DocTagEnd::Link,
                DocTagEnd::Unsupported(what) => DocTagEnd::Unsupported(what.clone()),
            },
        ),
        DocEvent::Text(text) => DocEvent::Text(text.clone()),
        DocEvent::Code(text) => DocEvent::Code(text.clone()),
        DocEvent::SoftBreak => DocEvent::SoftBreak,
        DocEvent::HardBreak => DocEvent::HardBreak,
        DocEvent::Unsupported(what) => DocEvent::Unsupported(what.clone()),
    }
}

} // verus!
