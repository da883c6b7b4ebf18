//! The transducer: it reads the events of a rule's documentation in order,
//! writes them out again as markdown, holds each example against its
//! directive, and sets the transcript of its diagnostics behind it.

use crate::directive::{parse_directive, BlockType, BlockTypeView, CodeBlockTest, Directive};
use crate::event::{
    copy_event, markdown_events, parse_markdown, DocEvent, DocTag, DocTagEnd, LinkKind,
};
use crate::lint::{
    assert_lint, expected_count, is_analyzed, lint_verdict, needs_analysis, Diagnostic, LintError,
    LintErrorView,
};
use crate::text::{decimal, push_decimal, push_repeated, repeated};
use vstd::prelude::*;

verus! {

/// A breach of what the transducer and those around it have agreed on: the
/// stream of events is malformed, or holds what the transducer does not
/// render, or the results of the analysis do not fit the document.
#[derive(Clone, Copy, Debug, PartialEq, Eq, Structural)]
pub enum ProtocolError {
    /// A link ends where none is open.
    OrphanedLinkEnd,
    /// A link starts inside a link.
    NestedLink,
    /// A link is written in a way that is not rendered.
    UnsupportedLink,
    /// A list ends where none is open.
    OrphanedListEnd,
    /// The number of a list item does not fit in 64 bits.
    OrdinalOverflow,
    /// An event or an element that is not rendered.
    UnsupportedEvent,
    /// An example is to be held against the diagnostics of its snippet, and
    /// no analysis of it was handed in.
    MissingAnalysis,
    /// More analyses were handed in than the document has examples to analyze.
    ExtraAnalysis,
}

/// Why the documentation of a rule could not be rendered.
#[derive(Debug, PartialEq, Eq)]
pub enum DocError {
    /// The protocol was broken at the event with this number. Such an error
    /// ends the whole run.
    Protocol { error: ProtocolError, at: usize },
    /// An example is wrong. Such an error is the rule's own: the run goes on
    /// with the next rule.
    Example(LintError),
}

/// An error of the transducer, as contracts speak of it.
pub enum DocErrorView {
    Protocol { error: ProtocolError, at: nat },
    Example(LintErrorView),
}

impl View for DocError {
    type V = DocErrorView;

    open spec fn view(&self) -> DocErrorView {
        match *self {
            DocError::Protocol { error, at } => DocErrorView::Protocol { error, at: at as nat },
            DocError::Example(error) => DocErrorView::Example(error@),
        }
    }
}

/// What the transducer carries from one event to the next.
pub struct RenderState {
    /// The markdown written so far.
    pub content: Seq<char>,
    /// The code block that is open, if one is: its directive and the text
    /// that it has held so far.
    pub block: Option<(Directive, Seq<char>)>,
    /// The number of the next item, inside an ordered list.
    pub list_order: Option<u64>,
    /// How many lists are open.
    pub list_depth: nat,
    /// The link that is open, if one is: how it was written, its destination
    /// and its title.
    pub link: Option<(LinkKind, Seq<char>, Seq<char>)>,
    /// How many analyses have been used.
    pub analyzed: nat,
}

/// The state before the first event.
pub open spec fn initial_state() -> RenderState {
    RenderState {
        content: Seq::empty(),
        block: None,
        list_order: None,
        list_depth: 0,
        link: None,
        analyzed: 0,
    }
}

/// The tag written behind the opening fence of a code block: it is made from
/// the language that the directive settled on, so that no keyword of the
/// directive shows in the document.
pub open spec fn fence_tag(block_type: BlockTypeView) -> Seq<char> {
    match block_type {
        BlockTypeView::Js(source) => source.tag(),
        BlockTypeView::Json => "json"@,
        BlockTypeView::Css => "css"@,
        BlockTypeView::Foreign(name) => name,
    }
}

/// What opens the container of a transcript.
pub open spec fn transcript_open() -> Seq<char> {
    "<pre class=\"language-text\"><code class=\"language-text\">"@
}

/// What closes the container of a transcript.
pub open spec fn transcript_close() -> Seq<char> {
    "</code></pre>\n\n"@
}

/// A protocol error at an event.
pub open spec fn protocol_error(error: ProtocolError, at: nat) -> Result<
    RenderState,
    DocErrorView,
> {
    Err(DocErrorView::Protocol { error, at })
}

/// The state with more text written.
pub open spec fn wrote(state: RenderState, text: Seq<char>) -> Result<RenderState, DocErrorView> {
    Ok(RenderState { content: state.content + text, ..state })
}

/// The indentation of a list item: two spaces for each open list but the
/// outermost.
pub open spec fn item_indent(list_depth: nat) -> Seq<char> {
    repeated(
        "  "@,
        if list_depth > 1 {
            (list_depth - 1) as nat
        } else {
            0
        },
    )
}

/// What the start of an element makes of the state.
pub open spec fn start_step(state: RenderState, at: nat, tag: DocTag) -> Result<
    RenderState,
    DocErrorView,
> {
    match tag {
        DocTag::Paragraph => Ok(state),
        DocTag::Heading(level) => Ok(
            RenderState {
                content: state.content + repeated("#"@, level as nat) + " "@,
                ..state
            },
        ),
        DocTag::BlockQuote => wrote(state, ">"@),
        DocTag::CodeBlock(info) => {
            let test = parse_directive(info@);
            let fence = state.content + "```"@;
            let tagged = if info@.len() == 0 {
                fence
            } else {
                fence + fence_tag(test.block_type)
            };
            Ok(
                RenderState {
                    content: tagged + "\n"@,
                    block: Some((test, Seq::empty())),
                    ..state
                },
            )
        },
        DocTag::List(first) => {
            let list_order = if first is Some {
                first
            } else {
                state.list_order
            };
            let content = if state.list_depth > 0 {
                state.content + "\n"@
            } else {
                state.content
            };
            Ok(RenderState { content, list_order, list_depth: state.list_depth + 1, ..state })
        },
        DocTag::Item => {
            let indented = state.content + item_indent(state.list_depth);
            match state.list_order {
                Some(number) => Ok(
                    RenderState {
                        content: indented + decimal(number as nat) + ". "@,
                        ..state
                    },
                ),
                None => Ok(RenderState { content: indented + "- "@, ..state }),
            }
        },
        DocTag::Emphasis => wrote(state, "_"@),
        DocTag::Strong => wrote(state, "**"@),
        DocTag::Strikethrough => wrote(state, "~"@),
        DocTag::Link(kind, destination, title) => {
            if state.link is Some {
                protocol_error(ProtocolError::NestedLink, at)
            } else {
                let link = Some((kind, destination@, title@));
                match kind {
                    LinkKind::Autolink => Ok(
                        RenderState { content: state.content + "<"@, link, ..state },
                    ),
                    LinkKind::Inline | LinkKind::Reference | LinkKind::Shortcut => Ok(
                        RenderState { content: state.content + "["@, link, ..state },
                    ),
                    LinkKind::Other => protocol_error(ProtocolError::UnsupportedLink, at),
                }
            }
        },
        DocTag::Unsupported(_) => protocol_error(ProtocolError::UnsupportedEvent, at),
    }
}

/// What the end of a code block makes of the state: the closing fence, and,
/// where a block was open, the verdict of the harness on its example. An
/// example that is analyzed uses the next analysis handed in; any other is
/// held against no diagnostic at all.
pub open spec fn close_block_step(
    state: RenderState,
    at: nat,
    rule: Seq<char>,
    outcomes: Seq<Vec<Diagnostic>>,
    has_fix_kind: bool,
) -> Result<RenderState, DocErrorView> {
    let fenced = state.content + "```\n\n"@;
    match state.block {
        None => Ok(RenderState { content: fenced, ..state }),
        Some((test, code)) => {
            if is_analyzed(test) && state.analyzed >= outcomes.len() {
                protocol_error(ProtocolError::MissingAnalysis, at)
            } else {
                let diagnostics = if is_analyzed(test) {
                    outcomes[state.analyzed as int]@
                } else {
                    Seq::empty()
                };
                let analyzed = if is_analyzed(test) {
                    state.analyzed + 1
                } else {
                    state.analyzed
                };
                match lint_verdict(rule, test, code, diagnostics, has_fix_kind) {
                    Err(error) => Err(DocErrorView::Example(error)),
                    Ok(transcript) => {
                        let content = if test.expect_diagnostic {
                            fenced + transcript_open() + transcript + transcript_close()
                        } else {
                            fenced + transcript
                        };
                        Ok(RenderState { content, block: None, analyzed, ..state })
                    },
                }
            }
        },
    }
}

/// What the end of a link makes of the state.
pub open spec fn close_link_step(state: RenderState, at: nat) -> Result<
    RenderState,
    DocErrorView,
> {
    match state.link {
        None => protocol_error(ProtocolError::OrphanedLinkEnd, at),
        Some((kind, destination, title)) => {
            if kind == LinkKind::Autolink {
                Ok(RenderState { content: state.content + ">"@, link: None, ..state })
            } else {
                let target = state.content + "]("@ + destination;
                let titled = if title.len() == 0 {
                    target
                } else {
                    target + " \""@ + title + "\""@
                };
                Ok(RenderState { content: titled + ")"@, link: None, ..state })
            }
        },
    }
}

/// What the end of an element makes of the state.
pub open spec fn end_step(
    state: RenderState,
    at: nat,
    tag: DocTagEnd,
    rule: Seq<char>,
    outcomes: Seq<Vec<Diagnostic>>,
    has_fix_kind: bool,
) -> Result<RenderState, DocErrorView> {
    match tag {
        DocTagEnd::Paragraph => wrote(state, "\n\n"@),
        DocTagEnd::Heading => wrote(state, "\n\n"@),
        DocTagEnd::BlockQuote => wrote(state, "\n"@),
        DocTagEnd::CodeBlock => close_block_step(state, at, rule, outcomes, has_fix_kind),
        DocTagEnd::List => {
            if state.list_depth == 0 {
                protocol_error(ProtocolError::OrphanedListEnd, at)
            } else {
                Ok(
                    RenderState {
                        content: state.content + "\n"@,
                        list_order: None,
                        list_depth: (state.list_depth - 1) as nat,
                        ..state
                    },
                )
            }
        },
        DocTagEnd::Item => {
            match state.list_order {
                Some(number) => {
                    if number == u64::MAX {
                        protocol_error(ProtocolError::OrdinalOverflow, at)
                    } else {
                        Ok(
                            RenderState {
                                content: state.content + "\n"@,
                                list_order: Some((number + 1) as u64),
                                ..state
                            },
                        )
                    }
                },
                None => wrote(state, "\n"@),
            }
        },
        DocTagEnd::Emphasis => wrote(state, "_"@),
        DocTagEnd::Strong => wrote(state, "**"@),
        DocTagEnd::Strikethrough => wrote(state, "~"@),
        DocTagEnd::Link => close_link_step(state, at),
        DocTagEnd::Unsupported(_) => protocol_error(ProtocolError::UnsupportedEvent, at),
    }
}

/// What one event makes of the state; `at` is its number in the stream.
pub open spec fn step(
    state: RenderState,
    at: nat,
    event: DocEvent,
    rule: Seq<char>,
    outcomes: Seq<Vec<Diagnostic>>,
    has_fix_kind: bool,
) -> Result<RenderState, DocErrorView> {
    match event {
        DocEvent::Start(tag) => start_step(state, at, tag),
        DocEvent::End(tag) => end_step(state, at, tag, rule, outcomes, has_fix_kind),
        DocEvent::Text(text) => Ok(
            RenderState {
                content: state.content + text@,
                block: match state.block {
                    Some((test, code)) => Some((test, code + text@)),
                    None => None,
                },
                ..state
            },
        ),
        DocEvent::Code(text) => Ok(
            RenderState { content: state.content + "`"@ + text@ + "`"@, ..state },
        ),
        DocEvent::SoftBreak => wrote(state, "\n"@),
        DocEvent::HardBreak => wrote(state, "<br />\n"@),
        DocEvent::Unsupported(_) => protocol_error(ProtocolError::UnsupportedEvent, at),
    }
}

/// The state after the first `upto` events, or the error of the first event
/// that has one.
pub open spec fn run(
    events: Seq<DocEvent>,
    upto: nat,
    rule: Seq<char>,
    outcomes: Seq<Vec<Diagnostic>>,
    has_fix_kind: bool,
) -> Result<RenderState, DocErrorView>
    decreases upto,
{
    if upto == 0 {
        Ok(initial_state())
    } else {
        match run(events, (upto - 1) as nat, rule, outcomes, has_fix_kind) {
            Ok(state) => step(
                state,
                (upto - 1) as nat,
                events[upto - 1],
                rule,
                outcomes,
                has_fix_kind,
            ),
            Err(error) => Err(error),
        }
    }
}

/// The markdown that the transducer writes for a stream of events, given the
/// diagnostics of each example that is analyzed, in the order of the
/// examples; or the error of the first event that has one. Analyses left
/// over at the end are an error too.
pub open spec fn rendering(
    events: Seq<DocEvent>,
    rule: Seq<char>,
    outcomes: Seq<Vec<Diagnostic>>,
    has_fix_kind: bool,
) -> Result<Seq<char>, DocErrorView> {
    match run(events, events.len(), rule, outcomes, has_fix_kind) {
        Ok(state) => {
            if state.analyzed != outcomes.len() {
                Err(
                    DocErrorView::Protocol {
                        error: ProtocolError::ExtraAnalysis,
                        at: events.len(),
                    },
                )
            } else {
                Ok(state.content)
            }
        },
        Err(error) => Err(error),
    }
}

/// An error stays: the events behind the first one that has an error change
/// nothing.
pub proof fn lemma_error_stays(
    events: Seq<DocEvent>,
    failed: nat,
    upto: nat,
    rule: Seq<char>,
    outcomes: Seq<Vec<Diagnostic>>,
    has_fix_kind: bool,
)
    requires
        failed <= upto,
        run(events, failed, rule, outcomes, has_fix_kind) is Err,
    ensures
        run(events, upto, rule, outcomes, has_fix_kind) == run(
            events,
            failed,
            rule,
            outcomes,
            has_fix_kind,
        ),
    decreases upto,
{
    if failed < upto {
        lemma_error_stays(events, failed, (upto - 1) as nat, rule, outcomes, has_fix_kind);
    }
}

/// Whether an event starts a paragraph.
pub open spec fn starts_paragraph(event: DocEvent) -> bool {
    event == DocEvent::Start(DocTag::Paragraph)
}

/// Whether an event ends a paragraph.
pub open spec fn ends_paragraph(event: DocEvent) -> bool {
    event == DocEvent::End(DocTagEnd::Paragraph)
}

/// Whether `from` and `to` bound what the first paragraph of a stream holds:
/// the events behind the first start of a paragraph, up to the first end of
/// a paragraph behind it, or to the end of the stream where none follows.
/// Where no paragraph starts, both bounds are the length of the stream.
pub open spec fn bounds_first_paragraph(events: Seq<DocEvent>, from: int, to: int) -> bool {
    ||| {
        &&& from == events.len()
        &&& to == events.len()
        &&& forall|i: int| 0 <= i < events.len() ==> !starts_paragraph(#[trigger] events[i])
    }
    ||| {
        &&& 0 < from <= to <= events.len()
        &&& starts_paragraph(events[from - 1])
        &&& forall|i: int| 0 <= i < from - 1 ==> !starts_paragraph(#[trigger] events[i])
        &&& forall|i: int| from <= i < to ==> !ends_paragraph(#[trigger] events[i])
        &&& to < events.len() ==> ends_paragraph(events[to])
    }
}

/// The first paragraph of a stream has one pair of bounds only.
pub proof fn lemma_first_paragraph_unique(
    events: Seq<DocEvent>,
    from: int,
    to: int,
    other_from: int,
    other_to: int,
)
    requires
        bounds_first_paragraph(events, from, to),
        bounds_first_paragraph(events, other_from, other_to),
    ensures
        from == other_from,
        to == other_to,
{
    if 0 < from <= events.len() && starts_paragraph(events[from - 1]) {
        if 0 < other_from <= events.len() && starts_paragraph(events[other_from - 1]) {
            if from < other_from {
                assert(!starts_paragraph(events[from - 1]));
            }
            if other_from < from {
                assert(!starts_paragraph(events[other_from - 1]));
            }
            if to < other_to {
                assert(!ends_paragraph(events[to]));
            }
            if other_to < to {
                assert(!ends_paragraph(events[other_to]));
            }
        } else {
            assert(!starts_paragraph(events[from - 1]));
        }
    } else {
        if 0 < other_from <= events.len() && starts_paragraph(events[other_from - 1]) {
            assert(!starts_paragraph(events[other_from - 1]));
        }
    }
}

/// The transducer at work: the state between two events.
struct Transducer {
    content: String,
    block_open: bool,
    block_test: CodeBlockTest,
    block_code: String,
    list_order: Option<u64>,
    list_depth: usize,
    link_open: bool,
    link_kind: LinkKind,
    link_destination: String,
    link_title: String,
    analyzed: usize,
}

impl View for Transducer {
    type V = RenderState;

    closed spec fn view(&self) -> RenderState {
        RenderState {
            content: self.content@,
            block: if self.block_open {
                Some((self.block_test@, self.block_code@))
            } else {
                None
            },
            list_order: self.list_order,
            list_depth: self.list_depth as nat,
            link: if self.link_open {
                Some((self.link_kind, self.link_destination@, self.link_title@))
            } else {
                None
            },
            analyzed: self.analyzed as nat,
        }
    }
}

/// Whether the result of a step and the state behind it are the expected ones.
spec fn stepped(
    result: Result<(), DocError>,
    after: RenderState,
    expected: Result<RenderState, DocErrorView>,
) -> bool {
    match expected {
        Ok(state) => result is Ok && after == state,
        Err(error) => result is Err && result->Err_0@ == error,
    }
}

impl Transducer {
    fn new() -> (transducer: Transducer)
        ensures
            transducer@ == initial_state(),
    {
        Transducer {
            content: String::new(),
            block_open: false,
            block_test: CodeBlockTest {
                block_type: BlockType::Json,
                expect_diagnostic: false,
                ignore: false,
            },
            block_code: String::new(),
            list_order: None,
            list_depth: 0,
            link_open: false,
            link_kind: LinkKind::Other,
            link_destination: String::new(),
            link_title: String::new(),
            analyzed: 0,
        }
    }

    fn write(&mut self, text: &str) -> (result: Result<(), DocError>)
        ensures
            stepped(result, final(self)@, wrote(old(self)@, text@)),
            final(self).list_depth == old(self).list_depth,
            final(self).analyzed == old(self).analyzed,
    {
        self.content.append(text);
        Ok(())
    }

    fn open_block(&mut self, info: &String)
        ensures
            Ok::<RenderState, DocErrorView>(final(self)@) == start_step(
                old(self)@,
                0,
                DocTag::CodeBlock(*info),
            ),
            final(self).list_depth == old(self).list_depth,
            final(self).analyzed == old(self).analyzed,
    {
        let test = CodeBlockTest::from_str(info.as_str());
        self.content.append("```");
        if !info.as_str().is_empty() {
            match &test.block_type {
                BlockType::Js(source) => self.content.append(source.fence()),
                BlockType::Json => self.content.append("json"),
                BlockType::Css => self.content.append("css"),
                BlockType::Foreign(name) => self.content.append(name.as_str()),
            }
        }
        self.content.append("\n");
        self.block_open = true;
        self.block_test = test;
        self.block_code = String::new();
    }

    fn start_item(&mut self)
        ensures
            Ok::<RenderState, DocErrorView>(final(self)@) == start_step(
                old(self)@,
                0,
                DocTag::Item,
            ),
            final(self).list_depth == old(self).list_depth,
            final(self).analyzed == old(self).analyzed,
    {
        let levels = if self.list_depth > 1 {
            self.list_depth - 1
        } else {
            0
        };
        push_repeated(&mut self.content, "  ", levels);
        match self.list_order {
            Some(number) => {
                push_decimal(&mut self.content, number);
                self.content.append(". ");
            },
            None => {
                self.content.append("- ");
            },
        }
    }

    fn open_link(
        &mut self,
        at: usize,
        kind: LinkKind,
        destination: &String,
        title: &String,
    ) -> (result: Result<(), DocError>)
        ensures
            stepped(
                result,
                final(self)@,
                start_step(old(self)@, at as nat, DocTag::Link(kind, *destination, *title)),
            ),
            final(self).list_depth == old(self).list_depth,
            final(self).analyzed == old(self).analyzed,
    {
        if self.link_open {
            return Err(DocError::Protocol { error: ProtocolError::NestedLink, at });
        }
        match kind {
            LinkKind::Autolink => {
                self.content.append("<");
            },
            LinkKind::Inline | LinkKind::Reference | LinkKind::Shortcut => {
                self.content.append("[");
            },
            LinkKind::Other => {
                return Err(DocError::Protocol { error: ProtocolError::UnsupportedLink, at });
            },
        }
        self.link_open = true;
        self.link_kind = kind;
        self.link_destination = destination.clone();
        self.link_title = title.clone();
        Ok(())
    }

    fn start(&mut self, at: usize, tag: &DocTag) -> (result: Result<(), DocError>)
        requires
            old(self).list_depth <= at < usize::MAX,
        ensures
            stepped(result, final(self)@, start_step(old(self)@, at as nat, *tag)),
            final(self).list_depth <= at + 1,
            final(self).analyzed == old(self).analyzed,
    {
        match tag {
            DocTag::Paragraph => Ok(()),
            DocTag::Heading(level) => {
                push_repeated(&mut self.content, "#", *level);
                self.content.append(" ");
                Ok(())
            },
            DocTag::BlockQuote => self.write(">"),
            DocTag::CodeBlock(info) => {
                self.open_block(info);
                Ok(())
            },
            DocTag::List(first) => {
                if first.is_some() {
                    self.list_order = *first;
                }
                if self.list_depth > 0 {
                    self.content.append("\n");
                }
                self.list_depth = self.list_depth + 1;
                Ok(())
            },
            DocTag::Item => {
                self.start_item();
                Ok(())
            },
            DocTag::Emphasis => self.write("_"),
            DocTag::Strong => self.write("**"),
            DocTag::Strikethrough => self.write("~"),
            DocTag::Link(kind, destination, title) => self.open_link(at, *kind, destination, title),
            DocTag::Unsupported(_) => Err(
                DocError::Protocol { error: ProtocolError::UnsupportedEvent, at },
            ),
        }
    }

    fn close_block(
        &mut self,
        at: usize,
        rule: &str,
        outcomes: &Vec<Vec<Diagnostic>>,
        has_fix_kind: bool,
    ) -> (result: Result<(), DocError>)
        requires
            old(self).analyzed <= outcomes.len(),
        ensures
            stepped(
                result,
                final(self)@,
                close_block_step(old(self)@, at as nat, rule@, outcomes@, has_fix_kind),
            ),
            final(self).list_depth == old(self).list_depth,
            final(self).analyzed <= outcomes.len(),
    {
        self.content.append("```\n\n");
        if !self.block_open {
            return Ok(());
        }
        let analyzed = needs_analysis(&self.block_test);
        if analyzed && self.analyzed >= outcomes.len() {
            return Err(DocError::Protocol { error: ProtocolError::MissingAnalysis, at });
        }
        let none: Vec<Diagnostic> = Vec::new();
        let diagnostics = if analyzed {
            &outcomes[self.analyzed]
        } else {
            &none
        };
        let verdict = assert_lint(
            rule,
            &self.block_test,
            self.block_code.as_str(),
            diagnostics,
            has_fix_kind,
        );
        match verdict {
            Err(error) => Err(DocError::Example(error)),
            Ok(transcript) => {
                if self.block_test.expect_diagnostic {
                    self.content.append(
                        "<pre class=\"language-text\"><code class=\"language-text\">",
                    );
                    self.content.append(transcript.as_str());
                    self.content.append("</code></pre>\n\n");
                } else {
                    self.content.append(transcript.as_str());
                }
                self.block_open = false;
                if analyzed {
                    self.analyzed = self.analyzed + 1;
                }
                Ok(())
            },
        }
    }

    fn close_link(&mut self, at: usize) -> (result: Result<(), DocError>)
        ensures
            stepped(result, final(self)@, close_link_step(old(self)@, at as nat)),
            final(self).list_depth == old(self).list_depth,
            final(self).analyzed == old(self).analyzed,
    {
        if !self.link_open {
            return Err(DocError::Protocol { error: ProtocolError::OrphanedLinkEnd, at });
        }
        match self.link_kind {
            LinkKind::Autolink => {
                self.content.append(">");
            },
            _ => {
                self.content.append("](");
                self.content.append(self.link_destination.as_str());
                if !self.link_title.as_str().is_empty() {
                    self.content.append(" \"");
                    self.content.append(self.link_title.as_str());
                    self.content.append("\"");
                }
                self.content.append(")");
            },
        }
        self.link_open = false;
        Ok(())
    }

    fn end(
        &mut self,
        at: usize,
        tag: &DocTagEnd,
        rule: &str,
        outcomes: &Vec<Vec<Diagnostic>>,
        has_fix_kind: bool,
    ) -> (result: Result<(), DocError>)
        requires
            old(self).analyzed <= outcomes.len(),
        ensures
            stepped(
                result,
                final(self)@,
                end_step(old(self)@, at as nat, *tag, rule@, outcomes@, has_fix_kind),
            ),
            final(self).list_depth <= old(self).list_depth,
            final(self).analyzed <= outcomes.len(),
    {
        match tag {
            DocTagEnd::Paragraph => self.write("\n\n"),
            DocTagEnd::Heading => self.write("\n\n"),
            DocTagEnd::BlockQuote => self.write("\n"),
            DocTagEnd::CodeBlock => self.close_block(at, rule, outcomes, has_fix_kind),
            DocTagEnd::List => {
                if self.list_depth == 0 {
                    return Err(DocError::Protocol { error: ProtocolError::OrphanedListEnd, at });
                }
                self.list_order = None;
                self.list_depth = self.list_depth - 1;
                self.content.append("\n");
                Ok(())
            },
            DocTagEnd::Item => {
                match self.list_order {
                    Some(number) => {
                        if number == u64::MAX {
                            return Err(
                                DocError::Protocol { error: ProtocolError::OrdinalOverflow, at },
                            );
                        }
                        self.list_order = Some(number + 1);
                    },
                    None => {},
                }
                self.content.append("\n");
                Ok(())
            },
            DocTagEnd::Emphasis => self.write("_"),
            DocTagEnd::Strong => self.write("**"),
            DocTagEnd::Strikethrough => self.write("~"),
            DocTagEnd::Link => self.close_link(at),
            DocTagEnd::Unsupported(_) => Err(
                DocError::Protocol { error: ProtocolError::UnsupportedEvent, at },
            ),
        }
    }

    fn step(
        &mut self,
        at: usize,
        event: &DocEvent,
        rule: &str,
        outcomes: &Vec<Vec<Diagnostic>>,
        has_fix_kind: bool,
    ) -> (result: Result<(), DocError>)
        requires
            old(self).list_depth <= at < usize::MAX,
            old(self).analyzed <= outcomes.len(),
        ensures
            stepped(
                result,
                final(self)@,
                step(old(self)@, at as nat, *event, rule@, outcomes@, has_fix_kind),
            ),
            final(self).list_depth <= at + 1,
            final(self).analyzed <= outcomes.len(),
    {
        match event {
            DocEvent::Start(tag) => self.start(at, tag),
            DocEvent::End(tag) => self.end(at, tag, rule, outcomes, has_fix_kind),
            DocEvent::Text(text) => {
                if self.block_open {
                    self.block_code.append(text.as_str());
                }
                self.content.append(text.as_str());
                Ok(())
            },
            DocEvent::Code(text) => {
                self.content.append("`");
                self.content.append(text.as_str());
                self.content.append("`");
                Ok(())
            },
            DocEvent::SoftBreak => self.write("\n"),
            DocEvent::HardBreak => self.write("<br />\n"),
            DocEvent::Unsupported(_) => Err(
                DocError::Protocol { error: ProtocolError::UnsupportedEvent, at },
            ),
        }
    }
}

/// What rendering the documentation of a rule gives.
#[derive(Debug, PartialEq, Eq)]
pub struct Documentation {
    /// The markdown of the documentation, with the transcripts of its examples.
    pub content: String,
    /// The events that the first paragraph holds: the summary of the rule.
    pub summary: Vec<DocEvent>,
    /// The number of the first event of the summary in the stream.
    pub summary_from: usize,
    /// The number of the event behind the last one of the summary.
    pub summary_to: usize,
}

/// Whether a result is the rendering of a stream: the markdown, or the
/// error; and with the markdown the summary, which is what the first
/// paragraph of the stream holds and nothing else.
pub open spec fn rendered(
    result: Result<Documentation, DocError>,
    events: Seq<DocEvent>,
    rule: Seq<char>,
    outcomes: Seq<Vec<Diagnostic>>,
    has_fix_kind: bool,
) -> bool {
    match rendering(events, rule, outcomes, has_fix_kind) {
        Ok(content) => {
            &&& result is Ok
            &&& result->Ok_0.content@ == content
            &&& bounds_first_paragraph(
                events,
                result->Ok_0.summary_from as int,
                result->Ok_0.summary_to as int,
            )
            &&& result->Ok_0.summary@ == events.subrange(
                result->Ok_0.summary_from as int,
                result->Ok_0.summary_to as int,
            )
        },
        Err(error) => result is Err && result->Err_0@ == error,
    }
}

fn is_paragraph_start(event: &DocEvent) -> (r: bool)
    ensures
        r == starts_paragraph(*event),
{
    match event {
        DocEvent::Start(DocTag::Paragraph) => true,
        _ => false,
    }
}

fn is_paragraph_end(event: &DocEvent) -> (r: bool)
    ensures
        r == ends_paragraph(*event),
{
    match event {
        DocEvent::End(DocTagEnd::Paragraph) => true,
        _ => false,
    }
}

/// Renders the documentation of a rule from its events. `outcomes` holds,
/// for each example that is analyzed, in the order of the examples, the
/// diagnostics that its snippet gave; `has_fix_kind` says whether the rule
/// declares a kind of fix.
pub fn render_documentation(
    rule: &str,
    events: &Vec<DocEvent>,
    outcomes: &Vec<Vec<Diagnostic>>,
    has_fix_kind: bool,
) -> (result: Result<Documentation, DocError>)
    ensures
        rendered(result, events@, rule@, outcomes@, has_fix_kind),
{
    let mut transducer = Transducer::new();
    let mut summary: Vec<DocEvent> = Vec::new();
    let mut started = false;
    let mut ended = false;
    let mut from: usize = 0;
    let mut to: usize = 0;
    let mut i: usize = 0;
    while i < events.len()
        invariant
            i <= events.len(),
            run(events@, i as nat, rule@, outcomes@, has_fix_kind) == Ok::<
                RenderState,
                DocErrorView,
            >(transducer@),
            transducer.list_depth <= i,
            transducer.analyzed <= outcomes.len(),
            !started ==> !ended && summary@.len() == 0 && forall|k: int|
                0 <= k < i ==> !starts_paragraph(#[trigger] events@[k]),
            started ==> 0 < from <= i && starts_paragraph(events@[from - 1]) && forall|k: int|
                0 <= k < from - 1 ==> !starts_paragraph(#[trigger] events@[k]),
            started && !ended ==> summary@ == events@.subrange(from as int, i as int)
                && forall|k: int| from <= k < i ==> !ends_paragraph(#[trigger] events@[k]),
            ended ==> started && from <= to < i && summary@ == events@.subrange(
                from as int,
                to as int,
            ) && ends_paragraph(events@[to as int]) && forall|k: int|
                from <= k < to ==> !ends_paragraph(#[trigger] events@[k]),
        decreases events.len() - i,
    {
        let event = &events[i];
        if started && !ended {
            if is_paragraph_end(event) {
                ended = true;
                to = i;
            } else {
                proof {
                    assert(events@.subrange(from as int, i + 1) =~= events@.subrange(
                        from as int,
                        i as int,
                    ).push(*event));
                }
                summary.push(copy_event(event));
            }
        }
        match transducer.step(i, event, rule, outcomes, has_fix_kind) {
            Ok(()) => {},
            Err(error) => {
                proof {
                    lemma_error_stays(
                        events@,
                        (i + 1) as nat,
                        events@.len(),
                        rule@,
                        outcomes@,
                        has_fix_kind,
                    );
                }
                return Err(error);
            },
        }
        if !started && is_paragraph_start(event) {
            started = true;
            from = i + 1;
            proof {
                assert(events@.subrange(i + 1, i + 1) =~= Seq::<DocEvent>::empty());
            }
        }
        i = i + 1;
    }
    if transducer.analyzed != outcomes.len() {
        return Err(DocError::Protocol { error: ProtocolError::ExtraAnalysis, at: events.len() });
    }
    if !started {
        from = events.len();
        to = events.len();
        proof {
            assert(events@.subrange(from as int, to as int) =~= Seq::<DocEvent>::empty());
        }
    } else if !ended {
        to = events.len();
    }
    proof {
        assert(rendering(events@, rule@, outcomes@, has_fix_kind) == Ok::<Seq<char>, DocErrorView>(
            transducer.content@,
        ));
        assert(bounds_first_paragraph(events@, from as int, to as int));
        assert(summary@ == events@.subrange(from as int, to as int));
    }
    Ok(Documentation { content: transducer.content, summary, summary_from: from, summary_to: to })
}

/// Parses the documentation of a rule, a markdown text, and renders it:
/// `render_documentation` on the events of the text.
pub fn parse_documentation(
    rule: &str,
    docs: &str,
    outcomes: &Vec<Vec<Diagnostic>>,
    has_fix_kind: bool,
) -> (result: Result<Documentation, DocError>)
    ensures
        rendered(result, markdown_events(docs@), rule@, outcomes@, has_fix_kind),
{
    let events = parse_markdown(docs);
    render_documentation(rule, &events, outcomes, has_fix_kind)
}

/// An example that is to be analyzed: the directive of its code block and
/// the snippet that the block holds.
#[derive(Debug, PartialEq, Eq)]
pub struct Example {
    pub test: CodeBlockTest,
    pub code: String,
}

impl View for Example {
    type V = (Directive, Seq<char>);

    open spec fn view(&self) -> (Directive, Seq<char>) {
        (self.test@, self.code@)
    }
}

/// What a reader who only looks for the examples carries from one event to
/// the next.
pub struct Scan {
    /// The code block that is open, if one is.
    pub block: Option<(Directive, Seq<char>)>,
    /// The examples to analyze that have been found, in their order.
    pub found: Seq<(Directive, Seq<char>)>,
}

/// What one event makes of a scan.
pub open spec fn scan_step(scan: Scan, event: DocEvent) -> Scan {
    match event {
        DocEvent::Start(DocTag::CodeBlock(info)) => Scan {
            block: Some((parse_directive(info@), Seq::empty())),
            ..scan
        },
        DocEvent::Text(text) => Scan {
            block: match scan.block {
                Some((test, code)) => Some((test, code + text@)),
                None => None,
            },
            ..scan
        },
        DocEvent::End(DocTagEnd::CodeBlock) => match scan.block {
            Some((test, code)) => Scan {
                block: None,
                found: if is_analyzed(test) {
                    scan.found.push((test, code))
                } else {
                    scan.found
                },
            },
            None => scan,
        },
        _ => scan,
    }
}

/// The scan after the first `upto` events.
pub open spec fn scan(events: Seq<DocEvent>, upto: nat) -> Scan
    decreases upto,
{
    if upto == 0 {
        Scan { block: None, found: Seq::empty() }
    } else {
        scan_step(scan(events, (upto - 1) as nat), events[upto - 1])
    }
}

/// The examples of a stream that are to be analyzed, in their order: the
/// fenced code blocks that are closed, not ignored, and in a language that a
/// frontend takes, each with the text that it holds.
pub open spec fn examples(events: Seq<DocEvent>) -> Seq<(Directive, Seq<char>)> {
    scan(events, events.len()).found
}

/// The examples found only grow in number.
pub proof fn lemma_scan_grows(events: Seq<DocEvent>, early: nat, late: nat)
    requires
        early <= late,
    ensures
        scan(events, early).found.len() <= scan(events, late).found.len(),
    decreases late,
{
    if early < late {
        lemma_scan_grows(events, early, (late - 1) as nat);
    }
}

/// A step of the transducer that meets no error does to the open code block
/// and to the number of analyses used what a step of the scan does to the
/// open code block and to the number of examples found.
proof fn lemma_step_follows_scan(
    state: RenderState,
    seen: Scan,
    at: nat,
    event: DocEvent,
    rule: Seq<char>,
    outcomes: Seq<Vec<Diagnostic>>,
    has_fix_kind: bool,
)
    requires
        state.block == seen.block,
        state.analyzed == seen.found.len(),
        step(state, at, event, rule, outcomes, has_fix_kind) is Ok,
    ensures
        step(state, at, event, rule, outcomes, has_fix_kind)->Ok_0.block == scan_step(
            seen,
            event,
        ).block,
        step(state, at, event, rule, outcomes, has_fix_kind)->Ok_0.analyzed == scan_step(
            seen,
            event,
        ).found.len(),
{
    match event {
        DocEvent::Start(tag) => {
            let next = start_step(state, at, tag);
            match tag {
                DocTag::CodeBlock(info) => {},
                DocTag::Link(kind, destination, title) => {},
                DocTag::Item => {},
                DocTag::List(first) => {},
                DocTag::Heading(level) => {},
                _ => {},
            }
        },
        DocEvent::End(tag) => {
            let next = end_step(state, at, tag, rule, outcomes, has_fix_kind);
            match tag {
                DocTagEnd::CodeBlock => {
                    assert(next == close_block_step(state, at, rule, outcomes, has_fix_kind));
                },
                DocTagEnd::Link => {
                    assert(next == close_link_step(state, at));
                },
                DocTagEnd::List => {},
                DocTagEnd::Item => {},
                _ => {},
            }
        },
        _ => {},
    }
}

/// As long as it meets no error, the transducer has the same code block open
/// as the scan, and has used one analysis for each example that the scan
/// has found.
pub proof fn lemma_run_follows_scan(
    events: Seq<DocEvent>,
    upto: nat,
    rule: Seq<char>,
    outcomes: Seq<Vec<Diagnostic>>,
    has_fix_kind: bool,
)
    requires
        upto <= events.len(),
        run(events, upto, rule, outcomes, has_fix_kind) is Ok,
    ensures
        run(events, upto, rule, outcomes, has_fix_kind)->Ok_0.block == scan(events, upto).block,
        run(events, upto, rule, outcomes, has_fix_kind)->Ok_0.analyzed == scan(
            events,
            upto,
        ).found.len(),
    decreases upto,
{
    if upto > 0 {
        let before = (upto - 1) as nat;
        lemma_run_follows_scan(events, before, rule, outcomes, has_fix_kind);
        lemma_step_follows_scan(
            run(events, before, rule, outcomes, has_fix_kind)->Ok_0,
            scan(events, before),
            before,
            events[before as int],
            rule,
            outcomes,
            has_fix_kind,
        );
    }
}

/// A step of the transducer that meets no error keeps this true: each
/// example found so far gave as many diagnostics as its directive announces.
proof fn lemma_step_keeps_counts(
    state: RenderState,
    seen: Scan,
    at: nat,
    event: DocEvent,
    rule: Seq<char>,
    outcomes: Seq<Vec<Diagnostic>>,
    has_fix_kind: bool,
)
    requires
        state.block == seen.block,
        state.analyzed == seen.found.len(),
        state.analyzed <= outcomes.len(),
        step(state, at, event, rule, outcomes, has_fix_kind) is Ok,
        forall|k: int|
            0 <= k < seen.found.len() ==> (#[trigger] outcomes[k])@.len() == expected_count(
                seen.found[k].0,
            ),
    ensures
        scan_step(seen, event).found.len() <= outcomes.len(),
        forall|k: int|
            0 <= k < scan_step(seen, event).found.len() ==> (#[trigger] outcomes[k])@.len()
                == expected_count(scan_step(seen, event).found[k].0),
{
    match event {
        DocEvent::End(tag) => {
            let next = end_step(state, at, tag, rule, outcomes, has_fix_kind);
            match tag {
                DocTagEnd::CodeBlock => {
                    assert(next == close_block_step(state, at, rule, outcomes, has_fix_kind));
                },
                _ => {},
            }
        },
        _ => {},
    }
}

/// As long as the transducer meets no error, each example found so far
/// gave as many diagnostics as its directive announces.
proof fn lemma_run_keeps_counts(
    events: Seq<DocEvent>,
    upto: nat,
    rule: Seq<char>,
    outcomes: Seq<Vec<Diagnostic>>,
    has_fix_kind: bool,
)
    requires
        upto <= events.len(),
        run(events, upto, rule, outcomes, has_fix_kind) is Ok,
    ensures
        scan(events, upto).found.len() <= outcomes.len(),
        forall|k: int|
            0 <= k < scan(events, upto).found.len() ==> (#[trigger] outcomes[k])@.len()
                == expected_count(scan(events, upto).found[k].0),
    decreases upto,
{
    if upto > 0 {
        let before = (upto - 1) as nat;
        lemma_run_keeps_counts(events, before, rule, outcomes, has_fix_kind);
        lemma_run_follows_scan(events, before, rule, outcomes, has_fix_kind);
        lemma_step_keeps_counts(
            run(events, before, rule, outcomes, has_fix_kind)->Ok_0,
            scan(events, before),
            before,
            events[before as int],
            rule,
            outcomes,
            has_fix_kind,
        );
    }
}

/// In a documentation that renders, every example that is analyzed gave
/// the number of diagnostics that its directive announces: exactly one
/// where it expects a diagnostic, none where it does not. And the analyses
/// handed in are those of the examples, one for each.
pub proof fn law_rendered_examples_meet_their_directives(
    events: Seq<DocEvent>,
    rule: Seq<char>,
    outcomes: Seq<Vec<Diagnostic>>,
    has_fix_kind: bool,
)
    requires
        rendering(events, rule, outcomes, has_fix_kind) is Ok,
    ensures
        outcomes.len() == examples(events).len(),
        forall|k: int|
            0 <= k < outcomes.len() ==> (#[trigger] outcomes[k])@.len() == expected_count(
                examples(events)[k].0,
            ),
{
    lemma_run_keeps_counts(events, events.len(), rule, outcomes, has_fix_kind);
    lemma_run_follows_scan(events, events.len(), rule, outcomes, has_fix_kind);
}

/// With one analysis for each example of the stream, no analysis is missing
/// and none is left over.
pub proof fn law_analyses_fit(
    events: Seq<DocEvent>,
    rule: Seq<char>,
    outcomes: Seq<Vec<Diagnostic>>,
    has_fix_kind: bool,
)
    requires
        outcomes.len() == examples(events).len(),
    ensures
        forall|at: nat|
            rendering(events, rule, outcomes, has_fix_kind) != Err::<Seq<char>, DocErrorView>(
                DocErrorView::Protocol { error: ProtocolError::MissingAnalysis, at },
            ),
        forall|at: nat|
            rendering(events, rule, outcomes, has_fix_kind) != Err::<Seq<char>, DocErrorView>(
                DocErrorView::Protocol { error: ProtocolError::ExtraAnalysis, at },
            ),
{
    lemma_no_missing_analysis(events, events.len(), rule, outcomes, has_fix_kind);
    if run(events, events.len(), rule, outcomes, has_fix_kind) is Ok {
        lemma_run_follows_scan(events, events.len(), rule, outcomes, has_fix_kind);
    }
}

/// With one analysis for each example of the stream, the run never misses
/// one, and never reports one left over.
proof fn lemma_no_missing_analysis(
    events: Seq<DocEvent>,
    upto: nat,
    rule: Seq<char>,
    outcomes: Seq<Vec<Diagnostic>>,
    has_fix_kind: bool,
)
    requires
        upto <= events.len(),
        outcomes.len() == examples(events).len(),
    ensures
        forall|at: nat|
            run(events, upto, rule, outcomes, has_fix_kind) != Err::<RenderState, DocErrorView>(
                DocErrorView::Protocol { error: ProtocolError::MissingAnalysis, at },
            ),
        forall|at: nat|
            run(events, upto, rule, outcomes, has_fix_kind) != Err::<RenderState, DocErrorView>(
                DocErrorView::Protocol { error: ProtocolError::ExtraAnalysis, at },
            ),
    decreases upto,
{
    if upto > 0 {
        let before = (upto - 1) as nat;
        lemma_no_missing_analysis(events, before, rule, outcomes, has_fix_kind);
        if run(events, before, rule, outcomes, has_fix_kind) is Ok {
            lemma_run_follows_scan(events, before, rule, outcomes, has_fix_kind);
            lemma_scan_grows(events, upto, events.len());
        }
    }
}

/// Collects the examples of a stream that are to be analyzed, in their
/// order. The analyses handed to `render_documentation` answer them one by
/// one.
pub fn collect_examples(events: &Vec<DocEvent>) -> (found: Vec<Example>)
    ensures
        found@.len() == examples(events@).len(),
        forall|k: int| 0 <= k < found@.len() ==> (#[trigger] found@[k])@ == examples(events@)[k],
{
    let mut found: Vec<Example> = Vec::new();
    let mut open = false;
    let mut test = CodeBlockTest {
        block_type: BlockType::Json,
        expect_diagnostic: false,
        ignore: false,
    };
    let mut code = String::new();
    let mut i: usize = 0;
    while i < events.len()
        invariant
            i <= events.len(),
            scan(events@, i as nat).block == (if open {
                Some((test@, code@))
            } else {
                None
            }),
            found@.len() == scan(events@, i as nat).found.len(),
            forall|k: int|
                0 <= k < found@.len() ==> (#[trigger] found@[k])@ == scan(
                    events@,
                    i as nat,
                ).found[k],
        decreases events.len() - i,
    {
        match &events[i] {
            DocEvent::Start(DocTag::CodeBlock(info)) => {
                test = CodeBlockTest::from_str(info.as_str());
                code = String::new();
                open = true;
            },
            DocEvent::Text(text) => {
                if open {
                    code.append(text.as_str());
                }
            },
            DocEvent::End(DocTagEnd::CodeBlock) => {
                if open {
                    open = false;
                    if needs_analysis(&test) {
                        found.push(Example { test, code });
                        test = CodeBlockTest {
                            block_type: BlockType::Json,
                            expect_diagnostic: false,
                            ignore: false,
                        };
                        code = String::new();
                    }
                }
            },
            _ => {},
        }
        i = i + 1;
    }
    found
}

/// The examples of a markdown text that are to be analyzed, in their order.
pub fn documented_examples(docs: &str) -> (found: Vec<Example>)
    ensures
        found@.len() == examples(markdown_events(docs@)).len(),
        forall|k: int|
            0 <= k < found@.len() ==> (#[trigger] found@[k])@ == examples(
                markdown_events(docs@),
            )[k],
{
    let events = parse_markdown(docs);
    collect_examples(&events)
}

} // verus!
