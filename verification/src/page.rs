//! The page of a rule: the front matter that its metadata gives, the
//! rendered documentation, and the links behind it.

use crate::event::{markdown_events, DocEvent};
use crate::lint::Diagnostic;
use crate::text::str_eq;
use crate::transducer::{bounds_first_paragraph, parse_documentation, rendering, DocError};
use biome_string_case::Case;
use vstd::prelude::*;

verus! {

/// The kind of fix that a rule declares.
#[derive(Clone, Copy, Debug, PartialEq, Eq, Structural)]
pub enum FixKind {
    /// A fix that keeps what the program means.
    Safe,
    /// A fix that may change what the program means.
    Unsafe,
}

/// How a rule relates to the rules of other tools that it names as its sources.
#[derive(Clone, Copy, Debug, PartialEq, Eq, Structural)]
pub enum RuleSourceKind {
    /// The rule does what the other rule does.
    SameLogic,
    /// The rule takes after the other rule.
    Inspired,
}

/// A rule of another tool that a rule names as its source.
#[derive(Debug, PartialEq, Eq)]
pub struct RuleSource {
    /// The name of that rule, with the name of its tool before it.
    pub rule_name: String,
    /// Where that rule is documented.
    pub url: String,
}

/// What the registry knows of a rule.
#[derive(Debug, PartialEq, Eq)]
pub struct RuleMetadata {
    pub name: String,
    /// The version that brought the rule; `next` for one not yet released.
    pub version: String,
    pub recommended: bool,
    /// The kind of fix that the rule declares, if it declares one.
    pub fix_kind: Option<FixKind>,
    /// The language to which the rule applies: `js`, `jsx`, `ts` or `json`.
    pub language: String,
    pub sources: Vec<RuleSource>,
    pub source_kind: RuleSourceKind,
    /// The documentation of the rule, a markdown text.
    pub docs: String,
}

/// What is handed in to have the page of a rule made.
pub struct GenRule<'a> {
    pub group: &'a str,
    pub rule: &'a str,
    pub is_recommended: bool,
    pub meta: &'a RuleMetadata,
    /// For each example of the documentation that is analyzed, in their
    /// order, the diagnostics that its snippet gave.
    pub outcomes: &'a Vec<Vec<Diagnostic>>,
}

/// The page of a rule.
#[derive(Debug, PartialEq, Eq)]
pub struct RulePage {
    /// The name of the file that holds the page.
    pub file_name: String,
    /// The page.
    pub content: String,
    /// The events that the first paragraph of the documentation holds.
    pub summary: Vec<DocEvent>,
    /// The number of the first event of the summary among the events of the
    /// documentation.
    pub summary_from: usize,
    /// The number of the event behind the last one of the summary.
    pub summary_to: usize,
}

/// What biome_string_case's `Case::Kebab` makes of a name: its words in
/// lower case with a hyphen between them.
pub uninterp spec fn kebab(name: Seq<char>) -> Seq<char>;

/// Calls `biome_string_case::Case::convert` on `Case::Kebab`. The result is
/// a function of the name alone: the contract gives it its name.
#[verifier::external_body]
pub(crate) fn kebab_case(name: &str) -> (dashed: String)
    ensures
        dashed@ == kebab(name@),
{
    Case::Kebab.convert(name)
}

/// What the title says of the version of a rule.
pub open spec fn title_version(version: Seq<char>) -> Seq<char> {
    if version == "next"@ {
        "(not released)"@
    } else {
        "(since v"@ + version + ")"@
    }
}

/// The head of a page: its title and the category of the diagnostics of
/// the rule.
pub open spec fn page_head(group: Seq<char>, rule: Seq<char>, version: Seq<char>) -> Seq<char> {
    "---\ntitle: "@ + rule + " "@ + title_version(version) + "\n---\n\n**Diagnostic Category: `lint/"@
        + group + "/"@ + rule + "`**\n\n"@
}

/// What a note says of the fix of a rule.
pub open spec fn fix_note(fix_kind: Option<FixKind>) -> Seq<char> {
    match fix_kind {
        Some(FixKind::Safe) => "- This rule has a **safe** fix.\n"@,
        Some(FixKind::Unsafe) => "- This rule has an **unsafe** fix.\n"@,
        None => Seq::empty(),
    }
}

/// What a note says of the language of a rule; nothing of a language that
/// is none of the four.
pub open spec fn language_note(language: Seq<char>) -> Seq<char> {
    if language == "js"@ {
        "- This rule is applied to **JavaScript and super languages** files.\n"@
    } else if language == "jsx"@ {
        "- This rule is applied to **JSX and TSX** files.\n"@
    } else if language == "ts"@ {
        "- This rule is applied to **TypeScript and TSX** files.\n"@
    } else if language == "json"@ {
        "- This rule is applied to **JSON** files.\n"@
    } else {
        Seq::empty()
    }
}

/// What a note says of a rule that is recommended.
pub open spec fn recommended_note(is_recommended: bool) -> Seq<char> {
    if is_recommended {
        "- This rule is recommended by Biome. A diagnostic error will appear when linting your code.\n"@
    } else {
        Seq::empty()
    }
}

/// The note of a page: a rule that is recommended or declares a fix has one.
pub open spec fn page_note(
    is_recommended: bool,
    fix_kind: Option<FixKind>,
    language: Seq<char>,
) -> Seq<char> {
    if is_recommended || fix_kind is Some {
        ":::note\n"@ + recommended_note(is_recommended) + fix_note(fix_kind) + language_note(
            language,
        ) + ":::\n\n"@
    } else {
        Seq::empty()
    }
}

/// The caution of a page: a rule of the nursery has one.
pub open spec fn page_caution(group: Seq<char>) -> Seq<char> {
    if group == "nursery"@ {
        ":::caution\nThis rule is part of the [nursery](/linter/rules/#nursery) group.\n:::\n\n"@
    } else {
        Seq::empty()
    }
}

/// What stands before the link to a source.
pub open spec fn source_lead(kind: RuleSourceKind) -> Seq<char> {
    match kind {
        RuleSourceKind::Inspired => "- Inspired from: "@,
        RuleSourceKind::SameLogic => "- Same as: "@,
    }
}

/// The line of one source.
pub open spec fn source_line(kind: RuleSourceKind, source: RuleSource) -> Seq<char> {
    source_lead(kind) + "<a href=\""@ + source.url@ + "\" target=\"_blank\"><code>"@
        + source.rule_name@ + "</code></a>\n"@
}

/// The lines of some sources, in their order.
pub open spec fn source_lines(kind: RuleSourceKind, sources: Seq<RuleSource>) -> Seq<char>
    decreases sources.len(),
{
    if sources.len() == 0 {
        Seq::empty()
    } else {
        source_lines(kind, sources.drop_last()) + source_line(kind, sources.last())
    }
}

/// The sources of a page: a rule that names sources lists them.
pub open spec fn page_sources(kind: RuleSourceKind, sources: Seq<RuleSource>) -> Seq<char> {
    if sources.len() == 0 {
        Seq::empty()
    } else {
        "Sources: \n"@ + source_lines(kind, sources) + "\n"@
    }
}

/// What ends every page.
pub open spec fn page_foot() -> Seq<char> {
    "## Related links\n\n- [Disable a rule](/linter/#disable-a-lint-rule)\n- [Rule options](/linter/#rule-options)\n"@
}

/// What stands on a page before the documentation of the rule.
pub open spec fn page_front(
    group: Seq<char>,
    rule: Seq<char>,
    is_recommended: bool,
    meta: RuleMetadata,
) -> Seq<char> {
    page_head(group, rule, meta.version@) + page_note(is_recommended, meta.fix_kind, meta.language@)
        + page_caution(group) + page_sources(meta.source_kind, meta.sources@)
}

/// The name of the file of a rule.
pub open spec fn page_file_name(rule: Seq<char>) -> Seq<char> {
    kebab(rule) + ".md"@
}

/// The page of a rule around its rendered documentation.
pub open spec fn page_content(
    group: Seq<char>,
    rule: Seq<char>,
    is_recommended: bool,
    meta: RuleMetadata,
    body: Seq<char>,
) -> Seq<char> {
    page_front(group, rule, is_recommended, meta) + body + page_foot()
}

fn push_head(content: &mut String, group: &str, rule: &str, version: &str)
    ensures
        final(content)@ == old(content)@ + page_head(group@, rule@, version@),
{
    content.append("---\ntitle: ");
    content.append(rule);
    content.append(" ");
    if str_eq(version, "next") {
        content.append("(not released)");
    } else {
        content.append("(since v");
        content.append(version);
        content.append(")");
    }
    content.append("\n---\n\n**Diagnostic Category: `lint/");
    content.append(group);
    content.append("/");
    content.append(rule);
    content.append("`**\n\n");
    proof {
        assert(final(content)@ =~= old(content)@ + page_head(group@, rule@, version@));
    }
}

fn push_language_note(content: &mut String, language: &str)
    ensures
        final(content)@ == old(content)@ + language_note(language@),
{
    if str_eq(language, "js") {
        content.append("- This rule is applied to **JavaScript and super languages** files.\n");
    } else if str_eq(language, "jsx") {
        content.append("- This rule is applied to **JSX and TSX** files.\n");
    } else if str_eq(language, "ts") {
        content.append("- This rule is applied to **TypeScript and TSX** files.\n");
    } else if str_eq(language, "json") {
        content.append("- This rule is applied to **JSON** files.\n");
    } else {
        proof {
            assert(old(content)@ + Seq::<char>::empty() =~= old(content)@);
        }
    }
}

fn push_note(
    content: &mut String,
    is_recommended: bool,
    fix_kind: Option<FixKind>,
    language: &str,
)
    ensures
        final(content)@ == old(content)@ + page_note(is_recommended, fix_kind, language@),
{
    if is_recommended || fix_kind.is_some() {
        content.append(":::note\n");
        if is_recommended {
            content.append(
                "- This rule is recommended by Biome. A diagnostic error will appear when linting your code.\n",
            );
        }
        match fix_kind {
            Some(FixKind::Safe) => {
                content.append("- This rule has a **safe** fix.\n");
            },
            Some(FixKind::Unsafe) => {
                content.append("- This rule has an **unsafe** fix.\n");
            },
            None => {},
        }
        push_language_note(content, language);
        content.append(":::\n\n");
        proof {
            assert(final(content)@ =~= old(content)@ + page_note(
                is_recommended,
                fix_kind,
                language@,
            ));
        }
    } else {
        proof {
            assert(old(content)@ + Seq::<char>::empty() =~= old(content)@);
        }
    }
}

fn push_caution(content: &mut String, group: &str)
    ensures
        final(content)@ == old(content)@ + page_caution(group@),
{
    if str_eq(group, "nursery") {
        content.append(
            ":::caution\nThis rule is part of the [nursery](/linter/rules/#nursery) group.\n:::\n\n",
        );
    } else {
        proof {
            assert(old(content)@ + Seq::<char>::empty() =~= old(content)@);
        }
    }
}

fn push_sources(content: &mut String, kind: RuleSourceKind, sources: &Vec<RuleSource>)
    ensures
        final(content)@ == old(content)@ + page_sources(kind, sources@),
{
    if sources.len() == 0 {
        proof {
            assert(old(content)@ + Seq::<char>::empty() =~= old(content)@);
        }
        return ;
    }
    content.append("Sources: \n");
    let mut i: usize = 0;
    proof {
        assert(sources@.take(0) =~= Seq::<RuleSource>::empty());
        assert(content@ =~= old(content)@ + ("Sources: \n"@ + source_lines(kind, sources@.take(0))));
    }
    while i < sources.len()
        invariant
            i <= sources.len(),
            content@ == old(content)@ + ("Sources: \n"@ + source_lines(
                kind,
                sources@.take(i as int),
            )),
        decreases sources.len() - i,
    {
        let source = &sources[i];
        let ghost before = content@;
        match kind {
            RuleSourceKind::Inspired => {
                content.append("- Inspired from: ");
            },
            RuleSourceKind::SameLogic => {
                content.append("- Same as: ");
            },
        }
        content.append("<a href=\"");
        content.append(source.url.as_str());
        content.append("\" target=\"_blank\"><code>");
        content.append(source.rule_name.as_str());
        content.append("</code></a>\n");
        proof {
            let next = sources@.take(i + 1);
            assert(next.drop_last() =~= sources@.take(i as int));
            assert(next.last() == *source);
            assert(content@ =~= before + source_line(kind, *source));
            assert(content@ =~= old(content)@ + ("Sources: \n"@ + source_lines(kind, next)));
        }
        i = i + 1;
    }
    content.append("\n");
    proof {
        assert(sources@.take(sources.len() as int) =~= sources@);
        assert(final(content)@ =~= old(content)@ + page_sources(kind, sources@));
    }
}

/// Whether a result is the page of a rule, or its error: the page is made
/// where the documentation renders, and fails with the error of the
/// documentation where it does not.
pub open spec fn page_made(result: Result<RulePage, DocError>, payload: GenRule) -> bool {
    let events = markdown_events(payload.meta.docs@);
    let has_fix_kind = payload.meta.fix_kind is Some;
    match rendering(events, payload.rule@, payload.outcomes@, has_fix_kind) {
        Ok(body) => {
            &&& result is Ok
            &&& result->Ok_0.file_name@ == page_file_name(payload.rule@)
            &&& result->Ok_0.content@ == page_content(
                payload.group@,
                payload.rule@,
                payload.is_recommended,
                *payload.meta,
                body,
            )
            &&& bounds_first_paragraph(
                events,
                result->Ok_0.summary_from as int,
                result->Ok_0.summary_to as int,
            )
            &&& result->Ok_0.summary@ == events.subrange(
                result->Ok_0.summary_from as int,
                result->Ok_0.summary_to as int,
            )
        },
        Err(error) => result is Err && result->Err_0@ == error,
    }
}

/// Makes the page of a rule.
pub fn generate_rule(payload: GenRule) -> (result: Result<RulePage, DocError>)
    ensures
        page_made(result, payload),
{
    let meta = payload.meta;
    let mut content = String::new();
    push_head(&mut content, payload.group, payload.rule, meta.version.as_str());
    push_note(&mut content, payload.is_recommended, meta.fix_kind, meta.language.as_str());
    push_caution(&mut content, payload.group);
    push_sources(&mut content, meta.source_kind, &meta.sources);
    let has_fix_kind = meta.fix_kind.is_some();
    let documentation = parse_documentation(
        payload.rule,
        meta.docs.as_str(),
        payload.outcomes,
        has_fix_kind,
    );
    match documentation {
        Err(error) => Err(error),
        Ok(documentation) => {
            let ghost body = documentation.content@;
            content.append(documentation.content.as_str());
            content.append(
                "## Related links\n\n- [Disable a rule](/linter/#disable-a-lint-rule)\n- [Rule options](/linter/#rule-options)\n",
            );
            let mut file_name = kebab_case(payload.rule);
            file_name.append(".md");
            proof {
                assert(content@ =~= page_content(
                    payload.group@,
                    payload.rule@,
                    payload.is_recommended,
                    *meta,
                    body,
                ));
            }
            Ok(
                RulePage {
                    file_name,
                    content,
                    summary: documentation.summary,
                    summary_from: documentation.summary_from,
                    summary_to: documentation.summary_to,
                },
            )
        },
    }
}

} // verus!
