//! The pages of all rules: the rules of a group one after the other, with
//! the table of the group, and the groups one after the other, with the
//! index and the lists that go with it. A rule whose example is wrong is
//! set aside with its error, and the run goes on with the next rule.

use crate::event::{markdown_events, markdown_html, write_events_html, DocEvent};
use crate::group::{
    extract_group_metadata, generate_reference, group_description, group_name, is_known_group,
    reference_line,
};
use crate::lint::{LintError, LintErrorView};
use crate::markup::{markup_html, write_markup_to_string};
use crate::page::{
    generate_rule, kebab, kebab_case, page_content, page_file_name, FixKind, GenRule, RuleMetadata,
    RulePage,
};
use crate::registry::{Registry, RuleEntry, RuleGroup, RuleGroupView};
use crate::text::{decimal, push_decimal, str_eq};
use crate::transducer::{
    bounds_first_paragraph, lemma_first_paragraph_unique, rendering, DocError, DocErrorView,
    ProtocolError,
};
use vstd::prelude::*;

verus! {

/// A rule whose example is wrong, with what is wrong with it.
#[derive(Debug, PartialEq, Eq)]
pub struct RuleFailure {
    pub rule: String,
    pub error: LintError,
}

impl View for RuleFailure {
    type V = (Seq<char>, LintErrorView);

    open spec fn view(&self) -> (Seq<char>, LintErrorView) {
        (self.rule@, self.error@)
    }
}

/// The file of a page, as contracts speak of it: its name and what it holds.
pub struct PageView {
    pub file_name: Seq<char>,
    pub content: Seq<char>,
}

impl View for RulePage {
    type V = PageView;

    open spec fn view(&self) -> PageView {
        PageView { file_name: self.file_name@, content: self.content@ }
    }
}

/// Why a run ends at once: the documentation of a rule broke the protocol
/// of the transducer.
#[derive(Debug, PartialEq, Eq)]
pub struct RunError {
    /// The rule whose documentation it was.
    pub rule: String,
    /// What was broken.
    pub error: ProtocolError,
    /// The number of the event at which it was broken.
    pub at: usize,
}

/// An error that ends a run, as contracts speak of it.
pub struct RunErrorView {
    pub rule: Seq<char>,
    pub error: ProtocolError,
    pub at: nat,
}

impl View for RunError {
    type V = RunErrorView;

    open spec fn view(&self) -> RunErrorView {
        RunErrorView { rule: self.rule@, error: self.error, at: self.at as nat }
    }
}

/// What a group gives: what it adds to the index and to the list of the
/// recommended rules, the pages of its rules, and the rules set aside.
pub struct GroupView {
    pub table: Seq<char>,
    pub recommended: Seq<char>,
    pub pages: Seq<PageView>,
    pub errors: Seq<(Seq<char>, LintErrorView)>,
}

/// What a group gives.
#[derive(Debug, PartialEq, Eq)]
pub struct GroupPages {
    /// The section of the group in the index, with the table of its rules.
    pub table: String,
    /// The entries of its recommended rules in the list of those.
    pub recommended: String,
    /// The pages of its rules, in the order of the rules.
    pub pages: Vec<RulePage>,
    /// Its rules whose example is wrong, in the order of the rules.
    pub errors: Vec<RuleFailure>,
}

impl View for GroupPages {
    type V = GroupView;

    open spec fn view(&self) -> GroupView {
        GroupView {
            table: self.table@,
            recommended: self.recommended@,
            pages: self.pages@.map_values(|page: RulePage| page@),
            errors: self.errors@.map_values(|failure: RuleFailure| failure@),
        }
    }
}

/// Whether a rule is left out because it is not released yet.
pub open spec fn is_unreleased(entry: RuleEntry) -> bool {
    entry.meta.version@ == "next"@
}

/// Whether a rule counts as recommended: no rule of the nursery does.
pub open spec fn counts_as_recommended(group: Seq<char>, entry: RuleEntry) -> bool {
    group != "nursery"@ && entry.meta.recommended
}

/// The rendered documentation of a rule, or its error.
pub open spec fn rule_rendering(entry: RuleEntry) -> Result<Seq<char>, DocErrorView> {
    rendering(
        markdown_events(entry.meta.docs@),
        entry.meta.name@,
        entry.outcomes@,
        entry.meta.fix_kind is Some,
    )
}

/// The bounds of the first paragraph of a stream of events.
pub open spec fn first_paragraph(events: Seq<DocEvent>) -> (int, int) {
    choose|bounds: (int, int)| bounds_first_paragraph(events, bounds.0, bounds.1)
}

/// The summary of a rule as HTML: its first paragraph.
pub open spec fn summary_html(entry: RuleEntry) -> Seq<char> {
    let bounds = first_paragraph(markdown_events(entry.meta.docs@));
    markdown_html(entry.meta.docs@, bounds.0 as nat, bounds.1 as nat)
}

/// The entry of a rule in the list of the recommended rules.
pub open spec fn recommended_entry(rule: Seq<char>) -> Seq<char> {
    "\t<li><a href='/linter/rules/"@ + kebab(rule) + "'>"@ + rule + "</a></li>\n"@
}

/// The icon of a rule that is recommended.
pub open spec fn recommended_icon(is_recommended: bool) -> Seq<char> {
    if is_recommended {
        "<span class='inline-icon'><Icon name=\"approve-check-circle\" size=\"1.2rem\" label=\"This rule is recommended\" /></span>"@
    } else {
        Seq::empty()
    }
}

/// The icon of the fix of a rule.
pub open spec fn fix_icon(fix_kind: Option<FixKind>) -> Seq<char> {
    match fix_kind {
        Some(FixKind::Safe) => "<span class='inline-icon'><Icon name=\"seti:config\" label=\"The rule has a safe fix\" size=\"1.2rem\"  /></span>"@,
        Some(FixKind::Unsafe) => "<span class='inline-icon'><Icon name=\"warning\" label=\"The rule has an unsafe fix\" size=\"1.2rem\" /></span>"@,
        None => Seq::empty(),
    }
}

/// The icon of the language of a rule; none for a language that is none of
/// the four.
pub open spec fn language_icon(language: Seq<char>) -> Seq<char> {
    if language == "js"@ {
        "<span class='inline-icon'><Icon name=\"seti:javascript\" label=\"JavaScript and super languages rule.\" size=\"1.2rem\"/></span>"@
    } else if language == "jsx"@ {
        "<span class='inline-icon'><Icon name=\"seti:javascript\" label=\"JSX rule\" size=\"1.2rem\"/></span>"@
    } else if language == "ts"@ {
        "<span class='inline-icon'><Icon name=\"seti:typescript\" label=\"TypeScript rule\" size=\"1.2rem\"/></span>"@
    } else if language == "json"@ {
        "<span class='inline-icon'><Icon name=\"seti:json\" label=\"JSON rule\" size=\"1.2rem\"/></span>"@
    } else {
        Seq::empty()
    }
}

/// The icons of a rule in the table of its group.
pub open spec fn properties(is_recommended: bool, meta: RuleMetadata) -> Seq<char> {
    recommended_icon(is_recommended) + fix_icon(meta.fix_kind) + language_icon(meta.language@)
}

/// The row of a rule in the table of its group, given its summary as HTML.
pub open spec fn table_row(
    rule: Seq<char>,
    summary: Seq<char>,
    icons: Seq<char>,
) -> Seq<char> {
    "| ["@ + rule + "](/linter/rules/"@ + kebab(rule) + ") | "@ + summary + " | "@ + icons
        + " |\n"@
}

/// The head of the section of a group in the index.
pub open spec fn table_head(group: Seq<char>) -> Seq<char> {
    "\n## "@ + group_name(group) + "\n\n"@ + markup_html(group_description(group))
        + "\n| Rule name | Description | Properties |\n| --- | --- | --- |\n"@
}

/// What one more rule makes of what its group gives: nothing where the rule
/// is not released; else its entry among the recommended rules where it
/// counts as one, and either its page and its row in the table or, where an
/// example is wrong, the rule set aside with its error. A breach of the
/// protocol ends the run.
pub open spec fn group_step(given: GroupView, group: Seq<char>, entry: RuleEntry) -> Result<
    GroupView,
    RunErrorView,
> {
    let rule = entry.meta.name@;
    let is_recommended = counts_as_recommended(group, entry);
    let recommended = if is_recommended {
        given.recommended + recommended_entry(rule)
    } else {
        given.recommended
    };
    if is_unreleased(entry) {
        Ok(given)
    } else {
        match rule_rendering(entry) {
            Ok(body) => Ok(
                GroupView {
                    table: given.table + table_row(
                        rule,
                        summary_html(entry),
                        properties(is_recommended, entry.meta),
                    ),
                    recommended,
                    pages: given.pages.push(
                        PageView {
                            file_name: page_file_name(rule),
                            content: page_content(group, rule, is_recommended, entry.meta, body),
                        },
                    ),
                    errors: given.errors,
                },
            ),
            Err(DocErrorView::Example(error)) => Ok(
                GroupView { recommended, errors: given.errors.push((rule, error)), ..given },
            ),
            Err(DocErrorView::Protocol { error, at }) => Err(RunErrorView { rule, error, at }),
        }
    }
}

/// What the first `upto` rules of a group give, or the error that ends the run.
pub open spec fn group_run(group: Seq<char>, rules: Seq<RuleEntry>, upto: nat) -> Result<
    GroupView,
    RunErrorView,
>
    decreases upto,
{
    if upto == 0 {
        Ok(
            GroupView {
                table: table_head(group),
                recommended: Seq::empty(),
                pages: Seq::empty(),
                errors: Seq::empty(),
            },
        )
    } else {
        match group_run(group, rules, (upto - 1) as nat) {
            Ok(given) => group_step(given, group, rules[upto - 1]),
            Err(error) => Err(error),
        }
    }
}

/// What a group gives, or the error that ends the run.
pub open spec fn group_pages(group: Seq<char>, rules: Seq<RuleEntry>) -> Result<
    GroupView,
    RunErrorView,
> {
    group_run(group, rules, rules.len())
}

/// An error that ends the run stays: the rules behind the one that has it
/// change nothing.
pub proof fn lemma_group_error_stays(
    group: Seq<char>,
    rules: Seq<RuleEntry>,
    failed: nat,
    upto: nat,
)
    requires
        failed <= upto,
        group_run(group, rules, failed) is Err,
    ensures
        group_run(group, rules, upto) == group_run(group, rules, failed),
    decreases upto,
{
    if failed < upto {
        lemma_group_error_stays(group, rules, failed, (upto - 1) as nat);
    }
}

/// Whether a rule gets a page: it is released and its documentation renders.
pub open spec fn is_documented(entry: RuleEntry) -> bool {
    !is_unreleased(entry) && rule_rendering(entry) is Ok
}

/// Whether a rule is set aside: it is released and one of its examples is wrong.
pub open spec fn is_broken(entry: RuleEntry) -> bool {
    !is_unreleased(entry) && rule_rendering(entry) is Err && rule_rendering(entry)->Err_0
        is Example
}

/// How many of the first `upto` rules get a page.
pub open spec fn documented_count(rules: Seq<RuleEntry>, upto: nat) -> nat
    decreases upto,
{
    if upto == 0 {
        0
    } else {
        documented_count(rules, (upto - 1) as nat) + if is_documented(rules[upto - 1]) {
            1nat
        } else {
            0nat
        }
    }
}

/// How many of the first `upto` rules are set aside.
pub open spec fn broken_count(rules: Seq<RuleEntry>, upto: nat) -> nat
    decreases upto,
{
    if upto == 0 {
        0
    } else {
        broken_count(rules, (upto - 1) as nat) + if is_broken(rules[upto - 1]) {
            1nat
        } else {
            0nat
        }
    }
}

/// A run through a group sets aside exactly the rules whose example is
/// wrong, one error for each, and makes the page of every other released
/// rule.
pub proof fn law_one_error_for_each_broken_rule(
    group: Seq<char>,
    rules: Seq<RuleEntry>,
    upto: nat,
)
    requires
        upto <= rules.len(),
        group_run(group, rules, upto) is Ok,
    ensures
        group_run(group, rules, upto)->Ok_0.errors.len() == broken_count(rules, upto),
        group_run(group, rules, upto)->Ok_0.pages.len() == documented_count(rules, upto),
    decreases upto,
{
    if upto > 0 {
        law_one_error_for_each_broken_rule(group, rules, (upto - 1) as nat);
    }
}

/// Whether a result is what a group is to give, or the error that is to end the run.
pub open spec fn group_result(
    result: Result<GroupPages, RunError>,
    expected: Result<GroupView, RunErrorView>,
) -> bool {
    match expected {
        Ok(given) => result is Ok && result->Ok_0@ == given,
        Err(error) => result is Err && result->Err_0@ == error,
    }
}

fn push_properties(row: &mut String, is_recommended: bool, meta: &RuleMetadata)
    ensures
        final(row)@ == old(row)@ + properties(is_recommended, *meta),
{
    if is_recommended {
        row.append(
            "<span class='inline-icon'><Icon name=\"approve-check-circle\" size=\"1.2rem\" label=\"This rule is recommended\" /></span>",
        );
    }
    match meta.fix_kind {
        Some(FixKind::Safe) => {
            row.append(
                "<span class='inline-icon'><Icon name=\"seti:config\" label=\"The rule has a safe fix\" size=\"1.2rem\"  /></span>",
            );
        },
        Some(FixKind::Unsafe) => {
            row.append(
                "<span class='inline-icon'><Icon name=\"warning\" label=\"The rule has an unsafe fix\" size=\"1.2rem\" /></span>",
            );
        },
        None => {},
    }
    let language = meta.language.as_str();
    if str_eq(language, "js") {
        row.append(
            "<span class='inline-icon'><Icon name=\"seti:javascript\" label=\"JavaScript and super languages rule.\" size=\"1.2rem\"/></span>",
        );
    } else if str_eq(language, "jsx") {
        row.append(
            "<span class='inline-icon'><Icon name=\"seti:javascript\" label=\"JSX rule\" size=\"1.2rem\"/></span>",
        );
    } else if str_eq(language, "ts") {
        row.append(
            "<span class='inline-icon'><Icon name=\"seti:typescript\" label=\"TypeScript rule\" size=\"1.2rem\"/></span>",
        );
    } else if str_eq(language, "json") {
        row.append(
            "<span class='inline-icon'><Icon name=\"seti:json\" label=\"JSON rule\" size=\"1.2rem\"/></span>",
        );
    }
    proof {
        assert(final(row)@ =~= old(row)@ + properties(is_recommended, *meta));
    }
}

fn push_row(
    table: &mut String,
    rule: &str,
    dashed: &str,
    summary: &str,
    is_recommended: bool,
    meta: &RuleMetadata,
)
    requires
        dashed@ == kebab(rule@),
    ensures
        final(table)@ == old(table)@ + table_row(
            rule@,
            summary@,
            properties(is_recommended, *meta),
        ),
{
    table.append("| [");
    table.append(rule);
    table.append("](/linter/rules/");
    table.append(dashed);
    table.append(") | ");
    table.append(summary);
    table.append(" | ");
    push_properties(table, is_recommended, meta);
    table.append(" |\n");
    proof {
        assert(final(table)@ =~= old(table)@ + table_row(
            rule@,
            summary@,
            properties(is_recommended, *meta),
        ));
    }
}

fn push_table_head(table: &mut String, group: &str)
    requires
        is_known_group(group@),
    ensures
        final(table)@ == old(table)@ + table_head(group@),
{
    let (name, description) = extract_group_metadata(group);
    table.append("\n## ");
    table.append(name);
    table.append("\n\n");
    write_markup_to_string(table, &description);
    table.append("\n| Rule name | Description | Properties |\n| --- | --- | --- |\n");
    proof {
        assert(final(table)@ =~= old(table)@ + table_head(group@));
    }
}

impl GroupPages {
    /// Takes in one more rule of the group.
    fn add_rule(&mut self, group: &str, entry: &RuleEntry) -> (result: Result<(), RunError>)
        ensures
            match group_step(old(self)@, group@, *entry) {
                Ok(given) => result is Ok && final(self)@ == given,
                Err(error) => result is Err && result->Err_0@ == error,
            },
    {
        let meta = &entry.meta;
        let rule = meta.name.as_str();
        if str_eq(meta.version.as_str(), "next") {
            return Ok(());
        }
        let is_recommended = !str_eq(group, "nursery") && meta.recommended;
        let dashed = kebab_case(rule);
        let made = generate_rule(
            GenRule { group, rule, is_recommended, meta, outcomes: &entry.outcomes },
        );
        match made {
            Ok(page) => {
                if is_recommended {
                    self.push_recommended(rule, dashed.as_str());
                }
                let summary = write_events_html(
                    meta.docs.as_str(),
                    page.summary_from,
                    page.summary_to,
                );
                proof {
                    let events = markdown_events(meta.docs@);
                    let bounds = first_paragraph(events);
                    let found = (page.summary_from as int, page.summary_to as int);
                    assert(bounds_first_paragraph(events, found.0, found.1));
                    lemma_first_paragraph_unique(
                        events,
                        page.summary_from as int,
                        page.summary_to as int,
                        bounds.0,
                        bounds.1,
                    );
                }
                push_row(
                    &mut self.table,
                    rule,
                    dashed.as_str(),
                    summary.as_str(),
                    is_recommended,
                    meta,
                );
                proof {
                    let before = old(self).pages@.map_values(|page: RulePage| page@);
                    assert(self.pages@.push(page).map_values(|page: RulePage| page@)
                        =~= before.push(page@));
                }
                self.pages.push(page);
                Ok(())
            },
            Err(DocError::Example(error)) => {
                if is_recommended {
                    self.push_recommended(rule, dashed.as_str());
                }
                let failure = RuleFailure { rule: String::from_str(rule), error };
                proof {
                    let before = old(self).errors@.map_values(|failure: RuleFailure| failure@);
                    assert(self.errors@.push(failure).map_values(|failure: RuleFailure| failure@)
                        =~= before.push(failure@));
                }
                self.errors.push(failure);
                Ok(())
            },
            Err(DocError::Protocol { error, at }) => Err(
                RunError { rule: String::from_str(rule), error, at },
            ),
        }
    }

    fn push_recommended(&mut self, rule: &str, dashed: &str)
        requires
            dashed@ == kebab(rule@),
        ensures
            final(self).recommended@ == old(self).recommended@ + recommended_entry(rule@),
            final(self).table == old(self).table,
            final(self).pages == old(self).pages,
            final(self).errors == old(self).errors,
    {
        self.recommended.append("\t<li><a href='/linter/rules/");
        self.recommended.append(dashed);
        self.recommended.append("'>");
        self.recommended.append(rule);
        self.recommended.append("</a></li>\n");
        proof {
            assert(self.recommended@ =~= old(self).recommended@ + recommended_entry(rule@));
        }
    }
}

/// Makes the pages of the rules of a group, and the section of the group in
/// the index.
pub fn generate_group(group: &str, rules: &Vec<RuleEntry>) -> (result: Result<GroupPages, RunError>)
    requires
        is_known_group(group@),
    ensures
        group_result(result, group_pages(group@, rules@)),
{
    let mut table = String::new();
    push_table_head(&mut table, group);
    let mut given = GroupPages {
        table,
        recommended: String::new(),
        pages: Vec::new(),
        errors: Vec::new(),
    };
    proof {
        assert(given@.pages =~= Seq::<PageView>::empty());
        assert(given@.errors =~= Seq::<(Seq<char>, LintErrorView)>::empty());
        assert(given@.table =~= table_head(group@));
    }
    let mut i: usize = 0;
    while i < rules.len()
        invariant
            i <= rules.len(),
            group_run(group@, rules@, i as nat) == Ok::<GroupView, RunErrorView>(given@),
        decreases rules.len() - i,
    {
        match given.add_rule(group, &rules[i]) {
            Ok(()) => {},
            Err(error) => {
                proof {
                    lemma_group_error_stays(group@, rules@, (i + 1) as nat, rules@.len());
                }
                return Err(error);
            },
        }
        i = i + 1;
    }
    Ok(given)
}

/// What a run gives, as contracts speak of it.
pub struct SiteView {
    pub index: Seq<char>,
    pub reference: Seq<char>,
    pub recommended: Seq<char>,
    pub pages: Seq<PageView>,
    pub errors: Seq<(Seq<char>, LintErrorView)>,
}

/// What a run gives.
#[derive(Debug, PartialEq, Eq)]
pub struct GeneratedDocs {
    /// The pages of the rules, in the order in which they were made.
    pub pages: Vec<RulePage>,
    /// The rules whose example is wrong. Where there is one, the run has
    /// failed, though the pages of the other rules stand.
    pub errors: Vec<RuleFailure>,
    /// The index of the rules.
    pub index: String,
    /// The reference of the groups.
    pub reference: String,
    /// The number of rules, as a fragment of a page.
    pub number_of_rules: String,
    /// The list of the recommended rules, as a fragment of a page.
    pub recommended_rules: String,
}

/// The line that opens each fragment.
pub open spec fn fragment_head() -> Seq<char> {
    "<!-- this file is auto generated, use `cargo lintdoc` to update it -->\n"@
}

/// What opens the index: its front matter and the legend of the icons.
pub open spec fn index_head() -> Seq<char> {
    "---\ntitle: Rules\ndescription: List of available lint rules.\n---\n\n\nimport RecommendedRules from \"@/components/generated/RecommendedRules.astro\";\nimport { Icon } from \"@astrojs/starlight/components\";\n\nBelow the list of rules supported by Biome, divided by group. Here's a legend of the emojis:\n- The icon <span class='inline-icon'><Icon name=\"approve-check-circle\" label=\"This rule is recommended\" /></span> indicates that the rule is part of the recommended rules.\n- The icon <span class='inline-icon'><Icon name=\"seti:config\" label=\"The rule has a safe fix\" /></span> indicates that the rule provides a code action (fix) that is **safe** to apply.\n- The icon <span class='inline-icon'><Icon name=\"warning\" label=\"The rule has an unsafe fix\" /></span> indicates that the rule provides a code action (fix) that is **unsafe** to apply.\n- The icon <span class='inline-icon'><Icon name=\"seti:javascript\" label=\"JavaScript and super languages rule\" /></span> indicates that the rule is applied to JavaScript and super languages files.\n- The icon <span class='inline-icon'><Icon name=\"seti:typescript\" label=\"TypeScript rule\" /></span> indicates that the rule is applied to TypeScript and TSX files.\n- The icon <span class='inline-icon'><Icon name=\"seti:json\" label=\"JSON rule\" /></span> indicates that the rule is applied to JSON files.\n"@
}

/// What closes the index.
pub open spec fn index_foot() -> Seq<char> {
    "\n## Recommended rules\n\nThe recommended rules are:\n\n<RecommendedRules />\n"@
}

/// The run before the first group.
pub open spec fn site_start() -> SiteView {
    SiteView {
        index: index_head(),
        reference: fragment_head(),
        recommended: Seq::empty(),
        pages: Seq::empty(),
        errors: Seq::empty(),
    }
}

/// Whether a group is the nursery, which comes behind all others.
pub open spec fn is_nursery(group: RuleGroupView) -> bool {
    group.name == "nursery"@
}

/// What one group makes of a run in one of its two passes: the first pass
/// takes the groups other than the nursery, the second the nursery.
pub open spec fn site_step(site: SiteView, group: RuleGroupView, nursery_pass: bool) -> Result<
    SiteView,
    RunErrorView,
> {
    if is_nursery(group) != nursery_pass {
        Ok(site)
    } else {
        match group_pages(group.name, group.rules) {
            Ok(given) => Ok(
                SiteView {
                    index: site.index + given.table,
                    reference: site.reference + reference_line(group.name),
                    recommended: site.recommended + given.recommended,
                    pages: site.pages + given.pages,
                    errors: site.errors + given.errors,
                },
            ),
            Err(error) => Err(error),
        }
    }
}

/// A run after the first `upto` groups of one pass.
pub open spec fn site_pass(
    start: SiteView,
    groups: Seq<RuleGroupView>,
    upto: nat,
    nursery_pass: bool,
) -> Result<SiteView, RunErrorView>
    decreases upto,
{
    if upto == 0 {
        Ok(start)
    } else {
        match site_pass(start, groups, (upto - 1) as nat, nursery_pass) {
            Ok(site) => site_step(site, groups[upto - 1], nursery_pass),
            Err(error) => Err(error),
        }
    }
}

/// A run over all groups: those other than the nursery in their order, then
/// the nursery.
pub open spec fn site_run(groups: Seq<RuleGroupView>) -> Result<SiteView, RunErrorView> {
    match site_pass(site_start(), groups, groups.len(), false) {
        Ok(site) => site_pass(site, groups, groups.len(), true),
        Err(error) => Err(error),
    }
}

/// An error that ends the run stays through the rest of a pass.
pub proof fn lemma_site_error_stays(
    start: SiteView,
    groups: Seq<RuleGroupView>,
    failed: nat,
    upto: nat,
    nursery_pass: bool,
)
    requires
        failed <= upto,
        site_pass(start, groups, failed, nursery_pass) is Err,
    ensures
        site_pass(start, groups, upto, nursery_pass) == site_pass(
            start,
            groups,
            failed,
            nursery_pass,
        ),
    decreases upto,
{
    if failed < upto {
        lemma_site_error_stays(start, groups, failed, (upto - 1) as nat, nursery_pass);
    }
}

/// The list of the recommended rules around its entries.
pub open spec fn recommended_fragment(entries: Seq<char>) -> Seq<char> {
    fragment_head() + " <ul>\n"@ + entries + "\n</ul>"@
}

/// The number of rules as a fragment.
pub open spec fn number_fragment(number_of_rules: u16) -> Seq<char> {
    fragment_head() + decimal(number_of_rules as nat)
}

/// Whether a result is what `site_run` makes of some groups that hold
/// `number_of_rules` rules: the files of the run, or the error that ends it.
pub open spec fn docs_generated(
    result: Result<GeneratedDocs, RunError>,
    groups: Seq<RuleGroupView>,
    number_of_rules: u16,
) -> bool {
    match site_run(groups) {
        Ok(site) => {
            &&& result is Ok
            &&& result->Ok_0.index@ == site.index + index_foot()
            &&& result->Ok_0.reference@ == site.reference
            &&& result->Ok_0.recommended_rules@ == recommended_fragment(site.recommended)
            &&& result->Ok_0.number_of_rules@ == number_fragment(number_of_rules)
            &&& result->Ok_0.pages@.map_values(|page: RulePage| page@) == site.pages
            &&& result->Ok_0.errors@.map_values(|failure: RuleFailure| failure@) == site.errors
        },
        Err(error) => result is Err && result->Err_0@ == error,
    }
}

/// A run at work.
struct Site {
    index: String,
    reference: String,
    recommended: String,
    pages: Vec<RulePage>,
    errors: Vec<RuleFailure>,
}

impl View for Site {
    type V = SiteView;

    closed spec fn view(&self) -> SiteView {
        SiteView {
            index: self.index@,
            reference: self.reference@,
            recommended: self.recommended@,
            pages: self.pages@.map_values(|page: RulePage| page@),
            errors: self.errors@.map_values(|failure: RuleFailure| failure@),
        }
    }
}

impl Site {
    fn new() -> (site: Site)
        ensures
            site@ == site_start(),
    {
        let site = Site {
            index: String::from_str(
                "---\ntitle: Rules\ndescription: List of available lint rules.\n---\n\n\nimport RecommendedRules from \"@/components/generated/RecommendedRules.astro\";\nimport { Icon } from \"@astrojs/starlight/components\";\n\nBelow the list of rules supported by Biome, divided by group. Here's a legend of the emojis:\n- The icon <span class='inline-icon'><Icon name=\"approve-check-circle\" label=\"This rule is recommended\" /></span> indicates that the rule is part of the recommended rules.\n- The icon <span class='inline-icon'><Icon name=\"seti:config\" label=\"The rule has a safe fix\" /></span> indicates that the rule provides a code action (fix) that is **safe** to apply.\n- The icon <span class='inline-icon'><Icon name=\"warning\" label=\"The rule has an unsafe fix\" /></span> indicates that the rule provides a code action (fix) that is **unsafe** to apply.\n- The icon <span class='inline-icon'><Icon name=\"seti:javascript\" label=\"JavaScript and super languages rule\" /></span> indicates that the rule is applied to JavaScript and super languages files.\n- The icon <span class='inline-icon'><Icon name=\"seti:typescript\" label=\"TypeScript rule\" /></span> indicates that the rule is applied to TypeScript and TSX files.\n- The icon <span class='inline-icon'><Icon name=\"seti:json\" label=\"JSON rule\" /></span> indicates that the rule is applied to JSON files.\n",
            ),
            reference: String::from_str(
                "<!-- this file is auto generated, use `cargo lintdoc` to update it -->\n",
            ),
            recommended: String::new(),
            pages: Vec::new(),
            errors: Vec::new(),
        };
        proof {
            assert(site@.pages =~= Seq::<PageView>::empty());
            assert(site@.errors =~= Seq::<(Seq<char>, LintErrorView)>::empty());
        }
        site
    }

    /// Takes in one group in one of the two passes.
    fn add_group(&mut self, group: &RuleGroup, nursery_pass: bool) -> (result: Result<
        (),
        RunError,
    >)
        requires
            is_known_group(group.name@),
        ensures
            match site_step(old(self)@, group@, nursery_pass) {
                Ok(site) => result is Ok && final(self)@ == site,
                Err(error) => result is Err && result->Err_0@ == error,
            },
    {
        let name = group.name.as_str();
        if str_eq(name, "nursery") != nursery_pass {
            return Ok(());
        }
        match generate_group(name, &group.rules) {
            Err(error) => Err(error),
            Ok(given) => {
                let mut given = given;
                self.index.append(given.table.as_str());
                generate_reference(name, &mut self.reference);
                self.recommended.append(given.recommended.as_str());
                proof {
                    let pages = old(self).pages@.map_values(|page: RulePage| page@);
                    let more = given.pages@.map_values(|page: RulePage| page@);
                    assert((old(self).pages@ + given.pages@).map_values(|page: RulePage| page@)
                        =~= pages + more);
                    let errors = old(self).errors@.map_values(|failure: RuleFailure| failure@);
                    let others = given.errors@.map_values(|failure: RuleFailure| failure@);
                    assert((old(self).errors@ + given.errors@).map_values(
                        |failure: RuleFailure| failure@,
                    ) =~= errors + others);
                }
                self.pages.append(&mut given.pages);
                self.errors.append(&mut given.errors);
                Ok(())
            },
        }
    }

    /// Takes in the groups of one pass.
    fn add_groups(&mut self, groups: &Vec<RuleGroup>, nursery_pass: bool) -> (result: Result<
        (),
        RunError,
    >)
        requires
            forall|i: int| 0 <= i < groups@.len() ==> is_known_group((#[trigger] groups@[i]).name@),
        ensures
            match site_pass(
                old(self)@,
                groups@.map_values(|group: RuleGroup| group@),
                groups@.len(),
                nursery_pass,
            ) {
                Ok(site) => result is Ok && final(self)@ == site,
                Err(error) => result is Err && result->Err_0@ == error,
            },
    {
        let mut i: usize = 0;
        while i < groups.len()
            invariant
                i <= groups.len(),
                forall|i: int|
                    0 <= i < groups@.len() ==> is_known_group((#[trigger] groups@[i]).name@),
                site_pass(
                    old(self)@,
                    groups@.map_values(|group: RuleGroup| group@),
                    i as nat,
                    nursery_pass,
                ) == Ok::<SiteView, RunErrorView>(self@),
            decreases groups.len() - i,
        {
            match self.add_group(&groups[i], nursery_pass) {
                Ok(()) => {},
                Err(error) => {
                    proof {
                        lemma_site_error_stays(
                            old(self)@,
                            groups@.map_values(|group: RuleGroup| group@),
                            (i + 1) as nat,
                            groups@.len(),
                            nursery_pass,
                        );
                    }
                    return Err(error);
                },
            }
            i = i + 1;
        }
        Ok(())
    }
}

/// Makes the pages of all rules of a registry, the index, the reference of
/// the groups, and the two fragments. The groups other than the nursery come
/// first, in their order, then the nursery.
pub fn generate_rule_docs(registry: &Registry) -> (result: Result<GeneratedDocs, RunError>)
    requires
        registry.all_known(),
        registry.has_nursery(),
    ensures
        docs_generated(result, registry.groups(), registry.number_of_rules()),
{
    let groups = registry.rule_groups();
    let number_of_rules = registry.rule_count();
    proof {
        assert forall|i: int| 0 <= i < groups@.len() implies is_known_group(
            (#[trigger] groups@[i]).name@,
        ) by {
            assert(registry.groups()[i].name == groups@[i].name@);
        }
    }
    let mut site = Site::new();
    match site.add_groups(groups, false) {
        Ok(()) => {},
        Err(error) => {
            return Err(error);
        },
    }
    match site.add_groups(groups, true) {
        Ok(()) => {},
        Err(error) => {
            return Err(error);
        },
    }
    let mut index = site.index;
    index.append("\n## Recommended rules\n\nThe recommended rules are:\n\n<RecommendedRules />\n");
    let mut recommended_rules = String::from_str(
        "<!-- this file is auto generated, use `cargo lintdoc` to update it -->\n",
    );
    recommended_rules.append(" <ul>\n");
    recommended_rules.append(site.recommended.as_str());
    recommended_rules.append("\n</ul>");
    let mut number = String::from_str(
        "<!-- this file is auto generated, use `cargo lintdoc` to update it -->\n",
    );
    push_decimal(&mut number, number_of_rules as u64);
    Ok(
        GeneratedDocs {
            pages: site.pages,
            errors: site.errors,
            index,
            reference: site.reference,
            number_of_rules: number,
            recommended_rules,
        },
    )
}

/// The line of a rule set aside in the report of a failed run.
pub open spec fn failure_line(failure: (Seq<char>, LintErrorView)) -> Seq<char> {
    "- "@ + failure.0 + ": "@ + failure.1.message() + "\n"@
}

/// The lines of some rules set aside, in their order.
pub open spec fn failure_lines(failures: Seq<(Seq<char>, LintErrorView)>) -> Seq<char>
    decreases failures.len(),
{
    if failures.len() == 0 {
        Seq::empty()
    } else {
        failure_lines(failures.drop_last()) + failure_line(failures.last())
    }
}

/// The report of a failed run.
pub open spec fn failure_report(failures: Seq<(Seq<char>, LintErrorView)>) -> Seq<char> {
    "failed to generate documentation pages for the following rules:\n"@ + failure_lines(failures)
}

/// The report of a run: for a run in which a rule was set aside, the list
/// of those rules, each with what is wrong with its example; nothing for a
/// run that went through.
pub fn failure_message(errors: &Vec<RuleFailure>) -> (report: Option<String>)
    ensures
        errors@.len() == 0 <==> report is None,
        report is Some ==> report->0@ == failure_report(
            errors@.map_values(|failure: RuleFailure| failure@),
        ),
{
    if errors.len() == 0 {
        return None;
    }
    let ghost failures = errors@.map_values(|failure: RuleFailure| failure@);
    let mut report = String::from_str(
        "failed to generate documentation pages for the following rules:\n",
    );
    let mut i: usize = 0;
    proof {
        assert(failures.take(0) =~= Seq::<(Seq<char>, LintErrorView)>::empty());
        assert(report@ =~= "failed to generate documentation pages for the following rules:\n"@
            + failure_lines(failures.take(0)));
    }
    while i < errors.len()
        invariant
            i <= errors.len(),
            failures == errors@.map_values(|failure: RuleFailure| failure@),
            report@ == "failed to generate documentation pages for the following rules:\n"@
                + failure_lines(failures.take(i as int)),
        decreases errors.len() - i,
    {
        let failure = &errors[i];
        let message = failure.error.message();
        let ghost before = report@;
        report.append("- ");
        report.append(failure.rule.as_str());
        report.append(": ");
        report.append(message.as_str());
        report.append("\n");
        proof {
            let next = failures.take(i + 1);
            assert(next.drop_last() =~= failures.take(i as int));
            assert(next.last() == failure@);
            assert(report@ =~= before + failure_line(failure@));
            assert(report@ =~= "failed to generate documentation pages for the following rules:\n"@
                + failure_lines(next));
        }
        i = i + 1;
    }
    proof {
        assert(failures.take(errors.len() as int) =~= failures);
    }
    Some(report)
}

} // verus!
