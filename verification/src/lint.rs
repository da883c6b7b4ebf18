//! The harness that holds an example against its directive: it counts the
//! diagnostics that parsing and analyzing the snippet gave, and either hands
//! out their transcript or says what is wrong with the example.

use crate::directive::{
    directive_of, is_unknown, law_unknown_token_forces_ignore, CodeBlockTest, Directive,
};
use vstd::prelude::*;

verus! {

/// One diagnostic that parsing or analyzing a snippet gave.
#[derive(Debug, PartialEq, Eq)]
pub struct Diagnostic {
    /// The name of its category, empty where it has none.
    pub category: String,
    /// The diagnostic as the renderer wrote it, a fragment of markup.
    pub rendered: String,
    /// Whether the rule offered a fix with it, other than a suppression.
    pub has_code_action: bool,
}

/// What can be wrong with an example.
#[derive(Debug, PartialEq, Eq)]
pub enum LintError {
    /// The example announces one diagnostic and gave several.
    MultipleDiagnostics { code: String },
    /// The example announces no diagnostic and gave one.
    UnexpectedDiagnostic { category: String, code: String },
    /// The example announces one diagnostic and gave none.
    NoDiagnostic { code: String },
    /// The rule offered a fix and declares no kind of fix.
    UndeclaredFixKind { rule: String },
}

/// An error of the harness, as contracts speak of it.
pub enum LintErrorView {
    MultipleDiagnostics { code: Seq<char> },
    UnexpectedDiagnostic { category: Seq<char>, code: Seq<char> },
    NoDiagnostic { code: Seq<char> },
    UndeclaredFixKind { rule: Seq<char> },
}

impl View for LintError {
    type V = LintErrorView;

    open spec fn view(&self) -> LintErrorView {
        match *self {
            LintError::MultipleDiagnostics { code } => LintErrorView::MultipleDiagnostics {
                code: code@,
            },
            LintError::UnexpectedDiagnostic { category, code } => {
                LintErrorView::UnexpectedDiagnostic { category: category@, code: code@ }
            },
            LintError::NoDiagnostic { code } => LintErrorView::NoDiagnostic { code: code@ },
            LintError::UndeclaredFixKind { rule } => LintErrorView::UndeclaredFixKind {
                rule: rule@,
            },
        }
    }
}

impl LintErrorView {
    /// The error in words.
    pub open spec fn message(self) -> Seq<char> {
        match self {
            LintErrorView::MultipleDiagnostics { code } => {
                "analysis returned multiple diagnostics, code snippet: \n\n"@ + code
            },
            LintErrorView::UnexpectedDiagnostic { category, code } => {
                "analysis returned an unexpected diagnostic, code `snippet:\n\n\""@ + category
                    + "\"\n\n"@ + code
            },
            LintErrorView::NoDiagnostic { code } => {
                "analysis returned no diagnostics.\n code snippet:\n "@ + code
            },
            LintErrorView::UndeclaredFixKind { rule } => {
                "The rule '"@ + rule
                    + "' emitted code actions via `action` function, but you didn't mark rule with `fix_kind`."@
            },
        }
    }
}

impl LintError {
    /// The error in words.
    pub fn message(&self) -> (text: String)
        ensures
            text@ == self@.message(),
    {
        match self {
            LintError::MultipleDiagnostics { code } => {
                let mut text = String::from_str(
                    "analysis returned multiple diagnostics, code snippet: \n\n",
                );
                text.append(code.as_str());
                text
            },
            LintError::UnexpectedDiagnostic { category, code } => {
                let mut text = String::from_str(
                    "analysis returned an unexpected diagnostic, code `snippet:\n\n\"",
                );
                text.append(category.as_str());
                text.append("\"\n\n");
                text.append(code.as_str());
                text
            },
            LintError::NoDiagnostic { code } => {
                let mut text = String::from_str(
                    "analysis returned no diagnostics.\n code snippet:\n ",
                );
                text.append(code.as_str());
                text
            },
            LintError::UndeclaredFixKind { rule } => {
                let mut text = String::from_str("The rule '");
                text.append(rule.as_str());
                text.append(
                    "' emitted code actions via `action` function, but you didn't mark rule with `fix_kind`.",
                );
                text
            },
        }
    }
}

/// The name under which a snippet of a rule is shown in its diagnostics.
pub open spec fn snippet_path(group: Seq<char>, rule: Seq<char>) -> Seq<char> {
    group + "/"@ + rule + ".js"@
}

/// The name under which a snippet of a rule is shown in its diagnostics.
pub fn snippet_file(group: &str, rule: &str) -> (file: String)
    ensures
        file@ == snippet_path(group@, rule@),
{
    let mut file = String::from_str(group);
    file.append("/");
    file.append(rule);
    file.append(".js");
    file
}

/// Whether an example is run at all: an ignored block is left alone, and so
/// is one in a language that no frontend takes.
pub open spec fn is_analyzed(test: Directive) -> bool {
    !test.ignore && test.block_type.language() is Some
}

/// Tells whether an example is to be parsed and analyzed.
pub fn needs_analysis(test: &CodeBlockTest) -> (needed: bool)
    ensures
        needed == is_analyzed(test@),
{
    !test.ignore && test.block_type.language().is_some()
}

/// The renderings of some diagnostics, one after the other.
pub open spec fn transcript(diagnostics: Seq<Diagnostic>) -> Seq<char>
    decreases diagnostics.len(),
{
    if diagnostics.len() == 0 {
        Seq::empty()
    } else {
        transcript(diagnostics.drop_last()) + diagnostics.last().rendered@
    }
}

/// The number of diagnostics that a directive announces.
pub open spec fn expected_count(test: Directive) -> nat {
    if test.expect_diagnostic {
        1
    } else {
        0
    }
}

/// What the harness makes of an example, given the diagnostics that its
/// snippet gave in the order in which they came.
///
/// An ignored example passes with an empty transcript. Any other passes where
/// it gave as many diagnostics as its directive announces, none or one, and,
/// if it announces one, the rule offered no fix without declaring a kind of
/// fix. The error names the first thing that went wrong as the diagnostics
/// came in.
pub open spec fn lint_verdict(
    rule: Seq<char>,
    test: Directive,
    code: Seq<char>,
    diagnostics: Seq<Diagnostic>,
    has_fix_kind: bool,
) -> Result<Seq<char>, LintErrorView> {
    if test.ignore {
        Ok(Seq::empty())
    } else if !test.expect_diagnostic {
        if diagnostics.len() > 0 {
            Err(
                LintErrorView::UnexpectedDiagnostic {
                    category: diagnostics[0].category@,
                    code,
                },
            )
        } else {
            Ok(Seq::empty())
        }
    } else if diagnostics.len() > 1 {
        Err(LintErrorView::MultipleDiagnostics { code })
    } else if diagnostics.len() == 0 {
        Err(LintErrorView::NoDiagnostic { code })
    } else if diagnostics[0].has_code_action && !has_fix_kind {
        Err(LintErrorView::UndeclaredFixKind { rule })
    } else {
        Ok(diagnostics[0].rendered@)
    }
}

/// The result of the harness, as contracts speak of it.
pub open spec fn verdict_view(result: Result<String, LintError>) -> Result<
    Seq<char>,
    LintErrorView,
> {
    match result {
        Ok(text) => Ok(text@),
        Err(error) => Err(error@),
    }
}

/// Holds an example against its directive: `diagnostics` are those that
/// parsing the snippet gave or, where it parsed, those that analyzing it with
/// the rule alone gave, in the order in which they came.
pub fn assert_lint(
    rule: &str,
    test: &CodeBlockTest,
    code: &str,
    diagnostics: &Vec<Diagnostic>,
    has_fix_kind: bool,
) -> (result: Result<String, LintError>)
    ensures
        verdict_view(result) == lint_verdict(rule@, test@, code@, diagnostics@, has_fix_kind),
        result is Ok && !test.ignore ==> diagnostics@.len() == expected_count(test@),
        result is Ok && !test.ignore ==> result->Ok_0@ == transcript(diagnostics@),
{
    if test.ignore {
        return Ok(String::new());
    }
    if !test.expect_diagnostic {
        if diagnostics.len() > 0 {
            return Err(
                LintError::UnexpectedDiagnostic {
                    category: diagnostics[0].category.clone(),
                    code: String::from_str(code),
                },
            );
        }
        return Ok(String::new());
    }
    if diagnostics.len() > 1 {
        return Err(LintError::MultipleDiagnostics { code: String::from_str(code) });
    }
    if diagnostics.len() == 0 {
        return Err(LintError::NoDiagnostic { code: String::from_str(code) });
    }
    if diagnostics[0].has_code_action && !has_fix_kind {
        return Err(LintError::UndeclaredFixKind { rule: String::from_str(rule) });
    }
    proof {
        let all = diagnostics@;
        assert(all.drop_last() =~= Seq::<Diagnostic>::empty());
        assert(transcript(all.drop_last()) =~= Seq::<char>::empty());
        assert(transcript(all) =~= all[0].rendered@);
    }
    Ok(diagnostics[0].rendered.clone())
}

/// Whether the diagnostics seen so far already settle that the example
/// fails, whatever comes after them: one diagnostic where none is announced,
/// or a second one.
pub open spec fn is_settled(test: Directive, seen: Seq<Diagnostic>) -> bool {
    !test.ignore && seen.len() > expected_count(test)
}

/// Once the diagnostics seen settle that the example fails, those that
/// follow change nothing, so the analysis may stop there.
pub proof fn law_settled_verdict_stays(
    rule: Seq<char>,
    test: Directive,
    code: Seq<char>,
    seen: Seq<Diagnostic>,
    more: Seq<Diagnostic>,
    has_fix_kind: bool,
)
    requires
        is_settled(test, seen),
    ensures
        lint_verdict(rule, test, code, seen + more, has_fix_kind) == lint_verdict(
            rule,
            test,
            code,
            seen,
            has_fix_kind,
        ),
        lint_verdict(rule, test, code, seen, has_fix_kind) is Err,
{
    assert((seen + more)[0] == seen[0]);
}

/// An example passes only with the number of diagnostics that its directive
/// announces: exactly one where it expects a diagnostic, none where it does
/// not, unless the block is ignored.
pub proof fn law_passes_with_expected_count(
    rule: Seq<char>,
    test: Directive,
    code: Seq<char>,
    diagnostics: Seq<Diagnostic>,
    has_fix_kind: bool,
)
    requires
        !test.ignore,
        lint_verdict(rule, test, code, diagnostics, has_fix_kind) is Ok,
    ensures
        diagnostics.len() == expected_count(test),
{
}

/// A rule that offers a fix with its one expected diagnostic and declares
/// no kind of fix fails the example, with the error that says so.
pub proof fn law_undeclared_fix_fails(
    rule: Seq<char>,
    test: Directive,
    code: Seq<char>,
    diagnostics: Seq<Diagnostic>,
)
    requires
        !test.ignore,
        test.expect_diagnostic,
        diagnostics.len() == 1,
        diagnostics[0].has_code_action,
    ensures
        lint_verdict(rule, test, code, diagnostics, false) == Err::<Seq<char>, LintErrorView>(
            LintErrorView::UndeclaredFixKind { rule },
        ),
{
}

/// A block whose info string holds a token that is neither a language nor
/// a keyword is never analyzed, and passes with an empty transcript
/// whatever diagnostics are held against it.
pub proof fn law_unknown_token_never_analyzed(
    toks: Seq<Seq<char>>,
    i: int,
    rule: Seq<char>,
    code: Seq<char>,
    diagnostics: Seq<Diagnostic>,
    has_fix_kind: bool,
)
    requires
        0 <= i < toks.len(),
        is_unknown(toks[i]),
    ensures
        !is_analyzed(directive_of(toks)),
        lint_verdict(rule, directive_of(toks), code, diagnostics, has_fix_kind) == Ok::<
            Seq<char>,
            LintErrorView,
        >(Seq::empty()),
{
    law_unknown_token_forces_ignore(toks, i);
}

/// The harness at work on one example, while the diagnostics of its snippet
/// come in one by one.
pub struct LintRun {
    rule: String,
    code: String,
    expect_diagnostic: bool,
    ignore: bool,
    has_fix_kind: bool,
    count: u8,
    first_category: String,
    first_rendered: String,
    first_has_code_action: bool,
    directive: Ghost<Directive>,
    seen: Ghost<Seq<Diagnostic>>,
}

impl LintRun {
    /// The diagnostics recorded so far.
    pub closed spec fn seen(&self) -> Seq<Diagnostic> {
        self.seen@
    }

    /// The rule whose example this is.
    pub closed spec fn rule(&self) -> Seq<char> {
        self.rule@
    }

    /// The snippet.
    pub closed spec fn code(&self) -> Seq<char> {
        self.code@
    }

    /// The directive of the example.
    pub closed spec fn directive(&self) -> Directive {
        self.directive@
    }

    /// Whether the rule declares a kind of fix.
    pub closed spec fn has_fix_kind(&self) -> bool {
        self.has_fix_kind
    }

    /// Whether the run is about the example of that rule, directive and snippet.
    pub open spec fn is_about(
        &self,
        rule: Seq<char>,
        test: Directive,
        code: Seq<char>,
        has_fix_kind: bool,
    ) -> bool {
        &&& self.rule() == rule
        &&& self.code() == code
        &&& self.directive() == test
        &&& self.has_fix_kind() == has_fix_kind
    }

    /// What the run holds of the diagnostics that it has seen.
    pub closed spec fn wf(&self) -> bool {
        let seen = self.seen@;
        &&& self.expect_diagnostic == self.directive@.expect_diagnostic
        &&& self.ignore == self.directive@.ignore
        &&& self.count == if seen.len() < 2 {
            seen.len()
        } else {
            2
        }
        &&& seen.len() > 0 ==> {
            &&& self.first_category@ == seen[0].category@
            &&& self.first_rendered@ == seen[0].rendered@
            &&& self.first_has_code_action == seen[0].has_code_action
        }
    }

    /// The verdict on the diagnostics seen so far, were they all there are.
    pub open spec fn verdict(&self) -> Result<Seq<char>, LintErrorView> {
        lint_verdict(
            self.rule(),
            self.directive(),
            self.code(),
            self.seen(),
            self.has_fix_kind(),
        )
    }

    /// Whether the diagnostics seen already settle that the example fails.
    pub open spec fn settled(&self) -> bool {
        is_settled(self.directive(), self.seen())
    }

    /// Starts on an example, with no diagnostic seen.
    pub fn new(rule: &str, test: &CodeBlockTest, code: &str, has_fix_kind: bool) -> (run: LintRun)
        ensures
            run.wf(),
            run.is_about(rule@, test@, code@, has_fix_kind),
            run.seen() == Seq::<Diagnostic>::empty(),
    {
        LintRun {
            rule: String::from_str(rule),
            code: String::from_str(code),
            expect_diagnostic: test.expect_diagnostic,
            ignore: test.ignore,
            has_fix_kind,
            count: 0,
            first_category: String::new(),
            first_rendered: String::new(),
            first_has_code_action: false,
            directive: Ghost(test@),
            seen: Ghost(Seq::empty()),
        }
    }

    /// Takes in the next diagnostic. The answer is an error as soon as the
    /// diagnostics seen settle that the example fails: the analysis is then
    /// to stop.
    pub fn record(&mut self, diagnostic: &Diagnostic) -> (flow: Result<(), LintError>)
        requires
            old(self).wf(),
        ensures
            final(self).wf(),
            final(self).seen() == old(self).seen().push(*diagnostic),
            final(self).rule() == old(self).rule(),
            final(self).code() == old(self).code(),
            final(self).directive() == old(self).directive(),
            final(self).has_fix_kind() == old(self).has_fix_kind(),
            flow is Err <==> final(self).settled(),
            flow is Err ==> final(self).verdict() == Err::<Seq<char>, LintErrorView>(
                flow->Err_0@,
            ),
    {
        if self.count == 0 {
            self.first_category = diagnostic.category.clone();
            self.first_rendered = diagnostic.rendered.clone();
            self.first_has_code_action = diagnostic.has_code_action;
            self.count = 1;
        } else {
            self.count = 2;
        }
        proof {
            self.seen@ = self.seen@.push(*diagnostic);
        }
        if self.ignore {
            Ok(())
        } else if !self.expect_diagnostic {
            Err(
                LintError::UnexpectedDiagnostic {
                    category: self.first_category.clone(),
                    code: self.code.clone(),
                },
            )
        } else if self.count > 1 {
            Err(LintError::MultipleDiagnostics { code: self.code.clone() })
        } else {
            Ok(())
        }
    }

    /// Closes the run when the analysis is over: the verdict on all the
    /// diagnostics that came in.
    pub fn finish(self) -> (result: Result<String, LintError>)
        requires
            self.wf(),
        ensures
            verdict_view(result) == self.verdict(),
    {
        if self.ignore {
            Ok(String::new())
        } else if !self.expect_diagnostic {
            if self.count > 0 {
                Err(
                    LintError::UnexpectedDiagnostic {
                        category: self.first_category,
                        code: self.code,
                    },
                )
            } else {
                Ok(String::new())
            }
        } else if self.count > 1 {
            Err(LintError::MultipleDiagnostics { code: self.code })
        } else if self.count == 0 {
            Err(LintError::NoDiagnostic { code: self.code })
        } else if self.first_has_code_action && !self.has_fix_kind {
            Err(LintError::UndeclaredFixKind { rule: self.rule })
        } else {
            Ok(self.first_rendered)
        }
    }
}

} // verus!
