use lintdoc::directive::{BlockType, CodeBlockTest, JsSource};
use lintdoc::lint::{assert_lint, needs_analysis, snippet_file, Diagnostic, LintError, LintRun};

fn test(expect_diagnostic: bool, ignore: bool) -> CodeBlockTest {
    CodeBlockTest { block_type: BlockType::Js(JsSource::Jsx), expect_diagnostic, ignore }
}

fn diagnostic(category: &str, rendered: &str, has_code_action: bool) -> Diagnostic {
    Diagnostic {
        category: category.to_string(),
        rendered: rendered.to_string(),
        has_code_action,
    }
}

#[test]
fn expected_diagnostic_passes_with_exactly_one() {
    let one = vec![diagnostic("lint/style/useConst", "<one>", false)];
    assert_eq!(
        assert_lint("useConst", &test(true, false), "let a;", &one, false),
        Ok("<one>".to_string())
    );
}

#[test]
fn expected_diagnostic_fails_with_none() {
    assert_eq!(
        assert_lint("useConst", &test(true, false), "const a = 1;", &Vec::new(), false),
        Err(LintError::NoDiagnostic { code: "const a = 1;".to_string() })
    );
}

#[test]
fn expected_diagnostic_fails_with_two() {
    let two = vec![
        diagnostic("lint/style/useConst", "<one>", false),
        diagnostic("lint/style/useConst", "<two>", false),
    ];
    assert_eq!(
        assert_lint("useConst", &test(true, false), "let a; let b;", &two, false),
        Err(LintError::MultipleDiagnostics { code: "let a; let b;".to_string() })
    );
}

#[test]
fn unannounced_diagnostic_fails() {
    let one = vec![
        diagnostic("lint/style/useConst", "<one>", false),
        diagnostic("parse", "<two>", false),
    ];
    assert_eq!(
        assert_lint("useConst", &test(false, false), "let a;", &one, true),
        Err(LintError::UnexpectedDiagnostic {
            category: "lint/style/useConst".to_string(),
            code: "let a;".to_string(),
        })
    );
}

#[test]
fn no_diagnostic_passes_where_none_is_announced() {
    assert_eq!(
        assert_lint("useConst", &test(false, false), "const a = 1;", &Vec::new(), false),
        Ok(String::new())
    );
}

#[test]
fn ignored_block_passes_whatever_came() {
    let two = vec![
        diagnostic("lint/style/useConst", "<one>", true),
        diagnostic("lint/style/useConst", "<two>", true),
    ];
    assert_eq!(
        assert_lint("useConst", &test(true, true), "let a;", &two, false),
        Ok(String::new())
    );
    assert_eq!(
        assert_lint("useConst", &test(false, true), "let a;", &two, false),
        Ok(String::new())
    );
}

#[test]
fn code_action_without_fix_kind_fails() {
    let one = vec![diagnostic("lint/style/useConst", "<one>", true)];
    assert_eq!(
        assert_lint("useConst", &test(true, false), "let a;", &one, false),
        Err(LintError::UndeclaredFixKind { rule: "useConst".to_string() })
    );
    assert_eq!(
        assert_lint("useConst", &test(true, false), "let a;", &one, true),
        Ok("<one>".to_string())
    );
}

#[test]
fn error_messages_name_the_snippet() {
    assert_eq!(
        LintError::MultipleDiagnostics { code: "let a;".to_string() }.message(),
        "analysis returned multiple diagnostics, code snippet: \n\nlet a;"
    );
    assert_eq!(
        LintError::UnexpectedDiagnostic {
            category: "lint/a/b".to_string(),
            code: "let a;".to_string()
        }
        .message(),
        "analysis returned an unexpected diagnostic, code `snippet:\n\n\"lint/a/b\"\n\nlet a;"
    );
    assert_eq!(
        LintError::NoDiagnostic { code: "let a;".to_string() }.message(),
        "analysis returned no diagnostics.\n code snippet:\n let a;"
    );
    assert_eq!(
        LintError::UndeclaredFixKind { rule: "useConst".to_string() }.message(),
        "The rule 'useConst' emitted code actions via `action` function, but you didn't mark rule with `fix_kind`."
    );
}

#[test]
fn snippet_file_is_named_after_group_and_rule() {
    assert_eq!(snippet_file("style", "useConst"), "style/useConst.js");
}

#[test]
fn only_known_languages_are_analyzed() {
    assert!(needs_analysis(&test(false, false)));
    assert!(needs_analysis(&test(true, false)));
    assert!(!needs_analysis(&test(true, true)));
    let foreign = CodeBlockTest {
        block_type: BlockType::Foreign(String::new()),
        expect_diagnostic: false,
        ignore: false,
    };
    assert!(!needs_analysis(&foreign));
    let json = CodeBlockTest { block_type: BlockType::Json, expect_diagnostic: false, ignore: false };
    assert!(needs_analysis(&json));
}

#[test]
fn run_stops_at_the_second_diagnostic() {
    let mut run = LintRun::new("useConst", &test(true, false), "let a;", true);
    assert_eq!(run.record(&diagnostic("lint/style/useConst", "<one>", true)), Ok(()));
    assert_eq!(
        run.record(&diagnostic("lint/style/useConst", "<two>", false)),
        Err(LintError::MultipleDiagnostics { code: "let a;".to_string() })
    );
    assert_eq!(
        run.finish(),
        Err(LintError::MultipleDiagnostics { code: "let a;".to_string() })
    );
}

#[test]
fn run_stops_at_the_first_unannounced_diagnostic() {
    let mut run = LintRun::new("useConst", &test(false, false), "let a;", false);
    assert_eq!(
        run.record(&diagnostic("parse", "<one>", false)),
        Err(LintError::UnexpectedDiagnostic {
            category: "parse".to_string(),
            code: "let a;".to_string(),
        })
    );
}

#[test]
fn run_finishes_with_the_transcript_or_the_error() {
    let mut run = LintRun::new("useConst", &test(true, false), "let a;", false);
    assert_eq!(run.record(&diagnostic("lint/style/useConst", "<one>", false)), Ok(()));
    assert_eq!(run.finish(), Ok("<one>".to_string()));

    let run = LintRun::new("useConst", &test(true, false), "let a;", false);
    assert_eq!(run.finish(), Err(LintError::NoDiagnostic { code: "let a;".to_string() }));

    let mut run = LintRun::new("useConst", &test(true, false), "let a;", false);
    assert_eq!(run.record(&diagnostic("lint/style/useConst", "<one>", true)), Ok(()));
    assert_eq!(run.finish(), Err(LintError::UndeclaredFixKind { rule: "useConst".to_string() }));

    let mut run = LintRun::new("useConst", &test(false, true), "let a;", false);
    assert_eq!(run.record(&diagnostic("lint/style/useConst", "<one>", true)), Ok(()));
    assert_eq!(run.finish(), Ok(String::new()));
}
