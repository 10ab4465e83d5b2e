//! The identifier rules: pattern selection, matching and textual form.

use shlap::error::Error;
use shlap::ident_type::{IdentType, Pattern};
use shlap::shell::Shell;

#[test]
fn head_rule_per_dialect() {
    assert!(matches!(
        IdentType::Head.re(&Shell::Bash),
        Pattern::CannotStartWithNum
    ));
    assert!(matches!(
        IdentType::Head.re(&Shell::Zsh),
        Pattern::CannotStartWithNum
    ));
    assert!(matches!(
        IdentType::Head.re(&Shell::Fish),
        Pattern::CanStartWithNum
    ));
    assert!(matches!(
        IdentType::Head.re(&Shell::Elvish),
        Pattern::CanStartWithNum
    ));
    assert!(matches!(IdentType::Head.re(&Shell::PowerShell), Pattern::Any));
}

#[test]
fn tail_rule_per_dialect() {
    assert!(matches!(
        IdentType::Tail.re(&Shell::Bash),
        Pattern::CanStartWithNum
    ));
    assert!(matches!(
        IdentType::Tail.re(&Shell::Zsh),
        Pattern::CanStartWithNum
    ));
    assert!(matches!(
        IdentType::Tail.re(&Shell::Fish),
        Pattern::CanStartWithNum
    ));
    assert!(matches!(
        IdentType::Tail.re(&Shell::Elvish),
        Pattern::CanStartWithNum
    ));
    assert!(matches!(IdentType::Tail.re(&Shell::PowerShell), Pattern::Any));
}

#[test]
fn pattern_sources() {
    assert_eq!(
        Pattern::CannotStartWithNum.source(),
        "^[a-zA-Z_][a-zA-Z0-9_]*$"
    );
    assert_eq!(Pattern::CanStartWithNum.source(), "^[a-zA-Z0-9_]+$");
    assert_eq!(Pattern::Any.source(), "^.+$");
}

#[test]
fn pattern_matching() {
    assert!(Pattern::CannotStartWithNum.is_match("_private9"));
    assert!(Pattern::CannotStartWithNum.is_match("Abc"));
    assert!(!Pattern::CannotStartWithNum.is_match("9abc"));
    assert!(!Pattern::CannotStartWithNum.is_match(""));
    assert!(!Pattern::CannotStartWithNum.is_match("a-b"));

    assert!(Pattern::CanStartWithNum.is_match("9abc"));
    assert!(Pattern::CanStartWithNum.is_match("___"));
    assert!(!Pattern::CanStartWithNum.is_match(""));
    assert!(!Pattern::CanStartWithNum.is_match("my-flag"));
    assert!(!Pattern::CanStartWithNum.is_match("a b"));

    assert!(Pattern::Any.is_match("my-flag"));
    assert!(Pattern::Any.is_match(" "));
    assert!(!Pattern::Any.is_match(""));
}

#[test]
fn ident_check_accepts_empty_candidates() {
    assert!(Shell::Bash.ident_check("", &IdentType::Head).is_ok());
    assert!(Shell::PowerShell.ident_check("", &IdentType::Tail).is_ok());
}

#[test]
fn ident_check_returns_the_candidate() {
    assert_eq!(
        Shell::Bash.ident_check("myapp_", &IdentType::Head).unwrap(),
        "myapp_"
    );
    assert_eq!(Shell::Zsh.ident_check("occurs9", &IdentType::Tail).unwrap(), "occurs9");
}

#[test]
fn ident_check_reports_text_and_pattern() {
    match Shell::Zsh.ident_check("my-flag", &IdentType::Tail) {
        Err(Error::InvalidIdentifier { ident, pattern }) => {
            assert_eq!(ident, "my-flag");
            assert_eq!(pattern, "^[a-zA-Z0-9_]+$");
        }
        _ => panic!("expected InvalidIdentifier"),
    }
}

#[test]
fn error_messages() {
    let e = Shell::Bash.ident_check("1bad", &IdentType::Head).unwrap_err();
    assert_eq!(
        e.message(),
        "`1bad` is not a valid identifier, it must conform to this regex: `^[a-zA-Z_][a-zA-Z0-9_]*$`"
    );
    assert_eq!(
        Error::NonTextValue.message(),
        "String contains invalid UTF-8 data"
    );
    assert_eq!(
        Error::UnsupportedDialect.message(),
        "Shell must be one of [\"bash\", \"elvish\", \"fish\", \"pwsh\", \"zsh\"]"
    );
}

#[test]
fn shell_selection_tokens() {
    assert!(matches!(Shell::try_from("bash"), Ok(Shell::Bash)));
    assert!(matches!(Shell::try_from("elvish"), Ok(Shell::Elvish)));
    assert!(matches!(Shell::try_from("fish"), Ok(Shell::Fish)));
    assert!(matches!(Shell::try_from("pwsh"), Ok(Shell::PowerShell)));
    assert!(matches!(Shell::try_from("zsh"), Ok(Shell::Zsh)));
    assert!(matches!(
        Shell::try_from("tcsh"),
        Err(Error::UnsupportedDialect)
    ));
    assert!(matches!(
        Shell::try_from("BASH"),
        Err(Error::UnsupportedDialect)
    ));
    assert!(matches!(Shell::try_from(""), Err(Error::UnsupportedDialect)));
}
