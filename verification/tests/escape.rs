//! String, array and assignment escaping, dialect by dialect.

use shlap::shell::Shell;

#[test]
fn str_escape_wraps_plain_text() {
    assert_eq!(Shell::Bash.str_escape("true"), "'true'");
    assert_eq!(Shell::Zsh.str_escape(""), "''");
    assert_eq!(Shell::Fish.str_escape("alice"), "'alice'");
}

#[test]
fn str_escape_embedded_quote_bash_zsh_elvish() {
    assert_eq!(Shell::Bash.str_escape("a'b"), "'a'\"'\"'b'");
    assert_eq!(Shell::Zsh.str_escape("a'b"), "'a'\"'\"'b'");
    assert_eq!(Shell::Elvish.str_escape("a'b"), "'a'\"'\"'b'");
}

#[test]
fn str_escape_embedded_quote_fish() {
    assert_eq!(Shell::Fish.str_escape("a'b"), "'a\\'b'");
}

#[test]
fn str_escape_embedded_quote_pwsh() {
    assert_eq!(Shell::PowerShell.str_escape("a'b"), "'a''b'");
}

#[test]
fn str_escape_only_quotes() {
    assert_eq!(Shell::PowerShell.str_escape("''"), "''''''");
    assert_eq!(Shell::Fish.str_escape("'"), "'\\''");
}

#[test]
fn array_escape_delimiters() {
    let items = vec![String::from("3"), String::from("5")];
    assert_eq!(Shell::Bash.array_escape(&items), "('3' '5')");
    assert_eq!(Shell::Zsh.array_escape(&items), "('3' '5')");
    assert_eq!(Shell::Elvish.array_escape(&items), "['3' '5']");
    assert_eq!(Shell::PowerShell.array_escape(&items), "@('3', '5')");
    assert_eq!(Shell::Fish.array_escape(&items), "'3' '5'");
}

#[test]
fn array_escape_empty() {
    let items: Vec<String> = vec![];
    assert_eq!(Shell::Bash.array_escape(&items), "()");
    assert_eq!(Shell::Zsh.array_escape(&items), "()");
    assert_eq!(Shell::Elvish.array_escape(&items), "[]");
    assert_eq!(Shell::PowerShell.array_escape(&items), "@()");
    assert_eq!(Shell::Fish.array_escape(&items), "");
}

#[test]
fn array_escape_single_item() {
    let items = vec![String::from("x y")];
    assert_eq!(Shell::Bash.array_escape(&items), "('x y')");
    assert_eq!(Shell::Fish.array_escape(&items), "'x y'");
}

#[test]
fn array_escape_items_with_quotes() {
    let items = vec![String::from("a'b"), String::from("c")];
    assert_eq!(Shell::Bash.array_escape(&items), "('a'\"'\"'b' 'c')");
    assert_eq!(Shell::PowerShell.array_escape(&items), "@('a''b', 'c')");
}

#[test]
fn assignment_syntax() {
    assert_eq!(Shell::Bash.assignment("x", "'v'"), "x='v'");
    assert_eq!(Shell::Zsh.assignment("x", "'v'"), "x='v'");
    assert_eq!(Shell::Fish.assignment("x", "'v'"), "set x 'v'");
    assert_eq!(Shell::Elvish.assignment("x", "'v'"), "x = 'v'");
    assert_eq!(
        Shell::PowerShell.assignment("x", "'v'"),
        "Set-Variable -Name 'x' -Value 'v'"
    );
}
