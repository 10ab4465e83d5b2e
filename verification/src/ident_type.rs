//! Identifier validation: the per-dialect rules that say which strings may
//! serve as the leading segment (`Head`) or a later segment (`Tail`) of a
//! synthesized shell variable name.

use vstd::prelude::*;
use vstd::string::*;

use crate::shell::Shell;

verus! {

/// The position class of a name fragment: the leading segment of a
/// synthesized variable name, or any later segment.
pub enum IdentType {
    Head,
    Tail,
}

/// One of the three character-level rules an identifier fragment is held to.
/// Each corresponds to a fixed regular expression in `source`.
#[derive(Clone, Copy)]
pub enum Pattern {
    /// `^[a-zA-Z_][a-zA-Z0-9_]*$`
    CannotStartWithNum,
    /// `^[a-zA-Z0-9_]+$`
    CanStartWithNum,
    /// `^.+$`
    Any,
}

/// An ASCII letter, digit or underscore: the characters `[a-zA-Z0-9_]`.
pub open spec fn is_word_char(c: char) -> bool {
    ('a' <= c && c <= 'z') || ('A' <= c && c <= 'Z') || ('0' <= c && c <= '9') || c == '_'
}

/// An ASCII letter or underscore: the characters `[a-zA-Z_]`.
pub open spec fn is_head_start_char(c: char) -> bool {
    ('a' <= c && c <= 'z') || ('A' <= c && c <= 'Z') || c == '_'
}

/// What it means for a string to fully match a `Pattern`.
pub open spec fn pattern_matches(p: Pattern, s: Seq<char>) -> bool {
    match p {
        Pattern::CannotStartWithNum => s.len() > 0 && is_head_start_char(s[0]) && (forall|i: int|
            0 <= i < s.len() ==> is_word_char(#[trigger] s[i])),
        Pattern::CanStartWithNum => s.len() > 0 && (forall|i: int|
            0 <= i < s.len() ==> is_word_char(#[trigger] s[i])),
        Pattern::Any => s.len() > 0,
    }
}

/// The textual (regular-expression) form of a `Pattern`, as shown in
/// `InvalidIdentifier` errors.
pub open spec fn pattern_source(p: Pattern) -> Seq<char> {
    match p {
        Pattern::CannotStartWithNum => "^[a-zA-Z_][a-zA-Z0-9_]*$"@,
        Pattern::CanStartWithNum => "^[a-zA-Z0-9_]+$"@,
        Pattern::Any => "^.+$"@,
    }
}

/// The rule an `IdentType` selects for a given dialect, as a spec-level
/// function of the two enums.
pub open spec fn rule_of(t: IdentType, shell: Shell) -> Pattern {
    match t {
        IdentType::Head => match shell {
            Shell::Bash | Shell::Zsh => Pattern::CannotStartWithNum,
            Shell::Elvish | Shell::Fish => Pattern::CanStartWithNum,
            Shell::PowerShell => Pattern::Any,
        },
        IdentType::Tail => match shell {
            Shell::Bash | Shell::Zsh | Shell::Elvish | Shell::Fish => Pattern::CanStartWithNum,
            Shell::PowerShell => Pattern::Any,
        },
    }
}

impl IdentType {
    /// The validation rule for this position class under the given dialect.
    pub fn re(&self, shell: &Shell) -> (p: Pattern)
        ensures
            p == rule_of(*self, *shell),
    {
        match self {
            Self::Head => match shell {
                Shell::Bash | Shell::Zsh => Pattern::CannotStartWithNum,
                Shell::Elvish | Shell::Fish => Pattern::CanStartWithNum,
                Shell::PowerShell => Pattern::Any,
            },
            Self::Tail => match shell {
                Shell::Bash | Shell::Zsh | Shell::Elvish | Shell::Fish => {
                    Pattern::CanStartWithNum
                },
                Shell::PowerShell => Pattern::Any,
            },
        }
    }
}

/// Whether a character is an ASCII letter, digit or underscore.
fn word_char(c: char) -> (r: bool)
    ensures
        r == is_word_char(c),
{
    ('a' <= c && c <= 'z') || ('A' <= c && c <= 'Z') || ('0' <= c && c <= '9') || c == '_'
}

/// Whether a character is an ASCII letter or underscore.
fn head_start_char(c: char) -> (r: bool)
    ensures
        r == is_head_start_char(c),
{
    ('a' <= c && c <= 'z') || ('A' <= c && c <= 'Z') || c == '_'
}

impl Pattern {
    /// The regular expression this pattern stands for, in textual form.
    pub fn source(&self) -> (r: &'static str)
        ensures
            r@ == pattern_source(*self),
    {
        match self {
            Self::CannotStartWithNum => "^[a-zA-Z_][a-zA-Z0-9_]*$",
            Self::CanStartWithNum => "^[a-zA-Z0-9_]+$",
            Self::Any => "^.+$",
        }
    }

    /// Whether `s` fully matches this pattern.
    pub fn is_match(&self, s: &str) -> (r: bool)
        ensures
            r == pattern_matches(*self, s@),
    {
        let n = s.unicode_len();
        if n == 0 {
            return false;
        }
        match self {
            Self::Any => true,
            Self::CannotStartWithNum => {
                if !head_start_char(s.get_char(0)) {
                    return false;
                }
                let mut i: usize = 1;
                while i < n
                    invariant
                        1 <= i <= n,
                        n == s@.len(),
                        *self is CannotStartWithNum,
                        is_head_start_char(s@[0]),
                        forall|j: int| 0 <= j < i ==> is_word_char(#[trigger] s@[j]),
                    decreases n - i,
                {
                    if !word_char(s.get_char(i)) {
                        assert(!is_word_char(s@[i as int]));
                        return false;
                    }
                    i += 1;
                }
                true
            },
            Self::CanStartWithNum => {
                let mut i: usize = 0;
                while i < n
                    invariant
                        0 <= i <= n,
                        n == s@.len(),
                        *self is CanStartWithNum,
                        forall|j: int| 0 <= j < i ==> is_word_char(#[trigger] s@[j]),
                    decreases n - i,
                {
                    if !word_char(s.get_char(i)) {
                        assert(!is_word_char(s@[i as int]));
                        return false;
                    }
                    i += 1;
                }
                true
            },
        }
    }
}

} // verus!
