//! Guarantees of the emitter, stated and proved over its models: when
//! rendering succeeds, and that every synthesized variable name is legal
//! in the target dialect.

use vstd::prelude::*;

use crate::ident_type::{is_word_char, pattern_matches, rule_of, IdentType};
use crate::invocation::{all_text, ArgumentResult, Invocation};
use crate::shell::{ident_ok, parse_model, render_args_model, render_level_model, Shell};

verus! {

/// Every character of `s` is a word character.
pub open spec fn all_word_chars(s: Seq<char>) -> bool {
    forall|i: int| 0 <= i < s.len() ==> is_word_char(#[trigger] s[i])
}

/// Every argument name of this level and of every level below fully
/// matches the dialect's Tail rule, every subcommand name along the chain
/// does too, and every recorded value is text.
pub open spec fn tree_renderable(shell: Shell, inv: Invocation) -> bool
    decreases inv,
{
    (forall|i: int|
        0 <= i < inv.args@.len() ==> pattern_matches(
            rule_of(IdentType::Tail, shell),
            (#[trigger] inv.args@[i]).0@,
        )) && (forall|i: int| 0 <= i < inv.args@.len() ==> all_text((#[trigger] inv.args@[i]).1.vals@))
        && (match inv.subcommand {
        Some(sub) => pattern_matches(rule_of(IdentType::Tail, shell), sub.name@)
            && tree_renderable(shell, *sub.matches),
        None => true,
    })
}

/// A concatenation of word-character strings is all word characters.
pub proof fn lemma_word_concat(a: Seq<char>, b: Seq<char>)
    requires
        all_word_chars(a),
        all_word_chars(b),
    ensures
        all_word_chars(a + b),
{
    assert forall|i: int| 0 <= i < (a + b).len() implies is_word_char((a + b)[i]) by {
        if i < a.len() {
            assert((a + b)[i] == a[i]);
        } else {
            assert((a + b)[i] == b[i - a.len()]);
        }
    }
}

/// An identifier fragment accepted by the Tail rule (or empty) is all word
/// characters, except under PowerShell, whose rule admits any character.
pub proof fn lemma_tail_ok_words(shell: Shell, s: Seq<char>)
    requires
        ident_ok(shell, IdentType::Tail, s),
        !(shell is PowerShell),
    ensures
        all_word_chars(s),
{
}

/// The child level's infix — the parent's infix, the subcommand's name and
/// an underscore — still fully matches the Tail rule.
pub proof fn lemma_child_infix(shell: Shell, infix: Seq<char>, name: Seq<char>)
    requires
        ident_ok(shell, IdentType::Tail, infix),
        pattern_matches(rule_of(IdentType::Tail, shell), name),
    ensures
        pattern_matches(rule_of(IdentType::Tail, shell), infix + name + "_"@),
{
    reveal_strlit("_");
    let u = "_"@;
    assert(u.len() == 1 && u[0] == '_');
    let whole = infix + name + "_"@;
    assert(whole.len() > 0);
    if !(shell is PowerShell) {
        lemma_tail_ok_words(shell, infix);
        assert(all_word_chars(u));
        lemma_word_concat(infix, name);
        lemma_word_concat(infix + name, u);
    }
}

/// Rendering the argument blocks succeeds whenever every name matches the
/// Tail rule and every value is text.
pub proof fn lemma_args_render_ok(
    shell: Shell,
    vprefix: Seq<char>,
    infix: Seq<char>,
    args: Seq<(String, ArgumentResult)>,
)
    requires
        forall|i: int|
            0 <= i < args.len() ==> pattern_matches(
                rule_of(IdentType::Tail, shell),
                (#[trigger] args[i]).0@,
            ),
        forall|i: int| 0 <= i < args.len() ==> all_text((#[trigger] args[i]).1.vals@),
    ensures
        render_args_model(shell, vprefix, infix, args) is Ok,
    decreases args.len(),
{
    if args.len() > 0 {
        assert(args[0] == args[0]);
        let rest = args.drop_first();
        assert forall|i: int|
            0 <= i < rest.len() implies pattern_matches(
            rule_of(IdentType::Tail, shell),
            (#[trigger] rest[i]).0@,
        ) && all_text(rest[i].1.vals@) by {
            assert(rest[i] == args[i + 1]);
        }
        lemma_args_render_ok(shell, vprefix, infix, rest);
    }
}

/// Round-trip legality, first half: rendering a level succeeds whenever the
/// tree's names satisfy the dialect's Tail rule, its values are text, and
/// the level's infix is accepted.
pub proof fn lemma_render_succeeds(
    shell: Shell,
    inv: Invocation,
    vprefix: Seq<char>,
    infix: Seq<char>,
    root: bool,
)
    requires
        tree_renderable(shell, inv),
        ident_ok(shell, IdentType::Tail, infix),
    ensures
        render_level_model(shell, inv, vprefix, infix, root) is Ok,
    decreases inv,
{
    lemma_args_render_ok(shell, vprefix, infix, inv.args@);
    match inv.subcommand {
        Some(sub) => {
            lemma_child_infix(shell, infix, sub.name@);
            lemma_render_succeeds(shell, *sub.matches, vprefix, infix + sub.name@ + "_"@, false);
        },
        None => {},
    }
}

/// Round-trip legality: for every dialect and every invocation tree whose
/// argument and subcommand names already satisfy the dialect's Tail rule
/// and whose values are text, rendering succeeds, provided the optional
/// prefix is empty or satisfies the Head rule.
pub proof fn lemma_parse_succeeds(shell: Shell, inv: Invocation, var_prefix: Option<&str>)
    requires
        tree_renderable(shell, inv),
        match var_prefix {
            Some(p) => ident_ok(shell, IdentType::Head, p@),
            None => true,
        },
    ensures
        parse_model(shell, inv, var_prefix) is Ok,
{
    let vp = match var_prefix {
        Some(p) => p@,
        None => Seq::<char>::empty(),
    };
    assert(ident_ok(shell, IdentType::Head, vp));
    assert(ident_ok(shell, IdentType::Tail, Seq::<char>::empty()));
    lemma_render_succeeds(shell, inv, vp, Seq::empty(), true);
}

/// Round-trip legality, second half: every identifier the emitter
/// synthesizes — an accepted prefix, an accepted infix, an accepted
/// argument name and a fixed word-character suffix — itself fully matches
/// the dialect's Tail rule, so every emitted left-hand side is a legal
/// identifier fragment of the dialect.
pub proof fn lemma_synthesized_ident_legal(
    shell: Shell,
    vprefix: Seq<char>,
    infix: Seq<char>,
    name: Seq<char>,
    suffix: Seq<char>,
)
    requires
        ident_ok(shell, IdentType::Head, vprefix),
        ident_ok(shell, IdentType::Tail, infix),
        ident_ok(shell, IdentType::Tail, name),
        all_word_chars(suffix),
        suffix.len() > 0,
    ensures
        pattern_matches(rule_of(IdentType::Tail, shell), vprefix + infix + name + suffix),
{
    let whole = vprefix + infix + name + suffix;
    assert(whole.len() > 0);
    if !(shell is PowerShell) {
        assert(all_word_chars(vprefix));
        lemma_tail_ok_words(shell, infix);
        lemma_tail_ok_words(shell, name);
        lemma_word_concat(vprefix, infix);
        lemma_word_concat(vprefix + infix, name);
        lemma_word_concat(vprefix + infix + name, suffix);
    }
}

/// The fixed suffixes of the synthesized variable names are nonempty and
/// all word characters, for every dialect: they are never run through the
/// validator because they are legal by construction.
pub proof fn lemma_fixed_suffixes_word_chars()
    ensures
        all_word_chars("success"@) && "success"@.len() > 0,
        all_word_chars("usage"@) && "usage"@.len() > 0,
        all_word_chars("subcommand"@) && "subcommand"@.len() > 0,
        all_word_chars("_occurs"@) && "_occurs"@.len() > 0,
        all_word_chars("_indices"@) && "_indices"@.len() > 0,
        all_word_chars("_vals"@) && "_vals"@.len() > 0,
{
    reveal_strlit("success");
    reveal_strlit("usage");
    reveal_strlit("subcommand");
    reveal_strlit("_occurs");
    reveal_strlit("_indices");
    reveal_strlit("_vals");
}

} // verus!
