//! The escaping round trip: a spec-level decoder for the dialects'
//! single-quoted string and array literals, and proofs that decoding
//! inverts escaping — an escaped literal denotes exactly the original
//! string, and an escaped array denotes exactly the original items in
//! their original order.

use vstd::prelude::*;

use crate::shell::{
    array_body_model, array_close_model, array_escape_model, array_open_model, array_sep_model,
    escape_body_model, quote_replacement, str_escape_model, Shell,
};

verus! {

/// Decodes the inside of a single-quoted literal up to its closing quote:
/// the decoded characters, and what follows the closing quote. `None` when
/// no closing quote is found.
pub open spec fn decode_body(shell: Shell, t: Seq<char>) -> Option<(Seq<char>, Seq<char>)>
    decreases t.len(),
{
    if t.len() == 0 {
        None
    } else if quote_replacement(shell).is_prefix_of(t) {
        match decode_body(shell, t.skip(quote_replacement(shell).len() as int)) {
            Some(p) => Some((seq!['\''] + p.0, p.1)),
            None => None,
        }
    } else if t[0] == '\'' {
        Some((Seq::empty(), t.skip(1)))
    } else {
        match decode_body(shell, t.skip(1)) {
            Some(p) => Some((seq![t[0]] + p.0, p.1)),
            None => None,
        }
    }
}

/// The string a full single-quoted literal denotes; `None` unless the
/// whole of `t` is one literal.
pub open spec fn str_unescape_model(shell: Shell, t: Seq<char>) -> Option<Seq<char>> {
    if t.len() > 0 && t[0] == '\'' {
        match decode_body(shell, t.skip(1)) {
            Some(p) => if p.1.len() == 0 {
                Some(p.0)
            } else {
                None
            },
            None => None,
        }
    } else {
        None
    }
}

/// What may follow a literal's closing quote without reading as part of a
/// quote replacement: anything but a double quote for the dialects whose
/// replacement closes and reopens the quotes, anything but a single quote
/// for PowerShell's doubling, and anything at all for Fish.
pub open spec fn junction_ok(shell: Shell, rest: Seq<char>) -> bool {
    match shell {
        Shell::Bash | Shell::Elvish | Shell::Zsh => rest.len() == 0 || rest[0] != '"',
        Shell::PowerShell => rest.len() == 0 || rest[0] != '\'',
        Shell::Fish => true,
    }
}

/// Under Fish, a final backslash in the string would read as escaping the
/// closing quote; every other string decodes.
pub open spec fn fish_safe(shell: Shell, s: Seq<char>) -> bool {
    shell is Fish ==> (s.len() == 0 || s.last() != '\\')
}

/// An escaped body is nonempty when the string is, and under Fish it never
/// starts with a single quote.
proof fn lemma_escape_body_first(shell: Shell, s: Seq<char>)
    requires
        s.len() > 0,
    ensures
        escape_body_model(shell, s).len() > 0,
        shell is Fish ==> escape_body_model(shell, s)[0] != '\'',
{
    let head = if s[0] == '\'' {
        quote_replacement(shell)
    } else {
        seq![s[0]]
    };
    assert(escape_body_model(shell, s) == head + escape_body_model(shell, s.drop_first()));
    assert(head.len() > 0);
    assert(escape_body_model(shell, s)[0] == head[0]);
}

/// Decoding inverts escaping: the escaped body of `s`, a closing quote and
/// any benign continuation decode to exactly `s` and that continuation.
pub proof fn lemma_decode_body(shell: Shell, s: Seq<char>, rest: Seq<char>)
    requires
        fish_safe(shell, s),
        junction_ok(shell, rest),
    ensures
        decode_body(shell, escape_body_model(shell, s) + seq!['\''] + rest) == Some((s, rest)),
    decreases s.len(),
{
    let t = escape_body_model(shell, s) + seq!['\''] + rest;
    let repl = quote_replacement(shell);
    if s.len() == 0 {
        assert(t =~= seq!['\''] + rest);
        assert(t[0] == '\'');
        assert(!repl.is_prefix_of(t)) by {
            match shell {
                Shell::Bash | Shell::Elvish | Shell::Zsh => {
                    if repl.is_prefix_of(t) {
                        assert(t[1] == repl[1]);
                        assert(rest[0] == '"');
                    }
                },
                Shell::PowerShell => {
                    if repl.is_prefix_of(t) {
                        assert(t[1] == repl[1]);
                        assert(rest[0] == '\'');
                    }
                },
                Shell::Fish => {
                    assert(repl[0] == '\\');
                },
            }
        }
        assert(t.skip(1) =~= rest);
        assert(decode_body(shell, t) == Some((Seq::<char>::empty(), rest)));
    } else if s[0] == '\'' {
        let s1 = s.drop_first();
        let t1 = escape_body_model(shell, s1) + seq!['\''] + rest;
        assert(t =~= repl + t1);
        assert(repl.is_prefix_of(t)) by {
            assert(t.subrange(0, repl.len() as int) =~= repl);
        }
        assert(t.skip(repl.len() as int) =~= t1);
        assert(fish_safe(shell, s1)) by {
            if s1.len() > 0 {
                assert(s1.last() == s.last());
            }
        }
        lemma_decode_body(shell, s1, rest);
        assert(seq!['\''] + s1 =~= s);
    } else {
        let s1 = s.drop_first();
        let t1 = escape_body_model(shell, s1) + seq!['\''] + rest;
        assert(t =~= seq![s[0]] + t1);
        assert(t[0] == s[0]);
        assert(!repl.is_prefix_of(t)) by {
            match shell {
                Shell::Bash | Shell::Elvish | Shell::Zsh | Shell::PowerShell => {
                    assert(repl[0] == '\'');
                },
                Shell::Fish => {
                    if s[0] == '\\' {
                        assert(s.len() >= 2) by {
                            if s.len() == 1 {
                                assert(s.last() == '\\');
                            }
                        }
                        assert(s1.len() > 0);
                        lemma_escape_body_first(shell, s1);
                        assert(t[1] == t1[0]);
                        assert(t1[0] == escape_body_model(shell, s1)[0]);
                        if repl.is_prefix_of(t) {
                            assert(t[1] == repl[1]);
                        }
                    } else {
                        assert(repl[0] == '\\');
                    }
                },
            }
        }
        assert(t.skip(1) =~= t1);
        assert(fish_safe(shell, s1)) by {
            if s1.len() > 0 {
                assert(s1.last() == s.last());
            }
        }
        lemma_decode_body(shell, s1, rest);
        assert(seq![s[0]] + s1 =~= s);
    }
}

/// Escaping correctness: for each dialect, the single-quoted literal that
/// `str_escape` builds for `s` denotes exactly `s` again. Under Fish the
/// statement asks that `s` not end in a backslash: there the emitted
/// literal itself reads as escaping its closing quote.
pub proof fn lemma_str_escape_roundtrip(shell: Shell, s: Seq<char>)
    requires
        fish_safe(shell, s),
    ensures
        str_unescape_model(shell, str_escape_model(shell, s)) == Some(s),
{
    let t = str_escape_model(shell, s);
    assert(t[0] == '\'');
    assert(t.skip(1) =~= escape_body_model(shell, s) + seq!['\''] + Seq::<char>::empty());
    lemma_decode_body(shell, s, Seq::empty());
}

/// A successful body decode consumes at least the closing quote: what
/// follows is strictly shorter than what was decoded.
proof fn lemma_decode_body_shrinks(shell: Shell, t: Seq<char>)
    ensures
        match decode_body(shell, t) {
            Some(p) => p.1.len() < t.len(),
            None => true,
        },
    decreases t.len(),
{
    if t.len() == 0 {
    } else if quote_replacement(shell).is_prefix_of(t) {
        lemma_decode_body_shrinks(shell, t.skip(quote_replacement(shell).len() as int));
    } else if t[0] == '\'' {
    } else {
        lemma_decode_body_shrinks(shell, t.skip(1));
    }
}

#[via_fn]
proof fn decode_items_decreases(shell: Shell, t: Seq<char>) {
    if t.len() > 0 && t[0] == '\'' {
        lemma_decode_body_shrinks(shell, t.skip(1));
    }
}

/// Decodes a nonempty run of single-quoted literals separated by the
/// dialect's item separator: the denoted items in order, or `None` when
/// `t` is not exactly such a run.
pub open spec fn decode_items(shell: Shell, t: Seq<char>) -> Option<Seq<Seq<char>>>
    decreases t.len(),
    via decode_items_decreases
{
    if t.len() > 0 && t[0] == '\'' {
        match decode_body(shell, t.skip(1)) {
            Some(p) => if p.1.len() == 0 {
                Some(seq![p.0])
            } else if array_sep_model(shell).is_prefix_of(p.1) {
                match decode_items(shell, p.1.skip(array_sep_model(shell).len() as int)) {
                    Some(items) => Some(seq![p.0] + items),
                    None => None,
                }
            } else {
                None
            },
            None => None,
        }
    } else {
        None
    }
}

/// The items a full array literal denotes: the dialect's delimiters around
/// a possibly empty separated run of string literals.
pub open spec fn array_unescape_model(shell: Shell, t: Seq<char>) -> Option<Seq<Seq<char>>> {
    let open = array_open_model(shell);
    let close = array_close_model(shell);
    if open.len() + close.len() <= t.len() && open.is_prefix_of(t) && close.is_suffix_of(t) {
        let mid = t.subrange(open.len() as int, t.len() - close.len());
        if mid.len() == 0 {
            Some(Seq::empty())
        } else {
            decode_items(shell, mid)
        }
    } else {
        None
    }
}

/// The separated run of escaped items decodes to exactly those items.
proof fn lemma_decode_items_of_body(shell: Shell, items: Seq<Seq<char>>)
    requires
        items.len() >= 1,
        forall|i: int| 0 <= i < items.len() ==> fish_safe(shell, #[trigger] items[i]),
    ensures
        decode_items(shell, array_body_model(shell, items)) == Some(items),
    decreases items.len(),
{
    let t = array_body_model(shell, items);
    let sep = array_sep_model(shell);
    if items.len() == 1 {
        assert(t == str_escape_model(shell, items[0]));
        assert(t[0] == '\'');
        assert(t.skip(1) =~= escape_body_model(shell, items[0]) + seq!['\'']
            + Seq::<char>::empty());
        lemma_decode_body(shell, items[0], Seq::empty());
        assert(seq![items[0]] =~= items);
    } else {
        let rest_items = items.drop_first();
        let rest_t = array_body_model(shell, rest_items);
        let cont = sep + rest_t;
        assert(t == str_escape_model(shell, items[0]) + sep + rest_t);
        assert(t[0] == '\'');
        assert(t.skip(1) =~= escape_body_model(shell, items[0]) + seq!['\''] + cont);
        assert(junction_ok(shell, cont)) by {
            assert(cont[0] == sep[0]);
        }
        lemma_decode_body(shell, items[0], cont);
        assert(cont.len() > 0);
        assert(sep.is_prefix_of(cont)) by {
            assert(cont.subrange(0, sep.len() as int) =~= sep);
        }
        assert(cont.skip(sep.len() as int) =~= rest_t);
        assert forall|i: int| 0 <= i < rest_items.len() implies fish_safe(
            shell,
            #[trigger] rest_items[i],
        ) by {
            assert(rest_items[i] == items[i + 1]);
        }
        lemma_decode_items_of_body(shell, rest_items);
        assert(seq![items[0]] + rest_items =~= items);
    }
}

/// Array round-trip: for each dialect, the array literal built for an
/// ordered sequence of strings denotes exactly those strings in the same
/// order. Under Fish the statement asks that no item end in a backslash.
pub proof fn lemma_array_escape_roundtrip(shell: Shell, items: Seq<Seq<char>>)
    requires
        forall|i: int| 0 <= i < items.len() ==> fish_safe(shell, #[trigger] items[i]),
    ensures
        array_unescape_model(shell, array_escape_model(shell, items)) == Some(items),
{
    let t = array_escape_model(shell, items);
    let open = array_open_model(shell);
    let close = array_close_model(shell);
    let body = array_body_model(shell, items);
    assert(open.is_prefix_of(t)) by {
        assert(t.subrange(0, open.len() as int) =~= open);
    }
    assert(close.is_suffix_of(t)) by {
        assert(t.subrange(t.len() - close.len(), t.len() as int) =~= close);
    }
    assert(t.subrange(open.len() as int, t.len() - close.len()) =~= body);
    if items.len() == 0 {
        assert(body =~= Seq::<char>::empty());
        assert(Seq::<Seq<char>>::empty() =~= items);
    } else {
        assert(body.len() > 0) by {
            assert(body[0] == '\'');
        }
        lemma_decode_items_of_body(shell, items);
    }
}

} // verus!
