//! Small text-building utilities shared by the emitter: appending a single
//! character, string equality, rendering an integer in decimal, and
//! trimming trailing whitespace.

use vstd::prelude::*;
use vstd::string::*;

verus! {

/// Relies on `String::push` from std: appends the given character to the
/// end of this string.
#[verifier::external_body]
pub(crate) fn push_char(s: &mut String, c: char)
    ensures
        final(s)@ == old(s)@.push(c),
{
    s.push(c)
}

/// Character-wise string equality, equivalent to `==` on the views.
pub fn str_eq(a: &str, b: &str) -> (r: bool)
    ensures
        r == (a@ == b@),
{
    let n = a.unicode_len();
    if n != b.unicode_len() {
        return false;
    }
    let mut i: usize = 0;
    while i < n
        invariant
            0 <= i <= n,
            n == a@.len(),
            n == b@.len(),
            forall|j: int| 0 <= j < i ==> a@[j] == b@[j],
        decreases n - i,
    {
        if a.get_char(i) != b.get_char(i) {
            assert(a@[i as int] != b@[i as int]);
            return false;
        }
        i += 1;
    }
    proof {
        assert(a@ =~= b@);
    }
    true
}

/// The ASCII digit character for `d` (meaningful for `d < 10`).
pub open spec fn dec_digit_char(d: nat) -> char {
    ((48 + d) as u8) as char
}

/// The decimal rendering of `n`, most significant digit first, without
/// leading zeros (a single `'0'` for zero).
pub open spec fn dec_str(n: nat) -> Seq<char>
    decreases n,
{
    if n < 10 {
        seq![dec_digit_char(n)]
    } else {
        dec_str(n / 10).push(dec_digit_char(n % 10))
    }
}

/// Appends the decimal rendering of `n` to `buf`.
pub fn push_u64_dec(buf: &mut String, n: u64)
    ensures
        final(buf)@ == old(buf)@ + dec_str(n as nat),
    decreases n,
{
    if n >= 10 {
        push_u64_dec(buf, n / 10);
    }
    let d: u8 = (n % 10) as u8;
    push_char(buf, (48 + d) as char);
    proof {
        if n < 10 {
            assert(old(buf)@.push(dec_digit_char(n as nat)) =~= old(buf)@ + dec_str(n as nat));
        } else {
            assert((old(buf)@ + dec_str(n as nat / 10)).push(dec_digit_char(n as nat % 10))
                =~= old(buf)@ + dec_str(n as nat));
        }
    }
}

/// The decimal rendering of `n` as a fresh string.
pub fn u64_to_dec(n: u64) -> (r: String)
    ensures
        r@ == dec_str(n as nat),
{
    let mut buf = String::new();
    push_u64_dec(&mut buf, n);
    proof {
        assert(Seq::<char>::empty() + dec_str(n as nat) =~= dec_str(n as nat));
    }
    buf
}

/// A character of the Unicode `White_Space` class: exactly the characters
/// `char::is_whitespace` accepts.
pub open spec fn is_space_char(c: char) -> bool {
    c == ' ' || c == '\t' || c == '\n' || c == '\r' || c == '\u{0B}' || c == '\u{0C}'
        || c == '\u{85}' || c == '\u{A0}' || c == '\u{1680}'
        || ('\u{2000}' <= c && c <= '\u{200A}') || c == '\u{2028}' || c == '\u{2029}'
        || c == '\u{202F}' || c == '\u{205F}' || c == '\u{3000}'
}

/// Whether `c` is a whitespace character.
fn space_char(c: char) -> (r: bool)
    ensures
        r == is_space_char(c),
{
    c == ' ' || c == '\t' || c == '\n' || c == '\r' || c == '\u{0B}' || c == '\u{0C}'
        || c == '\u{85}' || c == '\u{A0}' || c == '\u{1680}'
        || ('\u{2000}' <= c && c <= '\u{200A}') || c == '\u{2028}' || c == '\u{2029}'
        || c == '\u{202F}' || c == '\u{205F}' || c == '\u{3000}'
}

/// `s` with every trailing whitespace character removed.
pub open spec fn trim_end_model(s: Seq<char>) -> Seq<char>
    decreases s.len(),
{
    if s.len() > 0 && is_space_char(s.last()) {
        trim_end_model(s.drop_last())
    } else {
        s
    }
}

/// A copy of `s` with trailing whitespace removed.
pub fn trim_end(s: &str) -> (r: String)
    ensures
        r@ == trim_end_model(s@),
{
    let n = s.unicode_len();
    let mut cut: usize = 0;
    let mut i: usize = 0;
    while i < n
        invariant
            0 <= i <= n,
            cut <= i,
            n == s@.len(),
            trim_end_model(s@.take(i as int)) == s@.take(cut as int),
        decreases n - i,
    {
        let c = s.get_char(i);
        proof {
            assert(s@.take(i + 1).drop_last() =~= s@.take(i as int));
            assert(s@.take(i + 1).last() == s@[i as int]);
        }
        if !space_char(c) {
            cut = i + 1;
            proof {
                assert(trim_end_model(s@.take(i + 1)) == s@.take(i + 1));
            }
        }
        i += 1;
    }
    proof {
        assert(s@.take(n as int) =~= s@);
    }
    let r = s.substring_char(0, cut);
    proof {
        assert(r@ =~= s@.take(cut as int));
    }
    String::from_str(r)
}

} // verus!
