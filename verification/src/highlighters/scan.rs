//! Character classes and run-scanning primitives shared by the pattern
//! highlighters.
//!
//! Every matcher in this library works on characters.  Word characters are
//! the ASCII letters, the ASCII digits and the underscore; the matchers'
//! boundary rules are stated in terms of this class.

use vstd::prelude::*;

verus! {

/// An ASCII decimal digit.
pub open spec fn is_digit(c: char) -> bool {
    '0' <= c && c <= '9'
}

/// A hexadecimal letter, either case.
pub open spec fn is_hex_letter(c: char) -> bool {
    ('a' <= c && c <= 'f') || ('A' <= c && c <= 'F')
}

/// A hexadecimal digit, either case.
pub open spec fn is_hex(c: char) -> bool {
    is_digit(c) || is_hex_letter(c)
}

/// A word character: ASCII letter, ASCII digit or underscore.
pub open spec fn is_word(c: char) -> bool {
    ('a' <= c && c <= 'z') || ('A' <= c && c <= 'Z') || is_digit(c) || c == '_'
}

/// Whether position `k` of `t` holds a word character; positions outside
/// the text count as non-word.
pub open spec fn word_at(t: Seq<char>, k: int) -> bool {
    0 <= k < t.len() && is_word(t[k])
}

/// A word boundary between positions `k - 1` and `k`.
pub open spec fn boundary(t: Seq<char>, k: int) -> bool {
    word_at(t, k - 1) != word_at(t, k)
}

/// An ASCII decimal digit.
pub fn digit(c: char) -> (r: bool)
    ensures
        r == is_digit(c),
{
    '0' <= c && c <= '9'
}

/// A hexadecimal letter, either case.
pub fn hex_letter(c: char) -> (r: bool)
    ensures
        r == is_hex_letter(c),
{
    ('a' <= c && c <= 'f') || ('A' <= c && c <= 'F')
}

/// A hexadecimal digit, either case.
pub fn hex(c: char) -> (r: bool)
    ensures
        r == is_hex(c),
{
    digit(c) || hex_letter(c)
}

/// A word character: ASCII letter, ASCII digit or underscore.
pub fn word(c: char) -> (r: bool)
    ensures
        r == is_word(c),
{
    ('a' <= c && c <= 'z') || ('A' <= c && c <= 'Z') || digit(c) || c == '_'
}

/// The end of the run of decimal digits starting at `i`.
pub open spec fn digit_run_end(t: Seq<char>, i: int) -> int
    decreases t.len() - i,
{
    if i < 0 || i >= t.len() || !is_digit(t[i]) {
        i
    } else {
        digit_run_end(t, i + 1)
    }
}

/// Bounds and contents of a digit run.
pub proof fn lemma_digit_run_end(t: Seq<char>, i: int)
    requires
        0 <= i <= t.len(),
    ensures
        i <= digit_run_end(t, i) <= t.len(),
        forall|k: int| i <= k < digit_run_end(t, i) ==> is_digit(t[k]),
        digit_run_end(t, i) < t.len() ==> !is_digit(t[digit_run_end(t, i)]),
    decreases t.len() - i,
{
    if i < t.len() && is_digit(t[i]) {
        lemma_digit_run_end(t, i + 1);
    }
}

/// The end of the digit run starting at `i`, computed.
pub fn digit_run_to(chars: &Vec<char>, i: usize) -> (e: usize)
    requires
        i <= chars@.len(),
    ensures
        e as int == digit_run_end(chars@, i as int),
        i <= e <= chars@.len(),
{
    let n = chars.len();
    let mut j = i;
    while j < n && digit(chars[j])
        invariant
            i <= j <= n,
            n == chars@.len(),
            digit_run_end(chars@, i as int) == digit_run_end(chars@, j as int),
        decreases n - j,
    {
        j = j + 1;
    }
    j
}

/// The end of the run of hexadecimal digits starting at `i`.
pub open spec fn hex_run_end(t: Seq<char>, i: int) -> int
    decreases t.len() - i,
{
    if i < 0 || i >= t.len() || !is_hex(t[i]) {
        i
    } else {
        hex_run_end(t, i + 1)
    }
}

/// Bounds and contents of a hexadecimal run.
pub proof fn lemma_hex_run_end(t: Seq<char>, i: int)
    requires
        0 <= i <= t.len(),
    ensures
        i <= hex_run_end(t, i) <= t.len(),
        forall|k: int| i <= k < hex_run_end(t, i) ==> is_hex(t[k]),
        hex_run_end(t, i) < t.len() ==> !is_hex(t[hex_run_end(t, i)]),
    decreases t.len() - i,
{
    if i < t.len() && is_hex(t[i]) {
        lemma_hex_run_end(t, i + 1);
    }
}

/// The end of the hexadecimal run starting at `i`, computed.
pub fn hex_run_to(chars: &Vec<char>, i: usize) -> (e: usize)
    requires
        i <= chars@.len(),
    ensures
        e as int == hex_run_end(chars@, i as int),
        i <= e <= chars@.len(),
{
    let n = chars.len();
    let mut j = i;
    while j < n && hex(chars[j])
        invariant
            i <= j <= n,
            n == chars@.len(),
            hex_run_end(chars@, i as int) == hex_run_end(chars@, j as int),
        decreases n - j,
    {
        j = j + 1;
    }
    j
}

} // verus!
