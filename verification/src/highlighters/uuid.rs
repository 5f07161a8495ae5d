//! The UUID highlighter.
//!
//! It recognizes the canonical 8-4-4-4-12 hexadecimal form at word
//! boundaries and paints every character of a match individually: digits,
//! hexadecimal letters and dashes each get their own style.

use vstd::prelude::*;

use crate::config::UuidConfig;
use crate::highlighters::scan::hex;
use crate::highlighters::scan::is_digit;
use crate::highlighters::scan::is_hex;
use crate::highlighters::scan::is_hex_letter;
use crate::highlighters::scan::word;
use crate::highlighters::scan::word_at;
use crate::split_and_apply::to_chars;
use crate::style::wrap_seq;
use crate::style::Style;

verus! {

/// Positions `a` to `b` of `t` all hold hexadecimal digits.
pub open spec fn hex_seg(t: Seq<char>, a: int, b: int) -> bool {
    forall|k: int| a <= k < b ==> is_hex(t[k])
}

/// A UUID in the canonical 8-4-4-4-12 form starts at `i`, at word
/// boundaries on both sides.
pub open spec fn uuid_at(t: Seq<char>, i: int) -> bool {
    &&& 0 <= i
    &&& i + 36 <= t.len()
    &&& !word_at(t, i - 1)
    &&& hex_seg(t, i, i + 8)
    &&& t[i + 8] == '-'
    &&& hex_seg(t, i + 9, i + 13)
    &&& t[i + 13] == '-'
    &&& hex_seg(t, i + 14, i + 18)
    &&& t[i + 18] == '-'
    &&& hex_seg(t, i + 19, i + 23)
    &&& t[i + 23] == '-'
    &&& hex_seg(t, i + 24, i + 36)
    &&& !word_at(t, i + 36)
}

/// One character of a UUID, painted by its class.
pub open spec fn uuid_char_paint(number: Style, letter: Style, dash: Style, c: char) -> Seq<char> {
    if is_digit(c) {
        wrap_seq(number, seq![c])
    } else if is_hex_letter(c) {
        wrap_seq(letter, seq![c])
    } else if c == '-' {
        wrap_seq(dash, seq![c])
    } else {
        seq![c]
    }
}

/// The characters of `s` from index `k` on, each painted by its class.
pub open spec fn uuid_paint_from(
    number: Style,
    letter: Style,
    dash: Style,
    s: Seq<char>,
    k: int,
) -> Seq<char>
    decreases s.len() - k,
{
    if !(0 <= k < s.len()) {
        Seq::empty()
    } else {
        uuid_char_paint(number, letter, dash, s[k]) + uuid_paint_from(number, letter, dash, s, k + 1)
    }
}

/// The UUID highlighter's output from position `i` on.
pub open spec fn uuid_scan(
    number: Style,
    letter: Style,
    dash: Style,
    t: Seq<char>,
    i: int,
) -> Seq<char>
    decreases t.len() - i,
{
    if !(0 <= i < t.len()) {
        Seq::empty()
    } else if uuid_at(t, i) {
        uuid_paint_from(number, letter, dash, t.subrange(i, i + 36), 0) + uuid_scan(
            number,
            letter,
            dash,
            t,
            i + 36,
        )
    } else {
        seq![t[i]] + uuid_scan(number, letter, dash, t, i + 1)
    }
}

/// What the UUID highlighter produces for `t`.
pub open spec fn uuid_apply_spec(number: Style, letter: Style, dash: Style, t: Seq<char>) -> Seq<
    char,
> {
    uuid_scan(number, letter, dash, t, 0)
}

/// A text with no dash holds no UUID and is left unchanged.
pub proof fn lemma_uuid_scan_no_dash(number: Style, letter: Style, dash: Style, t: Seq<char>, i: int)
    requires
        0 <= i <= t.len(),
        forall|k: int| 0 <= k < t.len() ==> #[trigger] t[k] != '-',
    ensures
        uuid_scan(number, letter, dash, t, i) == t.subrange(i, t.len() as int),
    decreases t.len() - i,
{
    if i < t.len() {
        assert(!uuid_at(t, i));
        lemma_uuid_scan_no_dash(number, letter, dash, t, i + 1);
        assert(seq![t[i]] + t.subrange(i + 1, t.len() as int) =~= t.subrange(i, t.len() as int));
    } else {
        assert(t.subrange(i, t.len() as int) =~= Seq::<char>::empty());
    }
}

/// Paints UUIDs character by character: digits, hexadecimal letters and
/// dashes each in their own style.
pub struct UuidHighlighter {
    pub number: Style,
    pub letter: Style,
    pub dash: Style,
}

impl UuidHighlighter {
    /// A UUID highlighter from its configuration.
    pub fn new(config: UuidConfig) -> (r: Self)
        ensures
            r.number == config.number,
            r.letter == config.letter,
            r.dash == config.dash,
    {
        UuidHighlighter { number: config.number, letter: config.letter, dash: config.dash }
    }

    /// A UUID highlighter from the three styles directly.
    pub fn from_styles(number: Style, letter: Style, dash: Style) -> (r: Self)
        ensures
            r.number == number,
            r.letter == letter,
            r.dash == dash,
    {
        UuidHighlighter { number, letter, dash }
    }

    /// Apply the UUID highlighter to `input`.
    pub fn apply(&self, input: &str) -> (r: String)
        ensures
            r@ == uuid_apply_spec(self.number, self.letter, self.dash, input@),
    {
        let chars = to_chars(input);
        let n = chars.len();
        let mut out = String::new();
        let mut i: usize = 0;
        while i < n
            invariant
                n == chars@.len(),
                chars@ == input@,
                i <= n,
                out@ + uuid_scan(self.number, self.letter, self.dash, chars@, i as int)
                    == uuid_apply_spec(self.number, self.letter, self.dash, chars@),
            decreases n - i,
        {
            if try_uuid_at(&chars, i) {
                let ghost piece = chars@.subrange(i as int, i as int + 36);
                let mut p: usize = 0;
                while p < 36
                    invariant
                        n == chars@.len(),
                        chars@ == input@,
                        i + 36 <= n,
                        p <= 36,
                        piece == chars@.subrange(i as int, i as int + 36),
                        out@ + uuid_paint_from(self.number, self.letter, self.dash, piece, p as int)
                            + uuid_scan(self.number, self.letter, self.dash, chars@, i + 36)
                            == uuid_apply_spec(self.number, self.letter, self.dash, chars@),
                    decreases 36 - p,
                {
                    let c = chars[i + p];
                    proof {
                        assert(piece[p as int] == c);
                        assert(input@.subrange(i + p, i + p + 1) =~= seq![c]);
                    }
                    let cs = input.substring_char(i + p, i + p + 1);
                    let painted = if digit(c) {
                        self.number.paint(cs)
                    } else if hex_letter_c(c) {
                        self.letter.paint(cs)
                    } else if c == '-' {
                        self.dash.paint(cs)
                    } else {
                        cs.to_owned()
                    };
                    out.append(painted.as_str());
                    p = p + 1;
                }
                i = i + 36;
            } else {
                out.append(input.substring_char(i, i + 1));
                proof {
                    assert(input@.subrange(i as int, i as int + 1) =~= seq![chars@[i as int]]);
                }
                i = i + 1;
            }
        }
        proof {
            assert(uuid_scan(self.number, self.letter, self.dash, chars@, i as int) == Seq::<
                char,
            >::empty());
            assert(out@ =~= uuid_apply_spec(self.number, self.letter, self.dash, chars@));
        }
        out
    }
}

/// An ASCII decimal digit (local alias for use in this module's match).
fn digit(c: char) -> (r: bool)
    ensures
        r == is_digit(c),
{
    crate::highlighters::scan::digit(c)
}

/// A hexadecimal letter (local alias).
fn hex_letter_c(c: char) -> (r: bool)
    ensures
        r == is_hex_letter(c),
{
    crate::highlighters::scan::hex_letter(c)
}

/// Whether positions `a` to `b` of `chars` are all hexadecimal digits.
fn hex_seg_check(chars: &Vec<char>, a: usize, b: usize) -> (r: bool)
    requires
        a <= b <= chars@.len(),
    ensures
        r == hex_seg(chars@, a as int, b as int),
{
    let mut k = a;
    while k < b
        invariant
            a <= k <= b,
            b <= chars@.len(),
            forall|j: int| a <= j < k ==> is_hex(chars@[j]),
        decreases b - k,
    {
        if !hex(chars[k]) {
            return false;
        }
        k = k + 1;
    }
    true
}

/// Whether a canonical-form UUID starts at `i`.
fn try_uuid_at(chars: &Vec<char>, i: usize) -> (r: bool)
    requires
        i < chars@.len(),
    ensures
        r == uuid_at(chars@, i as int),
{
    let n = chars.len();
    if n < 36 || i > n - 36 {
        return false;
    }
    if i > 0 && word(chars[i - 1]) {
        return false;
    }
    if !(hex_seg_check(chars, i, i + 8) && chars[i + 8] == '-' && hex_seg_check(chars, i + 9, i + 13)
        && chars[i + 13] == '-' && hex_seg_check(chars, i + 14, i + 18) && chars[i + 18] == '-'
        && hex_seg_check(chars, i + 19, i + 23) && chars[i + 23] == '-' && hex_seg_check(
        chars,
        i + 24,
        i + 36,
    )) {
        return false;
    }
    if i + 36 < n && word(chars[i + 36]) {
        return false;
    }
    true
}

} // verus!
