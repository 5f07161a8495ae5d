//! The number highlighter.
//!
//! It wraps every number in the text in one style.  A number is a run of
//! decimal digits, optionally followed by a dot and a second digit run,
//! standing at word boundaries: the character before the first digit and
//! the character after the last matched digit must not be word characters.
//! A digit run glued to a word character (as in `abc123`) is not matched;
//! when only the trailing fractional part is glued (as in `12.5a`), the
//! integer part alone is matched, since the dot after it is itself a
//! boundary.

use vstd::prelude::*;

use crate::highlighters::scan::digit;
use crate::highlighters::scan::digit_run_end;
use crate::highlighters::scan::digit_run_to;
use crate::highlighters::scan::is_digit;
use crate::highlighters::scan::lemma_digit_run_end;
use crate::highlighters::scan::word;
use crate::highlighters::scan::word_at;
use crate::split_and_apply::to_chars;
use crate::style::wrap_seq;
use crate::style::Style;

verus! {

/// The length of the number starting at `i`, if one starts there.
pub open spec fn number_match_at(t: Seq<char>, i: int) -> Option<int> {
    if !(0 <= i < t.len()) || !is_digit(t[i]) || word_at(t, i - 1) {
        None
    } else {
        let j = digit_run_end(t, i);
        if j < t.len() && t[j] == '.' && j + 1 < t.len() && is_digit(t[j + 1]) {
            let k = digit_run_end(t, j + 1);
            if !word_at(t, k) {
                Some(k - i)
            } else {
                Some(j - i)
            }
        } else {
            if !word_at(t, j) {
                Some(j - i)
            } else {
                None
            }
        }
    }
}

/// The number highlighter's output from position `i` on: every number
/// wrapped in `style`, all other characters verbatim.
pub open spec fn number_scan(style: Style, t: Seq<char>, i: int) -> Seq<char>
    decreases t.len() - i,
{
    if !(0 <= i < t.len()) {
        Seq::empty()
    } else {
        match number_match_at(t, i) {
            Some(l) => if 1 <= l <= t.len() - i {
                wrap_seq(style, t.subrange(i, i + l)) + number_scan(style, t, i + l)
            } else {
                seq![t[i]] + number_scan(style, t, i + 1)
            },
            None => seq![t[i]] + number_scan(style, t, i + 1),
        }
    }
}

/// What the number highlighter produces for `t`.
pub open spec fn number_apply_spec(style: Style, t: Seq<char>) -> Seq<char> {
    number_scan(style, t, 0)
}

/// A text with no decimal digit is left unchanged by the number
/// highlighter.
pub proof fn lemma_number_scan_no_digit(style: Style, t: Seq<char>, i: int)
    requires
        0 <= i <= t.len(),
        forall|k: int| 0 <= k < t.len() ==> !is_digit(#[trigger] t[k]),
    ensures
        number_scan(style, t, i) == t.subrange(i, t.len() as int),
    decreases t.len() - i,
{
    if i < t.len() {
        assert(number_match_at(t, i) is None);
        lemma_number_scan_no_digit(style, t, i + 1);
        assert(seq![t[i]] + t.subrange(i + 1, t.len() as int) =~= t.subrange(i, t.len() as int));
    } else {
        assert(t.subrange(i, t.len() as int) =~= Seq::<char>::empty());
    }
}

/// Wraps every number in the text in one style.
pub struct NumberHighlighter {
    pub style: Style,
}

impl NumberHighlighter {
    /// A number highlighter painting with `style`.
    pub fn new(style: Style) -> (r: Self)
        ensures
            r.style == style,
    {
        NumberHighlighter { style }
    }

    /// Apply the number highlighter to `input`.
    pub fn apply(&self, input: &str) -> (r: String)
        ensures
            r@ == number_apply_spec(self.style, input@),
    {
        let chars = to_chars(input);
        let n = chars.len();
        let mut out = String::new();
        let mut i: usize = 0;
        while i < n
            invariant
                n == chars@.len(),
                chars@ == input@,
                i <= n,
                out@ + number_scan(self.style, chars@, i as int) == number_apply_spec(
                    self.style,
                    chars@,
                ),
            decreases n - i,
        {
            match try_number_at(&chars, i) {
                Some(l) => {
                    let piece = input.substring_char(i, i + l);
                    let painted = self.style.paint(piece);
                    out.append(painted.as_str());
                    i = i + l;
                },
                None => {
                    out.append(input.substring_char(i, i + 1));
                    proof {
                        assert(input@.subrange(i as int, i as int + 1) =~= seq![
                            chars@[i as int],
                        ]);
                    }
                    i = i + 1;
                },
            }
        }
        proof {
            assert(number_scan(self.style, chars@, i as int) == Seq::<char>::empty());
            assert(out@ =~= number_apply_spec(self.style, chars@));
        }
        out
    }
}

/// The length of the number starting at `i`, computed.
fn try_number_at(chars: &Vec<char>, i: usize) -> (r: Option<usize>)
    requires
        i < chars@.len(),
    ensures
        match r {
            Some(l) => number_match_at(chars@, i as int) == Some(l as int) && 1 <= l && i + l
                <= chars@.len(),
            None => number_match_at(chars@, i as int) is None,
        },
{
    let n = chars.len();
    if !digit(chars[i]) {
        return None;
    }
    if i > 0 && word(chars[i - 1]) {
        return None;
    }
    let j = digit_run_to(chars, i);
    proof {
        lemma_digit_run_end(chars@, i as int);
    }
    if j < n && chars[j] == '.' && j + 1 < n && digit(chars[j + 1]) {
        let k = digit_run_to(chars, j + 1);
        proof {
            lemma_digit_run_end(chars@, j as int + 1);
        }
        if k == n || !word(chars[k]) {
            Some(k - i)
        } else {
            Some(j - i)
        }
    } else {
        if j == n || !word(chars[j]) {
            Some(j - i)
        } else {
            None
        }
    }
}

} // verus!
