//! The IPv4 highlighter.
//!
//! It recognizes four runs of one to three decimal digits joined by dots,
//! at word boundaries on both sides, and paints the digit runs and the
//! dots in their own styles.

use vstd::prelude::*;

use crate::config::IpV4Config;
use crate::highlighters::scan::digit;
use crate::highlighters::scan::digit_run_end;
use crate::highlighters::scan::digit_run_to;
use crate::highlighters::scan::is_digit;
use crate::highlighters::scan::lemma_digit_run_end;
use crate::highlighters::scan::word;
use crate::highlighters::scan::word_at;
use crate::split_and_apply::to_chars;
use crate::style::wrap_seq;
use crate::style::Style;

verus! {

/// The ends of the four digit runs of the IPv4 address starting at `i`, if
/// one starts there.  Each run is maximal, one to three digits long, and
/// the address stands at word boundaries on both sides.
pub open spec fn ip4_match_at(t: Seq<char>, i: int) -> Option<(int, int, int, int)> {
    if !(0 <= i < t.len()) || !is_digit(t[i]) || word_at(t, i - 1) {
        None
    } else {
        let e1 = digit_run_end(t, i);
        if 1 <= e1 - i <= 3 && e1 < t.len() && t[e1] == '.' {
            let e2 = digit_run_end(t, e1 + 1);
            if 1 <= e2 - (e1 + 1) <= 3 && e2 < t.len() && t[e2] == '.' {
                let e3 = digit_run_end(t, e2 + 1);
                if 1 <= e3 - (e2 + 1) <= 3 && e3 < t.len() && t[e3] == '.' {
                    let e4 = digit_run_end(t, e3 + 1);
                    if 1 <= e4 - (e3 + 1) <= 3 && !word_at(t, e4) {
                        Some((e1, e2, e3, e4))
                    } else {
                        None
                    }
                } else {
                    None
                }
            } else {
                None
            }
        } else {
            None
        }
    }
}

/// One matched address, painted: digit runs in the number style, dots in
/// the separator style.
pub open spec fn ip4_paint(
    number: Style,
    separator: Style,
    t: Seq<char>,
    i: int,
    m: (int, int, int, int),
) -> Seq<char> {
    wrap_seq(number, t.subrange(i, m.0)) + wrap_seq(separator, seq!['.']) + wrap_seq(
        number,
        t.subrange(m.0 + 1, m.1),
    ) + wrap_seq(separator, seq!['.']) + wrap_seq(number, t.subrange(m.1 + 1, m.2)) + wrap_seq(
        separator,
        seq!['.'],
    ) + wrap_seq(number, t.subrange(m.2 + 1, m.3))
}

/// The IPv4 highlighter's output from position `i` on.
pub open spec fn ip4_scan(number: Style, separator: Style, t: Seq<char>, i: int) -> Seq<char>
    decreases t.len() - i,
{
    if !(0 <= i < t.len()) {
        Seq::empty()
    } else {
        match ip4_match_at(t, i) {
            Some(m) => if i < m.3 && m.3 <= t.len() {
                ip4_paint(number, separator, t, i, m) + ip4_scan(number, separator, t, m.3)
            } else {
                seq![t[i]] + ip4_scan(number, separator, t, i + 1)
            },
            None => seq![t[i]] + ip4_scan(number, separator, t, i + 1),
        }
    }
}

/// What the IPv4 highlighter produces for `t`.
pub open spec fn ip4_apply_spec(number: Style, separator: Style, t: Seq<char>) -> Seq<char> {
    ip4_scan(number, separator, t, 0)
}

/// Paints IPv4 addresses: digit runs and dots in their own styles.
pub struct IpV4Highlighter {
    pub number: Style,
    pub separator: Style,
}

impl IpV4Highlighter {
    /// An IPv4 highlighter from its configuration.
    pub fn new(config: IpV4Config) -> (r: Self)
        ensures
            r.number == config.number,
            r.separator == config.separator,
    {
        IpV4Highlighter { number: config.number, separator: config.separator }
    }

    /// Apply the IPv4 highlighter to `input`.
    pub fn apply(&self, input: &str) -> (r: String)
        ensures
            r@ == ip4_apply_spec(self.number, self.separator, input@),
    {
        let chars = to_chars(input);
        let n = chars.len();
        let mut out = String::new();
        let mut i: usize = 0;
        while i < n
            invariant
                n == chars@.len(),
                chars@ == input@,
                i <= n,
                out@ + ip4_scan(self.number, self.separator, chars@, i as int) == ip4_apply_spec(
                    self.number,
                    self.separator,
                    chars@,
                ),
            decreases n - i,
        {
            match try_ip4_at(&chars, i) {
                Some((e1, e2, e3, e4)) => {
                    let p1 = self.number.paint(input.substring_char(i, e1));
                    out.append(p1.as_str());
                    let s1 = self.separator.paint(".");
                    out.append(s1.as_str());
                    let p2 = self.number.paint(input.substring_char(e1 + 1, e2));
                    out.append(p2.as_str());
                    let s2 = self.separator.paint(".");
                    out.append(s2.as_str());
                    let p3 = self.number.paint(input.substring_char(e2 + 1, e3));
                    out.append(p3.as_str());
                    let s3 = self.separator.paint(".");
                    out.append(s3.as_str());
                    let p4 = self.number.paint(input.substring_char(e3 + 1, e4));
                    out.append(p4.as_str());
                    proof {
                        reveal_strlit(".");
                        assert("."@ =~= seq!['.']);
                    }
                    i = e4;
                },
                None => {
                    out.append(input.substring_char(i, i + 1));
                    proof {
                        assert(input@.subrange(i as int, i as int + 1) =~= seq![
                            chars@[i as int],
                        ]);
                    }
                    i = i + 1;
                },
            }
        }
        proof {
            assert(ip4_scan(self.number, self.separator, chars@, i as int) == Seq::<
                char,
            >::empty());
            assert(out@ =~= ip4_apply_spec(self.number, self.separator, chars@));
        }
        out
    }
}

/// The run ends of the IPv4 address starting at `i`, computed.
fn try_ip4_at(chars: &Vec<char>, i: usize) -> (r: Option<(usize, usize, usize, usize)>)
    requires
        i < chars@.len(),
    ensures
        match r {
            Some(m) => ip4_match_at(chars@, i as int) == Some(
                (m.0 as int, m.1 as int, m.2 as int, m.3 as int),
            ) && i < m.3 && m.3 <= chars@.len(),
            None => ip4_match_at(chars@, i as int) is None,
        },
{
    let n = chars.len();
    if !digit(chars[i]) {
        return None;
    }
    if i > 0 && word(chars[i - 1]) {
        return None;
    }
    let e1 = digit_run_to(chars, i);
    proof {
        lemma_digit_run_end(chars@, i as int);
    }
    if !(e1 - i >= 1 && e1 - i <= 3 && e1 < n && chars[e1] == '.') {
        return None;
    }
    let e2 = digit_run_to(chars, e1 + 1);
    proof {
        lemma_digit_run_end(chars@, e1 as int + 1);
    }
    if !(e2 - (e1 + 1) >= 1 && e2 - (e1 + 1) <= 3 && e2 < n && chars[e2] == '.') {
        return None;
    }
    let e3 = digit_run_to(chars, e2 + 1);
    proof {
        lemma_digit_run_end(chars@, e2 as int + 1);
    }
    if !(e3 - (e2 + 1) >= 1 && e3 - (e2 + 1) <= 3 && e3 < n && chars[e3] == '.') {
        return None;
    }
    let e4 = digit_run_to(chars, e3 + 1);
    proof {
        lemma_digit_run_end(chars@, e3 as int + 1);
    }
    if !(e4 - (e3 + 1) >= 1 && e4 - (e3 + 1) <= 3) {
        return None;
    }
    if e4 < n && word(chars[e4]) {
        return None;
    }
    Some((e1, e2, e3, e4))
}

} // verus!
