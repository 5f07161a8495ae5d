//! The time highlighter.
//!
//! It recognizes `hh:mm:ss` at a word boundary, with one or two hour
//! digits, an optional leading `T` or whitespace character, optional
//! fractional digits (introduced by `.`, `,` or `:`, or glued directly to
//! the seconds), and an optional trailing `Z`.  Digit groups get the time
//! style, the separators between them the separator style, and the leading
//! `T`/space and the trailing `Z` the zone style.

use vstd::prelude::*;

use crate::config::DateTimeConfig;
use crate::highlighters::scan::boundary;
use crate::highlighters::scan::digit;
use crate::highlighters::scan::digit_run_end;
use crate::highlighters::scan::digit_run_to;
use crate::highlighters::scan::is_digit;
use crate::highlighters::scan::lemma_digit_run_end;
use crate::highlighters::scan::word;
use crate::highlighters::scan::word_at;
use crate::split_and_apply::to_chars;
use crate::style::wrap_seq;
use crate::style::Style;

verus! {

/// The characters the optional leading group accepts: `T` or ASCII
/// whitespace.
pub open spec fn is_t_or_space(c: char) -> bool {
    c == 'T' || c == ' ' || c == '\t' || c == '\n' || c == '\r' || c == '\u{b}' || c == '\u{c}'
}

/// The pieces of the clock part starting at `p`: the position of the first
/// colon (`he`, so the hours are `[p, he)`), whether a fractional
/// separator follows the seconds, the end of the fractional digits, and
/// whether a trailing `Z` follows.  Minutes are `[he + 1, he + 3)`, the
/// second colon is at `he + 3`, seconds are `[he + 4, he + 6)`.
pub open spec fn time_core(t: Seq<char>, p: int) -> Option<(int, bool, int, bool)> {
    if p < 0 {
        None
    } else {
        let he = if p + 2 < t.len() && is_digit(t[p]) && is_digit(t[p + 1]) && t[p + 2] == ':' {
            p + 2
        } else if p + 1 < t.len() && is_digit(t[p]) && t[p + 1] == ':' {
            p + 1
        } else {
            p - 1
        };
        if he < p {
            None
        } else if he + 6 <= t.len() && is_digit(t[he + 1]) && is_digit(t[he + 2]) && t[he + 3]
            == ':' && is_digit(t[he + 4]) && is_digit(t[he + 5]) {
            let q = he + 6;
            if q < t.len() && (t[q] == '.' || t[q] == ',' || t[q] == ':') {
                let fe = digit_run_end(t, q + 1);
                let hz = fe < t.len() && t[fe] == 'Z';
                Some((he, true, fe, hz))
            } else {
                let fe = digit_run_end(t, q);
                let hz = fe < t.len() && t[fe] == 'Z';
                Some((he, false, fe, hz))
            }
        } else {
            None
        }
    }
}

/// The time match starting at `i`, if one starts there: whether a leading
/// `T`/space is part of it, plus the clock pieces.
pub open spec fn time_match_at(t: Seq<char>, i: int) -> Option<(bool, int, bool, int, bool)> {
    if !(0 <= i < t.len()) || !boundary(t, i) {
        None
    } else if is_t_or_space(t[i]) {
        match time_core(t, i + 1) {
            Some(c) => Some((true, c.0, c.1, c.2, c.3)),
            None => None,
        }
    } else {
        match time_core(t, i) {
            Some(c) => Some((false, c.0, c.1, c.2, c.3)),
            None => None,
        }
    }
}

/// The position one past the last character of a time match.
pub open spec fn time_end(m: (bool, int, bool, int, bool)) -> int {
    if m.4 {
        m.3 + 1
    } else {
        m.3
    }
}

/// One matched time, painted piece by piece.
pub open spec fn time_paint(
    time: Style,
    zone: Style,
    sep: Style,
    t: Seq<char>,
    i: int,
    m: (bool, int, bool, int, bool),
) -> Seq<char> {
    let he = m.1;
    (if m.0 {
        wrap_seq(zone, seq![t[i]])
    } else {
        Seq::empty()
    }) + wrap_seq(time, t.subrange(if m.0 {
        i + 1
    } else {
        i
    }, he)) + wrap_seq(sep, seq![':']) + wrap_seq(time, t.subrange(he + 1, he + 3)) + wrap_seq(
        sep,
        seq![':'],
    ) + wrap_seq(time, t.subrange(he + 4, he + 6)) + (if m.2 {
        wrap_seq(sep, seq![t[he + 6]])
    } else {
        Seq::empty()
    }) + (if m.3 > (if m.2 {
        he + 7
    } else {
        he + 6
    }) {
        wrap_seq(time, t.subrange(if m.2 {
            he + 7
        } else {
            he + 6
        }, m.3))
    } else {
        Seq::empty()
    }) + (if m.4 {
        wrap_seq(zone, seq!['Z'])
    } else {
        Seq::empty()
    })
}

/// The time highlighter's output from position `i` on.
pub open spec fn time_scan(time: Style, zone: Style, sep: Style, t: Seq<char>, i: int) -> Seq<char>
    decreases t.len() - i,
{
    if !(0 <= i < t.len()) {
        Seq::empty()
    } else {
        match time_match_at(t, i) {
            Some(m) => if i < time_end(m) && time_end(m) <= t.len() {
                time_paint(time, zone, sep, t, i, m) + time_scan(time, zone, sep, t, time_end(m))
            } else {
                seq![t[i]] + time_scan(time, zone, sep, t, i + 1)
            },
            None => seq![t[i]] + time_scan(time, zone, sep, t, i + 1),
        }
    }
}

/// What the time highlighter produces for `t`.
pub open spec fn time_apply_spec(time: Style, zone: Style, sep: Style, t: Seq<char>) -> Seq<char> {
    time_scan(time, zone, sep, t, 0)
}

/// Paints clock times: digit groups, separators and zone markers each in
/// their own style.
pub struct TimeHighlighter {
    pub time: Style,
    pub zone: Style,
    pub separator: Style,
}

impl TimeHighlighter {
    /// A time highlighter from the date-and-time configuration.
    pub fn new(time_config: DateTimeConfig) -> (r: Self)
        ensures
            r.time == time_config.time,
            r.zone == time_config.zone,
            r.separator == time_config.separator,
    {
        TimeHighlighter {
            time: time_config.time,
            zone: time_config.zone,
            separator: time_config.separator,
        }
    }

    /// Apply the time highlighter to `input`.
    pub fn apply(&self, input: &str) -> (r: String)
        ensures
            r@ == time_apply_spec(self.time, self.zone, self.separator, input@),
    {
        let chars = to_chars(input);
        let n = chars.len();
        let mut out = String::new();
        let mut i: usize = 0;
        while i < n
            invariant
                n == chars@.len(),
                chars@ == input@,
                i <= n,
                out@ + time_scan(self.time, self.zone, self.separator, chars@, i as int)
                    == time_apply_spec(self.time, self.zone, self.separator, chars@),
            decreases n - i,
        {
            match try_time_at(&chars, i) {
                Some(m) => {
                    let painted = self.paint_time(input, Ghost(chars@), i, m);
                    out.append(painted.as_str());
                    let zend = if m.4 {
                        m.3 + 1
                    } else {
                        m.3
                    };
                    proof {
                        assert(zend as int == time_end(
                            (m.0, m.1 as int, m.2, m.3 as int, m.4),
                        ));
                    }
                    i = zend;
                },
                None => {
                    out.append(input.substring_char(i, i + 1));
                    proof {
                        assert(input@.subrange(i as int, i as int + 1) =~= seq![
                            chars@[i as int],
                        ]);
                    }
                    i = i + 1;
                },
            }
        }
        proof {
            assert(time_scan(self.time, self.zone, self.separator, chars@, i as int) == Seq::<
                char,
            >::empty());
            assert(out@ =~= time_apply_spec(self.time, self.zone, self.separator, chars@));
        }
        out
    }

    /// Paint one matched time, piece by piece.
    #[verifier::rlimit(60)]
    fn paint_time(
        &self,
        input: &str,
        Ghost(t): Ghost<Seq<char>>,
        i: usize,
        m: (bool, usize, bool, usize, bool),
    ) -> (r: String)
        requires
            t == input@,
            i < t.len(),
            time_match_at(t, i as int) == Some((m.0, m.1 as int, m.2, m.3 as int, m.4)),
            i < m.1,
            t.len() <= usize::MAX,
            m.1 + 6 <= m.3 <= t.len(),
            m.4 ==> m.3 < t.len(),
            m.0 ==> i + 1 < m.1,
            m.2 ==> m.1 + 7 <= m.3,
        ensures
            r@ == time_paint(
                self.time,
                self.zone,
                self.separator,
                t,
                i as int,
                (m.0, m.1 as int, m.2, m.3 as int, m.4),
            ),
    {
        let (has_t, he, fsep, fe, hz) = m;
        let hs = if has_t {
            i + 1
        } else {
            i
        };
        let mut out = String::new();
        if has_t {
            let p = self.zone.paint(input.substring_char(i, i + 1));
            out.append(p.as_str());
            proof {
                assert(input@.subrange(i as int, i as int + 1) =~= seq![t[i as int]]);
            }
        }
        let p1 = self.time.paint(input.substring_char(hs, he));
        out.append(p1.as_str());
        let c1 = self.separator.paint(":");
        out.append(c1.as_str());
        let p2 = self.time.paint(input.substring_char(he + 1, he + 3));
        out.append(p2.as_str());
        let c2 = self.separator.paint(":");
        out.append(c2.as_str());
        let p3 = self.time.paint(input.substring_char(he + 4, he + 6));
        out.append(p3.as_str());
        proof {
            reveal_strlit(":");
            assert(":"@ =~= seq![':']);
        }
        if fsep {
            let ps = self.separator.paint(input.substring_char(he + 6, he + 7));
            out.append(ps.as_str());
            proof {
                assert(input@.subrange(he as int + 6, he as int + 7) =~= seq![
                    t[he as int + 6],
                ]);
            }
            if fe > he + 7 {
                let pf = self.time.paint(input.substring_char(he + 7, fe));
                out.append(pf.as_str());
            }
        } else {
            if fe > he + 6 {
                let pf = self.time.paint(input.substring_char(he + 6, fe));
                out.append(pf.as_str());
            }
        }
        if hz {
            let pz = self.zone.paint(input.substring_char(fe, fe + 1));
            out.append(pz.as_str());
            proof {
                assert(input@.subrange(fe as int, fe as int + 1) =~= seq![t[fe as int]]);
                assert(t[fe as int] == 'Z');
            }
        }
        out
    }
}

/// Whether `c` is a `T` or an ASCII whitespace character.
fn t_or_space(c: char) -> (r: bool)
    ensures
        r == is_t_or_space(c),
{
    c == 'T' || c == ' ' || c == '\t' || c == '\n' || c == '\r' || c == '\u{b}' || c == '\u{c}'
}

/// The clock pieces starting at `p`, computed.
fn try_time_core(chars: &Vec<char>, p: usize) -> (r: Option<(usize, bool, usize, bool)>)
    requires
        p <= chars@.len(),
    ensures
        match r {
            Some(m) => time_core(chars@, p as int) == Some(
                (m.0 as int, m.1, m.2 as int, m.3),
            ) && p < m.0 && m.0 + 6 <= m.2 && m.2 <= chars@.len() && (m.3 ==> m.2
                < chars@.len()) && (m.1 ==> m.0 + 7 <= m.2),
            None => time_core(chars@, p as int) is None,
        },
{
    let n = chars.len();
    if p >= n || n - p < 7 {
        return None;
    }
    let he: usize = if p + 2 < n && digit(chars[p]) && digit(chars[p + 1]) && chars[p + 2]
        == ':' {
        p + 2
    } else if p + 1 < n && digit(chars[p]) && chars[p + 1] == ':' {
        p + 1
    } else {
        return None;
    };
    if !(he <= n - 6 && digit(chars[he + 1]) && digit(chars[he + 2]) && chars[he + 3] == ':'
        && digit(chars[he + 4]) && digit(chars[he + 5])) {
        return None;
    }
    let q = he + 6;
    if q < n && (chars[q] == '.' || chars[q] == ',' || chars[q] == ':') {
        let fe = digit_run_to(chars, q + 1);
        proof {
            lemma_digit_run_end(chars@, q as int + 1);
        }
        let hz = fe < n && chars[fe] == 'Z';
        Some((he, true, fe, hz))
    } else {
        let fe = digit_run_to(chars, q);
        proof {
            lemma_digit_run_end(chars@, q as int);
        }
        let hz = fe < n && chars[fe] == 'Z';
        Some((he, false, fe, hz))
    }
}

/// The time match starting at `i`, computed.
fn try_time_at(chars: &Vec<char>, i: usize) -> (r: Option<(bool, usize, bool, usize, bool)>)
    requires
        i < chars@.len(),
    ensures
        match r {
            Some(m) => time_match_at(chars@, i as int) == Some(
                (m.0, m.1 as int, m.2, m.3 as int, m.4),
            ) && i < m.1 && m.1 + 6 <= m.3 && m.3 <= chars@.len() && (m.4 ==> m.3
                < chars@.len()) && (m.0 ==> i + 1 < m.1) && (m.2 ==> m.1 + 7 <= m.3),
            None => time_match_at(chars@, i as int) is None,
        },
{
    let n = chars.len();
    let before = i > 0 && word(chars[i - 1]);
    let at = word(chars[i]);
    proof {
        assert(before == word_at(chars@, i as int - 1));
        assert(at == word_at(chars@, i as int));
    }
    if before == at {
        return None;
    }
    if t_or_space(chars[i]) {
        match try_time_core(chars, i + 1) {
            Some((he, fsep, fe, hz)) => Some((true, he, fsep, fe, hz)),
            None => None,
        }
    } else {
        match try_time_core(chars, i) {
            Some((he, fsep, fe, hz)) => Some((false, he, fsep, fe, hz)),
            None => None,
        }
    }
}

} // verus!
