//! The IPv6 highlighter.
//!
//! It recognizes at least three groups of one to four hexadecimal digits,
//! each followed by one or two colons, and a final hexadecimal group.
//! When the final group is missing, the last group's own digits serve as
//! the final element and its colons fall outside the match.  A span with
//! no hexadecimal letter (such as a clock time) is consumed but left
//! unpainted; otherwise digits, letters and separators are painted
//! character by character.

use vstd::prelude::*;

use crate::config::IpV6Config;
use crate::highlighters::scan::hex_letter;
use crate::highlighters::scan::hex_run_end;
use crate::highlighters::scan::hex_run_to;
use crate::highlighters::scan::is_digit;
use crate::highlighters::scan::is_hex_letter;
use crate::highlighters::scan::lemma_hex_run_end;
use crate::split_and_apply::to_chars;
use crate::style::wrap_seq;
use crate::style::Style;

verus! {

/// The end of the run of colons starting at `i`.
pub open spec fn colon_run_end(t: Seq<char>, i: int) -> int
    decreases t.len() - i,
{
    if i < 0 || i >= t.len() || t[i] != ':' {
        i
    } else {
        colon_run_end(t, i + 1)
    }
}

/// Bounds of a colon run.
pub proof fn lemma_colon_run_end(t: Seq<char>, i: int)
    requires
        0 <= i <= t.len(),
    ensures
        i <= colon_run_end(t, i) <= t.len(),
    decreases t.len() - i,
{
    if i < t.len() && t[i] == ':' {
        lemma_colon_run_end(t, i + 1);
    }
}

/// The greedy scan of `group + colons` repetitions starting at `p`:
/// how many repetitions there are, where they end, and where the last
/// repetition's hexadecimal group ends.
pub open spec fn ip6_rep_scan(t: Seq<char>, p: int) -> (int, int, int)
    decreases t.len() - p,
    when 0 <= p <= t.len()
    via ip6_rep_scan_decreases
{
    let he = hex_run_end(t, p);
    let hl = he - p;
    if 1 <= hl <= 4 {
        let ce = colon_run_end(t, he);
        let cc = ce - he;
        if cc >= 1 {
            let consumed = he + (if cc >= 2 {
                2int
            } else {
                1int
            });
            let inner = ip6_rep_scan(t, consumed);
            (inner.0 + 1, inner.1, if inner.0 > 0 {
                inner.2
            } else {
                he
            })
        } else {
            (0, p, p)
        }
    } else {
        (0, p, p)
    }
}

#[via_fn]
proof fn ip6_rep_scan_decreases(t: Seq<char>, p: int) {
    lemma_hex_run_end(t, p);
    lemma_colon_run_end(t, hex_run_end(t, p));
}

/// Bounds of the repetition scan.
pub proof fn lemma_ip6_rep_scan(t: Seq<char>, p: int)
    requires
        0 <= p <= t.len(),
    ensures
        p <= ip6_rep_scan(t, p).1 <= t.len(),
        ip6_rep_scan(t, p).0 >= 0,
        ip6_rep_scan(t, p).0 > 0 ==> p < ip6_rep_scan(t, p).2 <= ip6_rep_scan(t, p).1,
        ip6_rep_scan(t, p).0 == 0 ==> ip6_rep_scan(t, p).1 == p && ip6_rep_scan(t, p).2 == p,
    decreases t.len() - p,
{
    lemma_hex_run_end(t, p);
    lemma_colon_run_end(t, hex_run_end(t, p));
    let he = hex_run_end(t, p);
    let hl = he - p;
    if 1 <= hl <= 4 {
        let ce = colon_run_end(t, he);
        let cc = ce - he;
        if cc >= 1 {
            let consumed = he + (if cc >= 2 {
                2int
            } else {
                1int
            });
            lemma_ip6_rep_scan(t, consumed);
        }
    }
}

/// The end of the IPv6 match starting at `i`, if one starts there.
pub open spec fn ip6_match_at(t: Seq<char>, i: int) -> Option<int> {
    if !(0 <= i <= t.len()) {
        None
    } else {
        let scan = ip6_rep_scan(t, i);
        let r = scan.0;
        let p = scan.1;
        let lh = scan.2;
        let fl = hex_run_end(t, p) - p;
        if fl >= 1 {
            if r >= 3 {
                Some(p + (if fl >= 4 {
                    4int
                } else {
                    fl
                }))
            } else {
                None
            }
        } else {
            if r >= 4 {
                Some(lh)
            } else {
                None
            }
        }
    }
}

/// Some position in `[a, b)` holds a hexadecimal letter.
pub open spec fn letter_in(t: Seq<char>, a: int, b: int) -> bool {
    exists|k: int| a <= k < b && is_hex_letter(t[k])
}

/// The characters of `s` from index `k` on: digits in the number style,
/// letters in the letter style, colons and dots in the separator style.
pub open spec fn ip6_paint_from(
    number: Style,
    letter: Style,
    sep: Style,
    s: Seq<char>,
    k: int,
) -> Seq<char>
    decreases s.len() - k,
{
    if !(0 <= k < s.len()) {
        Seq::empty()
    } else {
        (if is_digit(s[k]) {
            wrap_seq(number, seq![s[k]])
        } else if is_hex_letter(s[k]) {
            wrap_seq(letter, seq![s[k]])
        } else if s[k] == ':' || s[k] == '.' {
            wrap_seq(sep, seq![s[k]])
        } else {
            seq![s[k]]
        }) + ip6_paint_from(number, letter, sep, s, k + 1)
    }
}

/// One matched span: painted per character when it holds a hexadecimal
/// letter, verbatim otherwise.
pub open spec fn ip6_replace(
    number: Style,
    letter: Style,
    sep: Style,
    t: Seq<char>,
    i: int,
    end: int,
) -> Seq<char> {
    if letter_in(t, i, end) {
        ip6_paint_from(number, letter, sep, t.subrange(i, end), 0)
    } else {
        t.subrange(i, end)
    }
}

/// The IPv6 highlighter's output from position `i` on.
pub open spec fn ip6_scan(number: Style, letter: Style, sep: Style, t: Seq<char>, i: int) -> Seq<
    char,
>
    decreases t.len() - i,
{
    if !(0 <= i < t.len()) {
        Seq::empty()
    } else {
        match ip6_match_at(t, i) {
            Some(end) => if i < end && end <= t.len() {
                ip6_replace(number, letter, sep, t, i, end) + ip6_scan(number, letter, sep, t, end)
            } else {
                seq![t[i]] + ip6_scan(number, letter, sep, t, i + 1)
            },
            None => seq![t[i]] + ip6_scan(number, letter, sep, t, i + 1),
        }
    }
}

/// What the IPv6 highlighter produces for `t`.
pub open spec fn ip6_apply_spec(number: Style, letter: Style, sep: Style, t: Seq<char>) -> Seq<
    char,
> {
    ip6_scan(number, letter, sep, t, 0)
}

/// Paints IPv6 addresses character by character: digits, letters and
/// separators each in their own style.
pub struct IpV6Highlighter {
    pub number: Style,
    pub letter: Style,
    pub separator: Style,
}

impl IpV6Highlighter {
    /// An IPv6 highlighter from its configuration.
    pub fn new(config: IpV6Config) -> (r: Self)
        ensures
            r.number == config.number,
            r.letter == config.letter,
            r.separator == config.separator,
    {
        IpV6Highlighter { number: config.number, letter: config.letter, separator: config.separator }
    }

    /// Apply the IPv6 highlighter to `input`.
    pub fn apply(&self, input: &str) -> (r: String)
        ensures
            r@ == ip6_apply_spec(self.number, self.letter, self.separator, input@),
    {
        let chars = to_chars(input);
        let n = chars.len();
        let mut out = String::new();
        let mut i: usize = 0;
        while i < n
            invariant
                n == chars@.len(),
                chars@ == input@,
                i <= n,
                out@ + ip6_scan(self.number, self.letter, self.separator, chars@, i as int)
                    == ip6_apply_spec(self.number, self.letter, self.separator, chars@),
            decreases n - i,
        {
            match try_ip6_at(&chars, i) {
                Some(end) => {
                    let ghost piece = chars@.subrange(i as int, end as int);
                    if has_letter(&chars, i, end) {
                        let mut p: usize = i;
                        while p < end
                            invariant
                                n == chars@.len(),
                                chars@ == input@,
                                i <= p <= end,
                                end <= n,
                                piece == chars@.subrange(i as int, end as int),
                                out@ + ip6_paint_from(
                                    self.number,
                                    self.letter,
                                    self.separator,
                                    piece,
                                    p - i,
                                ) + ip6_scan(self.number, self.letter, self.separator, chars@, end as int)
                                    == ip6_apply_spec(self.number, self.letter, self.separator, chars@),
                            decreases end - p,
                        {
                            let c = chars[p];
                            proof {
                                assert(piece[p - i] == c);
                                assert(input@.subrange(p as int, p as int + 1) =~= seq![c]);
                            }
                            let cs = input.substring_char(p, p + 1);
                            let painted = if digit_c(c) {
                                self.number.paint(cs)
                            } else if hex_letter(c) {
                                self.letter.paint(cs)
                            } else if c == ':' || c == '.' {
                                self.separator.paint(cs)
                            } else {
                                cs.to_owned()
                            };
                            out.append(painted.as_str());
                            p = p + 1;
                        }
                    } else {
                        out.append(input.substring_char(i, end));
                    }
                    i = end;
                },
                None => {
                    out.append(input.substring_char(i, i + 1));
                    proof {
                        assert(input@.subrange(i as int, i as int + 1) =~= seq![
                            chars@[i as int],
                        ]);
                    }
                    i = i + 1;
                },
            }
        }
        proof {
            assert(ip6_scan(self.number, self.letter, self.separator, chars@, i as int) == Seq::<
                char,
            >::empty());
            assert(out@ =~= ip6_apply_spec(self.number, self.letter, self.separator, chars@));
        }
        out
    }
}

/// An ASCII decimal digit (local alias).
fn digit_c(c: char) -> (r: bool)
    ensures
        r == is_digit(c),
{
    crate::highlighters::scan::digit(c)
}

/// The end of the colon run starting at `i`, computed.
fn colon_run_to(chars: &Vec<char>, i: usize) -> (e: usize)
    requires
        i <= chars@.len(),
    ensures
        e as int == colon_run_end(chars@, i as int),
        i <= e <= chars@.len(),
{
    let n = chars.len();
    let mut j = i;
    while j < n && chars[j] == ':'
        invariant
            i <= j <= n,
            n == chars@.len(),
            colon_run_end(chars@, i as int) == colon_run_end(chars@, j as int),
        decreases n - j,
    {
        j = j + 1;
    }
    j
}

/// Whether a hexadecimal letter occurs in `[a, b)`, computed.
fn has_letter(chars: &Vec<char>, a: usize, b: usize) -> (r: bool)
    requires
        a <= b <= chars@.len(),
    ensures
        r == letter_in(chars@, a as int, b as int),
{
    let mut k = a;
    while k < b
        invariant
            a <= k <= b,
            b <= chars@.len(),
            forall|j: int| a <= j < k ==> !is_hex_letter(chars@[j]),
        decreases b - k,
    {
        if hex_letter(chars[k]) {
            proof {
                assert(letter_in(chars@, a as int, b as int));
            }
            return true;
        }
        k = k + 1;
    }
    proof {
        assert(!letter_in(chars@, a as int, b as int));
    }
    false
}

/// The end of the IPv6 match starting at `i`, computed.
fn try_ip6_at(chars: &Vec<char>, i: usize) -> (r: Option<usize>)
    requires
        i < chars@.len(),
    ensures
        match r {
            Some(end) => ip6_match_at(chars@, i as int) == Some(end as int) && i < end && end
                <= chars@.len(),
            None => ip6_match_at(chars@, i as int) is None,
        },
{
    let n = chars.len();
    let mut p: usize = i;
    let mut reps: usize = 0;
    let mut lh: usize = i;
    proof {
        lemma_ip6_rep_scan(chars@, i as int);
    }
    loop
        invariant_except_break
            n == chars@.len(),
            i <= p <= n,
            reps <= p,
            ip6_rep_scan(chars@, i as int).0 == reps + ip6_rep_scan(chars@, p as int).0,
            ip6_rep_scan(chars@, i as int).1 == ip6_rep_scan(chars@, p as int).1,
            ip6_rep_scan(chars@, i as int).2 == (if ip6_rep_scan(chars@, p as int).0 > 0 {
                ip6_rep_scan(chars@, p as int).2
            } else {
                lh as int
            }),
            reps > 0 ==> i < lh <= p,
        ensures
            n == chars@.len(),
            i <= p <= n,
            ip6_rep_scan(chars@, i as int).0 == reps as int,
            ip6_rep_scan(chars@, i as int).1 == p as int,
            reps > 0 ==> ip6_rep_scan(chars@, i as int).2 == lh as int && i < lh <= p,
        decreases n - p,
    {
        proof {
            lemma_hex_run_end(chars@, p as int);
        }
        let he = hex_run_to(chars, p);
        let hl = he - p;
        if !(1 <= hl && hl <= 4) {
            proof {
                assert(ip6_rep_scan(chars@, p as int) == (0int, p as int, p as int));
            }
            break;
        }
        proof {
            lemma_colon_run_end(chars@, he as int);
        }
        let ce = colon_run_to(chars, he);
        let cc = ce - he;
        if cc == 0 {
            proof {
                assert(ip6_rep_scan(chars@, p as int) == (0int, p as int, p as int));
            }
            break;
        }
        let consumed = he + (if cc >= 2 {
            2
        } else {
            1
        });
        proof {
            lemma_ip6_rep_scan(chars@, consumed as int);
            assert(ip6_rep_scan(chars@, p as int).0 == ip6_rep_scan(
                chars@,
                consumed as int,
            ).0 + 1);
        }
        lh = he;
        reps = reps + 1;
        p = consumed;
    }
    let fe = hex_run_to(chars, p);
    proof {
        lemma_hex_run_end(chars@, p as int);
    }
    let fl = fe - p;
    if fl >= 1 {
        if reps >= 3 {
            Some(p + (if fl >= 4 {
                4
            } else {
                fl
            }))
        } else {
            None
        }
    } else {
        if reps >= 4 {
            Some(lh)
        } else {
            None
        }
    }
}

} // verus!
