//! The stateful quote highlighter.
//!
//! It colors the interior of a quoted span while preserving any escape
//! sequences a previous highlighter already embedded inside the quotes.
//! While inside a quote, candidate reset sequences are buffered: when a
//! buffered candidate turns out to be the canonical reset (an embedded span
//! just ended), the quote's own start sequence is re-emitted right after
//! it, so the quote's coloring resumes.  A buffered candidate that stops
//! matching the reset is flushed verbatim.  A partial candidate pending at
//! a closing quote or at the end of the input is flushed verbatim as well,
//! never dropped.

use vstd::prelude::*;

use crate::split_and_apply::to_chars;
use crate::style::reset_seq;
use crate::style::start_seq;
use crate::style::Style;

verus! {

/// How many times `c` occurs in `t`.
pub open spec fn count_char(t: Seq<char>, c: char) -> nat
    decreases t.len(),
{
    if t.len() == 0 {
        0
    } else {
        count_char(t.drop_last(), c) + (if t.last() == c {
            1nat
        } else {
            0nat
        })
    }
}

/// `a` is a prefix of `b`.
pub open spec fn is_pref(a: Seq<char>, b: Seq<char>) -> bool {
    a.len() <= b.len() && a == b.subrange(0, a.len() as int)
}

/// The empty sequence is a prefix of every sequence.
pub proof fn lemma_is_pref_empty()
    ensures
        forall|b: Seq<char>| #[trigger] is_pref(Seq::<char>::empty(), b),
{
    assert forall|b: Seq<char>| #[trigger] is_pref(Seq::<char>::empty(), b) by {
        assert(Seq::<char>::empty() =~= b.subrange(0, 0));
    }
}

/// One run of the quote state machine over `t`.  `inside` says whether the
/// scan is inside a quoted span; `buf` holds the characters that may still
/// turn out to be a canonical reset sequence.  Any buffer pending at the
/// end of the input is flushed verbatim.
pub open spec fn quote_machine(
    token: char,
    color: Seq<char>,
    t: Seq<char>,
    inside: bool,
    buf: Seq<char>,
) -> Seq<char>
    decreases t.len(),
{
    if t.len() == 0 {
        buf
    } else {
        let ch = t[0];
        let rest = t.drop_first();
        if !inside {
            if ch == token {
                color + seq![ch] + quote_machine(token, color, rest, true, Seq::empty())
            } else {
                seq![ch] + quote_machine(token, color, rest, false, Seq::empty())
            }
        } else {
            if ch == token {
                buf + seq![ch] + reset_seq() + quote_machine(
                    token,
                    color,
                    rest,
                    false,
                    Seq::empty(),
                )
            } else {
                let nbuf = buf.push(ch);
                if nbuf == reset_seq() {
                    reset_seq() + color + quote_machine(token, color, rest, true, Seq::empty())
                } else if is_pref(nbuf, reset_seq()) {
                    quote_machine(token, color, rest, true, nbuf)
                } else {
                    nbuf + quote_machine(token, color, rest, true, Seq::empty())
                }
            }
        }
    }
}

/// What the quote highlighter produces: the input itself when the quote
/// token count is odd (unbalanced quoting), else the state machine's
/// output.
pub open spec fn quote_apply_spec(token: char, color: Seq<char>, t: Seq<char>) -> Seq<char> {
    if count_char(t, token) % 2 == 1 {
        t
    } else {
        quote_machine(token, color, t, false, Seq::empty())
    }
}

/// A character that occurs nowhere in `t` is counted zero times.
pub proof fn lemma_count_char_zero(t: Seq<char>, c: char)
    requires
        forall|k: int| 0 <= k < t.len() ==> #[trigger] t[k] != c,
    ensures
        count_char(t, c) == 0,
    decreases t.len(),
{
    if t.len() > 0 {
        lemma_count_char_zero(t.drop_last(), c);
    }
}

/// The quote machine copies text that holds no quote token verbatim.
pub proof fn lemma_quote_machine_no_token(token: char, color: Seq<char>, t: Seq<char>)
    requires
        forall|k: int| 0 <= k < t.len() ==> #[trigger] t[k] != token,
    ensures
        quote_machine(token, color, t, false, Seq::empty()) == t,
    decreases t.len(),
{
    if t.len() > 0 {
        let rest = t.drop_first();
        assert(forall|k: int| 0 <= k < rest.len() ==> #[trigger] rest[k] != token);
        lemma_quote_machine_no_token(token, color, rest);
        assert(seq![t[0]] + rest =~= t);
    } else {
        assert(quote_machine(token, color, t, false, Seq::empty()) =~= t);
    }
}

/// Text without the quote token is left unchanged by the quote
/// highlighter.
pub proof fn lemma_quote_apply_no_token(token: char, color: Seq<char>, t: Seq<char>)
    requires
        forall|k: int| 0 <= k < t.len() ==> #[trigger] t[k] != token,
    ensures
        quote_apply_spec(token, color, t) == t,
{
    lemma_count_char_zero(t, token);
    lemma_quote_machine_no_token(token, color, t);
}

/// Highlights the interior of quoted spans with a fixed style, keeping any
/// escape sequences already present inside the quotes.
pub struct QuoteHighlighter {
    pub quotes_token: char,
    pub color: String,
}

impl QuoteHighlighter {
    /// A quote highlighter for `quotes_token` whose interior is colored by
    /// `style`.
    pub fn new(quotes_token: char, style: Style) -> (r: Self)
        ensures
            r.quotes_token == quotes_token,
            r.color@ == start_seq(style),
    {
        QuoteHighlighter { quotes_token, color: style.start_sequence() }
    }

    /// Apply the quote highlighter to `input`.  Input with an odd number of
    /// quote tokens is returned unchanged.
    pub fn apply(&self, input: &str) -> (r: String)
        ensures
            r@ == quote_apply_spec(self.quotes_token, self.color@, input@),
            count_char(input@, self.quotes_token) % 2 == 1 ==> r@ == input@,
    {
        let token = self.quotes_token;
        let chars = to_chars(input);
        let n = chars.len();
        let mut count: usize = 0;
        let mut i: usize = 0;
        while i < n
            invariant
                n == chars@.len(),
                chars@ == input@,
                i <= n,
                count == count_char(chars@.subrange(0, i as int), token),
                count <= i,
            decreases n - i,
        {
            if chars[i] == token {
                count = count + 1;
            }
            i = i + 1;
            proof {
                assert(chars@.subrange(0, i as int).drop_last() =~= chars@.subrange(
                    0,
                    i as int - 1,
                ));
            }
        }
        proof {
            assert(chars@.subrange(0, n as int) =~= input@);
        }
        if count % 2 == 1 {
            return input.to_owned();
        }
        let mut out = String::new();
        let mut inside = false;
        let mut bl: usize = 0;
        let reset = crate::split_and_apply::reset_chars();
        proof {
            lemma_is_pref_empty();
            assert(chars@.subrange(0, 0) =~= Seq::<char>::empty());
        }
        let mut i: usize = 0;
        while i < n
            invariant
                n == chars@.len(),
                chars@ == input@,
                i <= n,
                bl <= i,
                bl <= 3,
                !inside ==> bl == 0,
                reset@ == reset_seq(),
                is_pref(chars@.subrange(i - bl, i as int), reset_seq()),
                out@ + quote_machine(
                    token,
                    self.color@,
                    chars@.subrange(i as int, n as int),
                    inside,
                    chars@.subrange(i - bl, i as int),
                ) == quote_machine(token, self.color@, chars@, false, Seq::empty()),
            decreases n - i,
        {
            let ghost suffix = chars@.subrange(i as int, n as int);
            let ghost buf = chars@.subrange(i - bl, i as int);
            proof {
                lemma_is_pref_empty();
                assert(reset_seq().len() == 4);
                assert(suffix[0] == chars@[i as int]);
                assert(suffix.drop_first() =~= chars@.subrange(i as int + 1, n as int));
            }
            let ch = chars[i];
            if !inside {
                if ch == token {
                    out.append(self.color.as_str());
                    out.append(input.substring_char(i, i + 1));
                    proof {
                        assert(input@.subrange(i as int, i as int + 1) =~= seq![ch]);
                        assert(chars@.subrange(i as int + 1 - 0, i as int + 1) =~= Seq::<
                            char,
                        >::empty());
                    }
                    inside = true;
                } else {
                    out.append(input.substring_char(i, i + 1));
                    proof {
                        assert(input@.subrange(i as int, i as int + 1) =~= seq![ch]);
                        assert(chars@.subrange(i as int + 1 - 0, i as int + 1) =~= Seq::<
                            char,
                        >::empty());
                    }
                }
            } else {
                if ch == token {
                    out.append(input.substring_char(i - bl, i + 1));
                    out.append(crate::style::reset_str());
                    proof {
                        assert(input@.subrange(i - bl, i as int + 1) =~= buf + seq![ch]);
                        assert(chars@.subrange(i as int + 1 - 0, i as int + 1) =~= Seq::<
                            char,
                        >::empty());
                    }
                    inside = false;
                    bl = 0;
                } else {
                    let ghost nbuf = buf.push(ch);
                    proof {
                        assert(nbuf =~= chars@.subrange(i - bl, i as int + 1));
                    }
                    if bl + 1 == 4 && prefix_matches(&chars, &reset, i - bl, 4) {
                        proof {
                            assert(nbuf =~= reset_seq());
                        }
                        out.append(input.substring_char(i - bl, i + 1));
                        out.append(self.color.as_str());
                        proof {
                            assert(input@.subrange(i - bl, i as int + 1) == nbuf);
                            assert(chars@.subrange(i as int + 1 - 0, i as int + 1) =~= Seq::<
                                char,
                            >::empty());
                        }
                        bl = 0;
                    } else if bl + 1 < 4 && prefix_matches(&chars, &reset, i - bl, bl + 1) {
                        proof {
                            assert(is_pref(nbuf, reset_seq())) by {
                                assert(nbuf =~= reset_seq().subrange(0, bl + 1 as int));
                            }
                            assert(nbuf.len() == bl + 1);
                            assert(nbuf.len() != reset_seq().len());
                            assert(nbuf != reset_seq());
                            assert(chars@.subrange(i as int + 1 - (bl + 1), i as int + 1)
                                == nbuf);
                        }
                        bl = bl + 1;
                    } else {
                        proof {
                            if nbuf.len() == 4 {
                                assert(reset_seq().subrange(0, 4) =~= reset_seq());
                                assert(nbuf != reset_seq());
                                assert(!is_pref(nbuf, reset_seq()));
                            } else {
                                assert(nbuf.len() < 4);
                                assert(!(nbuf =~= reset_seq().subrange(0, nbuf.len() as int))
                                    ==> !is_pref(nbuf, reset_seq()));
                            }
                            assert(!is_pref(nbuf, reset_seq()));
                        }
                        out.append(input.substring_char(i - bl, i + 1));
                        proof {
                            assert(input@.subrange(i - bl, i as int + 1) == nbuf);
                            assert(chars@.subrange(i as int + 1 - 0, i as int + 1) =~= Seq::<
                                char,
                            >::empty());
                        }
                        bl = 0;
                    }
                }
            }
            i = i + 1;
            proof {
                assert(is_pref(chars@.subrange(i - bl, i as int), reset_seq()));
            }
        }
        if bl > 0 {
            out.append(input.substring_char(n - bl, n));
        }
        proof {
            assert(chars@.subrange(n as int, n as int) =~= Seq::<char>::empty());
            assert(quote_machine(
                token,
                self.color@,
                chars@.subrange(n as int, n as int),
                inside,
                chars@.subrange(n - bl, n as int),
            ) == chars@.subrange(n - bl, n as int));
            if bl == 0 {
                assert(chars@.subrange(n - bl, n as int) =~= Seq::<char>::empty());
            }
            assert(out@ == quote_machine(token, self.color@, chars@, false, Seq::empty()));
            assert(count_char(input@, token) % 2 != 1);
        }
        out
    }
}

/// Whether the `l` characters of `chars` starting at `s` equal the first
/// `l` characters of `pat`.
fn prefix_matches(chars: &Vec<char>, pat: &Vec<char>, s: usize, l: usize) -> (r: bool)
    requires
        s + l <= chars@.len(),
        l <= pat@.len(),
    ensures
        r == (chars@.subrange(s as int, s + l) == pat@.subrange(0, l as int)),
{
    let cl = chars.len();
    let mut k: usize = 0;
    while k < l
        invariant
            s + l <= chars@.len(),
            cl == chars@.len(),
            l <= pat@.len(),
            k <= l,
            forall|j: int| 0 <= j < k ==> chars@[s + j] == pat@[j],
        decreases l - k,
    {
        if chars[s + k] != pat[k] {
            proof {
                assert(chars@.subrange(s as int, s + l) != pat@.subrange(0, l as int)) by {
                    assert(chars@.subrange(s as int, s + l)[k as int] != pat@.subrange(
                        0,
                        l as int,
                    )[k as int]);
                }
            }
            return false;
        }
        k = k + 1;
    }
    proof {
        assert(chars@.subrange(s as int, s + l) =~= pat@.subrange(0, l as int));
    }
    true
}

} // verus!
