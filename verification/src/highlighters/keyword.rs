//! The keyword highlighter.
//!
//! It wraps every occurrence of a configured word in one style.  A word
//! matches only at word boundaries on both sides; where several words could
//! match at the same position, the first one in the configured list wins.
//! Only escape sequences are inserted: the match text itself is wrapped
//! unchanged.

use vstd::prelude::*;

use crate::config::KeywordConfig;
use crate::highlighters::scan::boundary;
use crate::highlighters::scan::word;
use crate::highlighters::scan::word_at;
use crate::split_and_apply::to_chars;
use crate::style::wrap_seq;
use crate::style::Style;

verus! {

/// Word `w` matches in `t` at position `i`, with word boundaries on both
/// sides.  The empty word never matches.
pub open spec fn kw_fits(t: Seq<char>, i: int, w: Seq<char>) -> bool {
    &&& w.len() >= 1
    &&& 0 <= i
    &&& i + w.len() <= t.len()
    &&& t.subrange(i, i + w.len() as int) == w
    &&& boundary(t, i)
    &&& boundary(t, i + w.len() as int)
}

/// The length of the first word of `ws` (from index `j` on) that matches
/// at position `i`.
pub open spec fn kw_first(ws: Seq<Seq<char>>, t: Seq<char>, i: int, j: int) -> Option<int>
    decreases ws.len() - j,
{
    if !(0 <= j < ws.len()) {
        None
    } else if kw_fits(t, i, ws[j]) {
        Some(ws[j].len() as int)
    } else {
        kw_first(ws, t, i, j + 1)
    }
}

/// The length of the keyword match at position `i`, if any.
pub open spec fn keyword_match_at(ws: Seq<Seq<char>>, t: Seq<char>, i: int) -> Option<int> {
    kw_first(ws, t, i, 0)
}

/// The keyword highlighter's output from position `i` on.
pub open spec fn keyword_scan(ws: Seq<Seq<char>>, style: Style, t: Seq<char>, i: int) -> Seq<char>
    decreases t.len() - i,
{
    if !(0 <= i < t.len()) {
        Seq::empty()
    } else {
        match keyword_match_at(ws, t, i) {
            Some(l) => if 1 <= l <= t.len() - i {
                wrap_seq(style, t.subrange(i, i + l)) + keyword_scan(ws, style, t, i + l)
            } else {
                seq![t[i]] + keyword_scan(ws, style, t, i + 1)
            },
            None => seq![t[i]] + keyword_scan(ws, style, t, i + 1),
        }
    }
}

/// What the keyword highlighter produces for `t`.
pub open spec fn keyword_apply_spec(ws: Seq<Seq<char>>, style: Style, t: Seq<char>) -> Seq<char> {
    keyword_scan(ws, style, t, 0)
}

/// When no configured word occurs anywhere in `t` as a substring, the
/// keyword highlighter leaves `t` unchanged.
pub proof fn lemma_kw_first_none(ws: Seq<Seq<char>>, t: Seq<char>, i: int, j: int)
    requires
        forall|w: int, p: int|
            0 <= w < ws.len() ==> !#[trigger] crate::split_and_apply::occurs_at(t, ws[w], p),
    ensures
        kw_first(ws, t, i, j) is None,
    decreases ws.len() - j,
{
    if 0 <= j < ws.len() {
        if kw_fits(t, i, ws[j]) {
            assert(crate::split_and_apply::occurs_at(t, ws[j], i));
        }
        lemma_kw_first_none(ws, t, i, j + 1);
    }
}

/// A text in which no configured word occurs is left unchanged.
pub proof fn lemma_keyword_scan_no_word(ws: Seq<Seq<char>>, style: Style, t: Seq<char>, i: int)
    requires
        0 <= i <= t.len(),
        forall|w: int, p: int|
            0 <= w < ws.len() ==> !#[trigger] crate::split_and_apply::occurs_at(t, ws[w], p),
    ensures
        keyword_scan(ws, style, t, i) == t.subrange(i, t.len() as int),
    decreases t.len() - i,
{
    if i < t.len() {
        lemma_kw_first_none(ws, t, i, 0);
        lemma_keyword_scan_no_word(ws, style, t, i + 1);
        assert(seq![t[i]] + t.subrange(i + 1, t.len() as int) =~= t.subrange(i, t.len() as int));
    } else {
        assert(t.subrange(i, t.len() as int) =~= Seq::<char>::empty());
    }
}

/// Wraps configured words in one style, at word boundaries.
pub struct KeywordHighlighter {
    pub words: Vec<String>,
    pub style: Style,
}

impl KeywordHighlighter {
    /// A keyword highlighter from one keyword configuration.
    pub fn new(keyword_config: KeywordConfig) -> (r: Self)
        ensures
            r.words == keyword_config.words,
            r.style == keyword_config.style,
    {
        KeywordHighlighter { words: keyword_config.words, style: keyword_config.style }
    }

    /// Apply the keyword highlighter to `input`.
    pub fn apply(&self, input: &str) -> (r: String)
        ensures
            r@ == keyword_apply_spec(self.words.deep_view(), self.style, input@),
    {
        let ghost ws = self.words.deep_view();
        let mut word_chars: Vec<Vec<char>> = Vec::new();
        let mut wi: usize = 0;
        while wi < self.words.len()
            invariant
                wi <= self.words@.len(),
                ws == self.words.deep_view(),
                word_chars@.len() == wi,
                forall|k: int| 0 <= k < wi ==> word_chars@[k]@ == ws[k],
            decreases self.words@.len() - wi,
        {
            proof {
                assert(self.words.deep_view()[wi as int] == self.words@[wi as int]@);
            }
            word_chars.push(to_chars(self.words[wi].as_str()));
            wi = wi + 1;
        }
        let chars = to_chars(input);
        let n = chars.len();
        let mut out = String::new();
        let mut i: usize = 0;
        while i < n
            invariant
                n == chars@.len(),
                chars@ == input@,
                i <= n,
                ws == self.words.deep_view(),
                word_chars@.len() == ws.len(),
                forall|k: int| 0 <= k < ws.len() ==> word_chars@[k]@ == ws[k],
                out@ + keyword_scan(ws, self.style, chars@, i as int) == keyword_apply_spec(
                    ws,
                    self.style,
                    chars@,
                ),
            decreases n - i,
        {
            match try_keyword_at(&chars, &word_chars, Ghost(ws), i) {
                Some(l) => {
                    let piece = input.substring_char(i, i + l);
                    let painted = self.style.paint(piece);
                    out.append(painted.as_str());
                    i = i + l;
                },
                None => {
                    out.append(input.substring_char(i, i + 1));
                    proof {
                        assert(input@.subrange(i as int, i as int + 1) =~= seq![
                            chars@[i as int],
                        ]);
                    }
                    i = i + 1;
                },
            }
        }
        proof {
            assert(keyword_scan(ws, self.style, chars@, i as int) == Seq::<char>::empty());
            assert(out@ =~= keyword_apply_spec(ws, self.style, chars@));
        }
        out
    }
}

/// Whether `t` holds a word boundary just before position `k`.
fn boundary_check(chars: &Vec<char>, k: usize) -> (r: bool)
    requires
        k <= chars@.len(),
    ensures
        r == boundary(chars@, k as int),
{
    let n = chars.len();
    let before = k > 0 && word(chars[k - 1]);
    let at = k < n && word(chars[k]);
    proof {
        assert(before == word_at(chars@, k as int - 1));
        assert(at == word_at(chars@, k as int));
    }
    before != at
}

/// Whether word `w` matches at position `i` with boundaries on both sides.
fn word_fits(chars: &Vec<char>, w: &Vec<char>, i: usize) -> (r: bool)
    requires
        i <= chars@.len(),
    ensures
        r == kw_fits(chars@, i as int, w@),
{
    let n = chars.len();
    let l = w.len();
    if l == 0 {
        return false;
    }
    if l > n - i {
        return false;
    }
    let mut k: usize = 0;
    while k < l
        invariant
            i + l <= chars@.len(),
            n == chars@.len(),
            l == w@.len(),
            k <= l,
            forall|j: int| 0 <= j < k ==> chars@[i + j] == w@[j],
        decreases l - k,
    {
        if chars[i + k] != w[k] {
            proof {
                assert(chars@.subrange(i as int, i + l) != w@) by {
                    assert(chars@.subrange(i as int, i + l)[k as int] != w@[k as int]);
                }
            }
            return false;
        }
        k = k + 1;
    }
    proof {
        assert(chars@.subrange(i as int, i + l) =~= w@);
    }
    boundary_check(chars, i) && boundary_check(chars, i + l)
}

/// The length of the first configured word matching at position `i`.
fn try_keyword_at(
    chars: &Vec<char>,
    words: &Vec<Vec<char>>,
    Ghost(ws): Ghost<Seq<Seq<char>>>,
    i: usize,
) -> (r: Option<usize>)
    requires
        i < chars@.len(),
        words@.len() == ws.len(),
        forall|k: int| 0 <= k < ws.len() ==> words@[k]@ == ws[k],
    ensures
        match r {
            Some(l) => keyword_match_at(ws, chars@, i as int) == Some(l as int) && 1 <= l && i + l
                <= chars@.len(),
            None => keyword_match_at(ws, chars@, i as int) is None,
        },
{
    let mut j: usize = 0;
    while j < words.len()
        invariant
            i < chars@.len(),
            j <= words@.len(),
            ws.len() == words@.len(),
            forall|k: int| 0 <= k < ws.len() ==> words@[k]@ == ws[k],
            kw_first(ws, chars@, i as int, 0) == kw_first(ws, chars@, i as int, j as int),
        decreases words@.len() - j,
    {
        proof {
            assert(ws[j as int] == words@[j as int]@);
        }
        if word_fits(chars, &words[j], i) {
            let l = words[j].len();
            return Some(l);
        }
        j = j + 1;
    }
    None
}

} // verus!
