//! The Unix path highlighter.
//!
//! It recognizes absolute and home-relative paths: a leading `~`, `/` or
//! `.` followed by a run of path characters that contains at least one
//! further slash.  A recognized span whose shape is not a well-formed path
//! start (a dot not followed by a slash, or a double slash) is consumed but
//! left unpainted; otherwise every slash gets the separator style and every
//! other character the segment style.

use vstd::prelude::*;

use crate::config::UnixPathConfig;
use crate::highlighters::scan::is_word;
use crate::highlighters::scan::word;
use crate::split_and_apply::to_chars;
use crate::style::wrap_seq;
use crate::style::Style;

verus! {

/// A character a path may hold: word character, dot, slash or dash.
pub open spec fn is_path_char(c: char) -> bool {
    is_word(c) || c == '.' || c == '/' || c == '-'
}

/// The end of the run of path characters starting at `i`.
pub open spec fn path_run_end(t: Seq<char>, i: int) -> int
    decreases t.len() - i,
{
    if i < 0 || i >= t.len() || !is_path_char(t[i]) {
        i
    } else {
        path_run_end(t, i + 1)
    }
}

/// Some position in `[a, b)` holds a slash.
pub open spec fn slash_in(t: Seq<char>, a: int, b: int) -> bool {
    exists|k: int| a <= k < b && t[k] == '/'
}

/// The length of the path starting at `i`, if one starts there: a leading
/// `~`, `/` or `.`, then the maximal run of path characters, which must
/// contain a further slash.
pub open spec fn path_match_at(t: Seq<char>, i: int) -> Option<int> {
    if !(0 <= i < t.len()) || !(t[i] == '~' || t[i] == '/' || t[i] == '.') {
        None
    } else {
        let e = path_run_end(t, i + 1);
        if slash_in(t, i + 1, e) {
            Some(e - i)
        } else {
            None
        }
    }
}

/// Whether a matched span is painted at all: it must start like a path
/// (`/`, `~`, or `./`) and not with a double slash.
pub open spec fn path_valid(s: Seq<char>) -> bool {
    &&& (s[0] == '/' || s[0] == '~' || (s[0] == '.' && s.len() > 1 && s[1] == '/'))
    &&& !(s[0] == '/' && s.len() > 1 && s[1] == '/')
}

/// The characters of `s` from index `k` on: slashes in the separator
/// style, everything else in the segment style.
pub open spec fn path_paint_from(segment: Style, separator: Style, s: Seq<char>, k: int) -> Seq<
    char,
>
    decreases s.len() - k,
{
    if !(0 <= k < s.len()) {
        Seq::empty()
    } else {
        (if s[k] == '/' {
            wrap_seq(separator, seq![s[k]])
        } else {
            wrap_seq(segment, seq![s[k]])
        }) + path_paint_from(segment, separator, s, k + 1)
    }
}

/// One matched span: painted per character when it is a well-formed path,
/// verbatim otherwise.
pub open spec fn path_paint(segment: Style, separator: Style, s: Seq<char>) -> Seq<char> {
    if path_valid(s) {
        path_paint_from(segment, separator, s, 0)
    } else {
        s
    }
}

/// The Unix path highlighter's output from position `i` on.
pub open spec fn path_scan(segment: Style, separator: Style, t: Seq<char>, i: int) -> Seq<char>
    decreases t.len() - i,
{
    if !(0 <= i < t.len()) {
        Seq::empty()
    } else {
        match path_match_at(t, i) {
            Some(l) => if 1 <= l <= t.len() - i {
                path_paint(segment, separator, t.subrange(i, i + l)) + path_scan(
                    segment,
                    separator,
                    t,
                    i + l,
                )
            } else {
                seq![t[i]] + path_scan(segment, separator, t, i + 1)
            },
            None => seq![t[i]] + path_scan(segment, separator, t, i + 1),
        }
    }
}

/// What the Unix path highlighter produces for `t`.
pub open spec fn path_apply_spec(segment: Style, separator: Style, t: Seq<char>) -> Seq<char> {
    path_scan(segment, separator, t, 0)
}

/// Paints Unix paths: slashes in the separator style, path segments in the
/// segment style.
pub struct UnixPathHighlighter {
    pub segment: Style,
    pub separator: Style,
}

impl UnixPathHighlighter {
    /// A Unix path highlighter from its configuration.
    pub fn new(config: UnixPathConfig) -> (r: Self)
        ensures
            r.segment == config.segment,
            r.separator == config.separator,
    {
        UnixPathHighlighter { segment: config.segment, separator: config.separator }
    }

    /// Apply the Unix path highlighter to `input`.
    pub fn apply(&self, input: &str) -> (r: String)
        ensures
            r@ == path_apply_spec(self.segment, self.separator, input@),
    {
        let chars = to_chars(input);
        let n = chars.len();
        let mut out = String::new();
        let mut i: usize = 0;
        while i < n
            invariant
                n == chars@.len(),
                chars@ == input@,
                i <= n,
                out@ + path_scan(self.segment, self.separator, chars@, i as int)
                    == path_apply_spec(self.segment, self.separator, chars@),
            decreases n - i,
        {
            match try_path_at(&chars, i) {
                Some(l) => {
                    let ghost piece = chars@.subrange(i as int, i as int + l);
                    let valid = {
                        let c0 = chars[i];
                        let ok_start = c0 == '/' || c0 == '~' || (c0 == '.' && l > 1 && chars[i
                            + 1] == '/');
                        let double = c0 == '/' && l > 1 && chars[i + 1] == '/';
                        ok_start && !double
                    };
                    proof {
                        assert(piece[0] == chars@[i as int]);
                        if l > 1 {
                            assert(piece[1] == chars@[i as int + 1]);
                        }
                        assert(valid == path_valid(piece));
                    }
                    if valid {
                        let mut p: usize = 0;
                        while p < l
                            invariant
                                n == chars@.len(),
                                chars@ == input@,
                                i + l <= n,
                                p <= l,
                                piece == chars@.subrange(i as int, i as int + l),
                                out@ + path_paint_from(
                                    self.segment,
                                    self.separator,
                                    piece,
                                    p as int,
                                ) + path_scan(self.segment, self.separator, chars@, i + l)
                                    == path_apply_spec(self.segment, self.separator, chars@),
                            decreases l - p,
                        {
                            let c = chars[i + p];
                            proof {
                                assert(piece[p as int] == c);
                                assert(input@.subrange(i + p, i + p + 1) =~= seq![c]);
                            }
                            let cs = input.substring_char(i + p, i + p + 1);
                            let painted = if c == '/' {
                                self.separator.paint(cs)
                            } else {
                                self.segment.paint(cs)
                            };
                            out.append(painted.as_str());
                            p = p + 1;
                        }
                    } else {
                        out.append(input.substring_char(i, i + l));
                    }
                    i = i + l;
                },
                None => {
                    out.append(input.substring_char(i, i + 1));
                    proof {
                        assert(input@.subrange(i as int, i as int + 1) =~= seq![
                            chars@[i as int],
                        ]);
                    }
                    i = i + 1;
                },
            }
        }
        proof {
            assert(path_scan(self.segment, self.separator, chars@, i as int) == Seq::<
                char,
            >::empty());
            assert(out@ =~= path_apply_spec(self.segment, self.separator, chars@));
        }
        out
    }
}

/// The end of the path-character run starting at `i`, computed.
fn path_run_to(chars: &Vec<char>, i: usize) -> (e: usize)
    requires
        i <= chars@.len(),
    ensures
        e as int == path_run_end(chars@, i as int),
        i <= e <= chars@.len(),
{
    let n = chars.len();
    let mut j = i;
    while j < n && (word(chars[j]) || chars[j] == '.' || chars[j] == '/' || chars[j] == '-')
        invariant
            i <= j <= n,
            n == chars@.len(),
            path_run_end(chars@, i as int) == path_run_end(chars@, j as int),
        decreases n - j,
    {
        j = j + 1;
    }
    j
}

/// The length of the path starting at `i`, computed.
fn try_path_at(chars: &Vec<char>, i: usize) -> (r: Option<usize>)
    requires
        i < chars@.len(),
    ensures
        match r {
            Some(l) => path_match_at(chars@, i as int) == Some(l as int) && 2 <= l && i + l
                <= chars@.len(),
            None => path_match_at(chars@, i as int) is None,
        },
{
    let n = chars.len();
    let c0 = chars[i];
    if !(c0 == '~' || c0 == '/' || c0 == '.') {
        return None;
    }
    let e = path_run_to(chars, i + 1);
    let mut k = i + 1;
    while k < e
        invariant
            i + 1 <= k <= e,
            e <= chars@.len(),
            i < chars@.len(),
            chars@[i as int] == '~' || chars@[i as int] == '/' || chars@[i as int] == '.',
            e as int == path_run_end(chars@, i as int + 1),
            forall|j: int| i + 1 <= j < k ==> chars@[j] != '/',
        decreases e - k,
    {
        if chars[k] == '/' {
            proof {
                assert(slash_in(chars@, i as int + 1, e as int));
            }
            return Some(e - i);
        }
        k = k + 1;
    }
    proof {
        assert(!slash_in(chars@, i as int + 1, e as int));
    }
    None
}

} // verus!
