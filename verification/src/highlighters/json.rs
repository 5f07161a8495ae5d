//! The JSON highlighter.
//!
//! Input that parses as a single JSON value has its tokens painted in
//! place: brackets, commas, colons and string quotes each in their own
//! style, and object keys in the key style.  Every other character —
//! whitespace included — is copied through unchanged, so only escape
//! sequences are inserted.  Input that is not a single JSON value is
//! returned unchanged.
//!
//! The grammar is the JSON standard's: strings take only the legal
//! escapes (`\" \\ \/ \b \f \n \r \t` and `\u` with four hexadecimal
//! digits) and no unescaped control characters; numbers have no leading
//! zeros, an optional fraction and an optional exponent.

use vstd::prelude::*;

use crate::config::JsonConfig;
use crate::highlighters::scan::digit;
use crate::highlighters::scan::digit_run_end;
use crate::highlighters::scan::digit_run_to;
use crate::highlighters::scan::hex;
use crate::highlighters::scan::is_digit;
use crate::highlighters::scan::is_hex;
use crate::highlighters::scan::lemma_digit_run_end;
use crate::split_and_apply::to_chars;
use crate::style::wrap_seq;
use crate::style::Style;

verus! {

/// JSON whitespace.
pub open spec fn is_json_ws(c: char) -> bool {
    c == ' ' || c == '\t' || c == '\n' || c == '\r'
}

/// The end of the whitespace run starting at `i`.
pub open spec fn ws_end(t: Seq<char>, i: int) -> int
    decreases t.len() - i,
{
    if i < 0 || i >= t.len() || !is_json_ws(t[i]) {
        i
    } else {
        ws_end(t, i + 1)
    }
}

/// Bounds of a whitespace run.
pub proof fn lemma_ws_end(t: Seq<char>, i: int)
    requires
        0 <= i <= t.len(),
    ensures
        i <= ws_end(t, i) <= t.len(),
    decreases t.len() - i,
{
    if i < t.len() && is_json_ws(t[i]) {
        lemma_ws_end(t, i + 1);
    }
}

/// A character that may follow a backslash on its own.
pub open spec fn is_escape_char(c: char) -> bool {
    c == '"' || c == '\\' || c == '/' || c == 'b' || c == 'f' || c == 'n' || c == 'r' || c == 't'
}

/// The position of the closing quote of a string whose contents start at
/// `i`, or `-1` when the string is not well formed: only the legal escape
/// sequences are accepted, and unescaped control characters are refused.
pub open spec fn str_lex_end(t: Seq<char>, i: int) -> int
    decreases t.len() - i,
{
    if i < 0 || i >= t.len() {
        -1
    } else if t[i] == '"' {
        i
    } else if t[i] == '\\' {
        if i + 1 < t.len() && is_escape_char(t[i + 1]) {
            str_lex_end(t, i + 2)
        } else if i + 1 < t.len() && t[i + 1] == 'u' && i + 5 < t.len() && is_hex(t[i + 2])
            && is_hex(t[i + 3]) && is_hex(t[i + 4]) && is_hex(t[i + 5]) {
            str_lex_end(t, i + 6)
        } else {
            -1
        }
    } else if (t[i] as u32) < 0x20 {
        -1
    } else {
        str_lex_end(t, i + 1)
    }
}

/// The end of the number lexeme starting at `i`, or `-1` when no number
/// starts there: an optional minus, then either a single zero or a nonzero
/// digit run, an optional fraction and an optional exponent.
pub open spec fn num_lex_end(t: Seq<char>, i: int) -> int {
    if !(0 <= i < t.len()) {
        -1
    } else {
        let s = if t[i] == '-' {
            i + 1
        } else {
            i
        };
        if s < t.len() && is_digit(t[s]) {
            let d1 = if t[s] == '0' {
                s + 1
            } else {
                digit_run_end(t, s)
            };
            let d2 = if d1 < t.len() && t[d1] == '.' && d1 + 1 < t.len() && is_digit(
                t[d1 + 1],
            ) {
                digit_run_end(t, d1 + 1)
            } else {
                d1
            };
            if d2 < t.len() && (t[d2] == 'e' || t[d2] == 'E') {
                let s2 = if d2 + 1 < t.len() && (t[d2 + 1] == '+' || t[d2 + 1] == '-') {
                    d2 + 2
                } else {
                    d2 + 1
                };
                if s2 < t.len() && is_digit(t[s2]) {
                    digit_run_end(t, s2)
                } else {
                    d2
                }
            } else {
                d2
            }
        } else {
            -1
        }
    }
}

/// The keyword `w` stands at `i` in `t`.
pub open spec fn lit_at(t: Seq<char>, i: int, w: Seq<char>) -> bool {
    0 <= i && i + w.len() <= t.len() && t.subrange(i, i + w.len() as int) == w
}

/// The painted output and end position of the JSON value starting exactly
/// at `i` (no leading whitespace), or `None` when no value starts there.
/// Every input character of the value reappears in place; only escape
/// sequences are inserted around the tokens.
pub open spec fn json_value_out(h: JsonHighlighter, t: Seq<char>, i: int) -> Option<
    (int, Seq<char>),
>
    decreases t.len() - i, 1int,
{
    if !(0 <= i < t.len()) {
        None
    } else if t[i] == '{' {
        match json_members_out(h, t, i + 1, true) {
            Some(m) => Some((m.0, wrap_seq(h.curly_bracket, seq!['{']) + m.1)),
            None => None,
        }
    } else if t[i] == '[' {
        match json_elements_out(h, t, i + 1, true) {
            Some(m) => Some((m.0, wrap_seq(h.square_bracket, seq!['[']) + m.1)),
            None => None,
        }
    } else if t[i] == '"' {
        let se = str_lex_end(t, i + 1);
        if se >= 0 {
            Some(
                (
                    se + 1,
                    wrap_seq(h.quote_token, seq!['"']) + t.subrange(i + 1, se) + wrap_seq(
                        h.quote_token,
                        seq!['"'],
                    ),
                ),
            )
        } else {
            None
        }
    } else if t[i] == '-' || is_digit(t[i]) {
        let ne = num_lex_end(t, i);
        if ne > i && ne <= t.len() {
            Some((ne, t.subrange(i, ne)))
        } else {
            None
        }
    } else if lit_at(t, i, seq!['t', 'r', 'u', 'e']) {
        Some((i + 4, seq!['t', 'r', 'u', 'e']))
    } else if lit_at(t, i, seq!['f', 'a', 'l', 's', 'e']) {
        Some((i + 5, seq!['f', 'a', 'l', 's', 'e']))
    } else if lit_at(t, i, seq!['n', 'u', 'l', 'l']) {
        Some((i + 4, seq!['n', 'u', 'l', 'l']))
    } else {
        None
    }
}

/// The painted members of an object from position `j` (just past `{` or
/// past a separating comma) through the closing brace, whitespace copied
/// verbatim, or `None` when the member list is malformed.  `first` is true
/// only directly after the opening brace, where an empty object may close.
pub open spec fn json_members_out(h: JsonHighlighter, t: Seq<char>, j: int, first: bool) -> Option<
    (int, Seq<char>),
>
    decreases t.len() - j, 2int,
{
    if !(0 <= j <= t.len()) {
        None
    } else {
        let p = ws_end(t, j);
        if !(j <= p < t.len()) {
            None
        } else if first && t[p] == '}' {
            Some((p + 1, t.subrange(j, p) + wrap_seq(h.curly_bracket, seq!['}'])))
        } else if t[p] == '"' {
            let ke = str_lex_end(t, p + 1);
            if !(p < ke && ke < t.len()) {
                None
            } else {
                let q = ws_end(t, ke + 1);
                if !(ke < q && q < t.len() && t[q] == ':') {
                    None
                } else {
                    let v = ws_end(t, q + 1);
                    if !(q < v && v < t.len()) {
                        None
                    } else {
                        match json_value_out(h, t, v) {
                            Some(vo) => if v < vo.0 <= t.len() {
                                let member = t.subrange(j, p) + wrap_seq(h.quote_token, seq!['"'])
                                    + wrap_seq(h.key, t.subrange(p + 1, ke)) + wrap_seq(
                                    h.quote_token,
                                    seq!['"'],
                                ) + t.subrange(ke + 1, q) + wrap_seq(h.colon, seq![':'])
                                    + t.subrange(q + 1, v) + vo.1;
                                let c = ws_end(t, vo.0);
                                if !(vo.0 <= c && c < t.len()) {
                                    None
                                } else if t[c] == '}' {
                                    Some(
                                        (
                                            c + 1,
                                            member + t.subrange(vo.0, c) + wrap_seq(
                                                h.curly_bracket,
                                                seq!['}'],
                                            ),
                                        ),
                                    )
                                } else if t[c] == ',' {
                                    match json_members_out(h, t, c + 1, false) {
                                        Some(rest) => Some(
                                            (
                                                rest.0,
                                                member + t.subrange(vo.0, c) + wrap_seq(
                                                    h.comma,
                                                    seq![','],
                                                ) + rest.1,
                                            ),
                                        ),
                                        None => None,
                                    }
                                } else {
                                    None
                                }
                            } else {
                                None
                            },
                            None => None,
                        }
                    }
                }
            }
        } else {
            None
        }
    }
}

/// The painted elements of an array from position `j` (just past `[` or
/// past a separating comma) through the closing bracket, whitespace copied
/// verbatim, or `None` when the element list is malformed.  `first` is
/// true only directly after the opening bracket, where an empty array may
/// close.
pub open spec fn json_elements_out(h: JsonHighlighter, t: Seq<char>, j: int, first: bool) -> Option<
    (int, Seq<char>),
>
    decreases t.len() - j, 2int,
{
    if !(0 <= j <= t.len()) {
        None
    } else {
        let p = ws_end(t, j);
        if !(j <= p < t.len()) {
            None
        } else if first && t[p] == ']' {
            Some((p + 1, t.subrange(j, p) + wrap_seq(h.square_bracket, seq![']'])))
        } else {
            match json_value_out(h, t, p) {
                Some(vo) => if p < vo.0 <= t.len() {
                    let element = t.subrange(j, p) + vo.1;
                    let c = ws_end(t, vo.0);
                    if !(vo.0 <= c && c < t.len()) {
                        None
                    } else if t[c] == ']' {
                        Some(
                            (
                                c + 1,
                                element + t.subrange(vo.0, c) + wrap_seq(
                                    h.square_bracket,
                                    seq![']'],
                                ),
                            ),
                        )
                    } else if t[c] == ',' {
                        match json_elements_out(h, t, c + 1, false) {
                            Some(rest) => Some(
                                (
                                    rest.0,
                                    element + t.subrange(vo.0, c) + wrap_seq(h.comma, seq![','])
                                        + rest.1,
                                ),
                            ),
                            None => None,
                        }
                    } else {
                        None
                    }
                } else {
                    None
                },
                None => None,
            }
        }
    }
}

/// What the JSON highlighter produces for `t`: the value painted in place
/// when the whole input is one JSON value (surrounding whitespace copied
/// verbatim), the input itself otherwise.
pub open spec fn json_apply_spec(h: JsonHighlighter, t: Seq<char>) -> Seq<char> {
    let s = ws_end(t, 0);
    match json_value_out(h, t, s) {
        Some(vo) => if ws_end(t, vo.0) == t.len() {
            t.subrange(0, s) + vo.1 + t.subrange(vo.0, t.len() as int)
        } else {
            t
        },
        None => t,
    }
}

/// Paints a JSON value's tokens in place: brackets, commas, colons,
/// quotes and object keys each in their own style.
#[derive(Clone, Copy)]
pub struct JsonHighlighter {
    pub key: Style,
    pub quote_token: Style,
    pub curly_bracket: Style,
    pub square_bracket: Style,
    pub comma: Style,
    pub colon: Style,
}

impl JsonHighlighter {
    /// A JSON highlighter from its configuration.
    pub fn new(config: JsonConfig) -> (r: Self)
        ensures
            r.key == config.key,
            r.quote_token == config.quote_token,
            r.curly_bracket == config.curly_bracket,
            r.square_bracket == config.square_bracket,
            r.comma == config.comma,
            r.colon == config.colon,
    {
        JsonHighlighter {
            key: config.key,
            quote_token: config.quote_token,
            curly_bracket: config.curly_bracket,
            square_bracket: config.square_bracket,
            comma: config.comma,
            colon: config.colon,
        }
    }

    /// Apply the JSON highlighter to `input`.
    pub fn apply(&self, input: &str) -> (r: String)
        ensures
            r@ == json_apply_spec(*self, input@),
    {
        let chars = to_chars(input);
        let n = chars.len();
        let s = ws_to(&chars, 0);
        match self.fmt_value(input, &chars, s) {
            Some((e, out)) => {
                let tail = ws_to(&chars, e);
                if tail == n {
                    let mut r = input.substring_char(0, s).to_owned();
                    r.append(out.as_str());
                    r.append(input.substring_char(e, n));
                    r
                } else {
                    input.to_owned()
                }
            },
            None => input.to_owned(),
        }
    }

    /// Paint the JSON value starting exactly at `i`.
    fn fmt_value(&self, input: &str, chars: &Vec<char>, i: usize) -> (r: Option<(usize, String)>)
        requires
            chars@ == input@,
            i <= chars@.len(),
        ensures
            match r {
                Some(pr) => json_value_out(*self, chars@, i as int) == Some(
                    (pr.0 as int, pr.1@),
                ) && i < pr.0 <= chars@.len(),
                None => json_value_out(*self, chars@, i as int) is None,
            },
        decreases chars@.len() - i, 1int,
    {
        let n = chars.len();
        if i >= n {
            return None;
        }
        let c = chars[i];
        if c == '{' {
            match self.fmt_members(input, chars, i + 1, true) {
                Some((e, m)) => {
                    let mut out = self.curly_bracket.paint("{");
                    out.append(m.as_str());
                    proof {
                        reveal_strlit("{");
                        assert("{"@ =~= seq!['{']);
                    }
                    Some((e, out))
                },
                None => None,
            }
        } else if c == '[' {
            match self.fmt_elements(input, chars, i + 1, true) {
                Some((e, m)) => {
                    let mut out = self.square_bracket.paint("[");
                    out.append(m.as_str());
                    proof {
                        reveal_strlit("[");
                        assert("["@ =~= seq!['[']);
                    }
                    Some((e, out))
                },
                None => None,
            }
        } else if c == '"' {
            let se = str_lex_to(chars, i + 1);
            match se {
                Some(sq) => {
                    let mut out = self.quote_token.paint("\"");
                    out.append(input.substring_char(i + 1, sq));
                    let q2 = self.quote_token.paint("\"");
                    out.append(q2.as_str());
                    proof {
                        reveal_strlit("\"");
                        assert("\""@ =~= seq!['"']);
                    }
                    Some((sq + 1, out))
                },
                None => None,
            }
        } else if c == '-' || digit(c) {
            match num_lex_to(chars, i) {
                Some(ne) => Some((ne, input.substring_char(i, ne).to_owned())),
                None => None,
            }
        } else if lit_check(chars, i, 't', 'r', 'u', 'e') {
            proof {
                assert(chars@.subrange(i as int, i as int + 4) =~= seq!['t', 'r', 'u', 'e']);
                assert(input@.subrange(i as int, i as int + 4) =~= seq!['t', 'r', 'u', 'e']);
            }
            Some((i + 4, input.substring_char(i, i + 4).to_owned()))
        } else if n >= 5 && i <= n - 5 && chars[i] == 'f' && chars[i + 1] == 'a' && chars[i + 2]
            == 'l' && chars[i + 3] == 's' && chars[i + 4] == 'e' {
            proof {
                assert(chars@.subrange(i as int, i as int + 5) =~= seq![
                    'f',
                    'a',
                    'l',
                    's',
                    'e',
                ]);
                assert(input@.subrange(i as int, i as int + 5) =~= seq![
                    'f',
                    'a',
                    'l',
                    's',
                    'e',
                ]);
                assert(lit_at(chars@, i as int, seq!['f', 'a', 'l', 's', 'e']));
                assert(!lit_at(chars@, i as int, seq!['t', 'r', 'u', 'e'])) by {
                    assert(chars@.subrange(i as int, i as int + 4)[0] == 'f');
                }
            }
            Some((i + 5, input.substring_char(i, i + 5).to_owned()))
        } else if lit_check(chars, i, 'n', 'u', 'l', 'l') {
            proof {
                assert(chars@.subrange(i as int, i as int + 4) =~= seq!['n', 'u', 'l', 'l']);
                assert(input@.subrange(i as int, i as int + 4) =~= seq!['n', 'u', 'l', 'l']);
                assert(!lit_at(chars@, i as int, seq!['t', 'r', 'u', 'e'])) by {
                    assert(chars@.subrange(i as int, i as int + 4)[0] == 'n');
                }
                if lit_at(chars@, i as int, seq!['f', 'a', 'l', 's', 'e']) {
                    assert(chars@.subrange(i as int, i as int + 5)[0] == 'f');
                    assert(false);
                }
            }
            Some((i + 4, input.substring_char(i, i + 4).to_owned()))
        } else {
            proof {
                if lit_at(chars@, i as int, seq!['t', 'r', 'u', 'e']) {
                    assert(chars@.subrange(i as int, i as int + 4)[0] == 't');
                    assert(chars@[i as int] == 't');
                    assert(lit_check_spec(chars@, i as int, 't', 'r', 'u', 'e')) by {
                        assert(chars@.subrange(i as int, i as int + 4)[1] == 'r');
                        assert(chars@.subrange(i as int, i as int + 4)[2] == 'u');
                        assert(chars@.subrange(i as int, i as int + 4)[3] == 'e');
                    }
                }
                if lit_at(chars@, i as int, seq!['f', 'a', 'l', 's', 'e']) {
                    assert(chars@.subrange(i as int, i as int + 5)[0] == 'f');
                    assert(chars@.subrange(i as int, i as int + 5)[1] == 'a');
                    assert(chars@.subrange(i as int, i as int + 5)[2] == 'l');
                    assert(chars@.subrange(i as int, i as int + 5)[3] == 's');
                    assert(chars@.subrange(i as int, i as int + 5)[4] == 'e');
                    assert(false);
                }
                if lit_at(chars@, i as int, seq!['n', 'u', 'l', 'l']) {
                    assert(chars@.subrange(i as int, i as int + 4)[0] == 'n');
                    assert(chars@.subrange(i as int, i as int + 4)[1] == 'u');
                    assert(chars@.subrange(i as int, i as int + 4)[2] == 'l');
                    assert(chars@.subrange(i as int, i as int + 4)[3] == 'l');
                    assert(false);
                }
            }
            None
        }
    }

    /// Paint the members of an object from position `j` through the
    /// closing brace, copying whitespace verbatim.
    fn fmt_members(&self, input: &str, chars: &Vec<char>, j: usize, first: bool) -> (r: Option<
        (usize, String),
    >)
        requires
            chars@ == input@,
            j <= chars@.len(),
        ensures
            match r {
                Some(pr) => json_members_out(*self, chars@, j as int, first) == Some(
                    (pr.0 as int, pr.1@),
                ) && j < pr.0 <= chars@.len(),
                None => json_members_out(*self, chars@, j as int, first) is None,
            },
        decreases chars@.len() - j, 2int,
    {
        let n = chars.len();
        let p = ws_to(chars, j);
        if p >= n {
            return None;
        }
        if first && chars[p] == '}' {
            let mut out = input.substring_char(j, p).to_owned();
            let b = self.curly_bracket.paint("}");
            out.append(b.as_str());
            proof {
                reveal_strlit("}");
                assert("}"@ =~= seq!['}']);
            }
            return Some((p + 1, out));
        }
        if chars[p] != '"' {
            return None;
        }
        let ke = match str_lex_to(chars, p + 1) {
            Some(k) => k,
            None => {
                return None;
            },
        };
        let q = ws_to(chars, ke + 1);
        if !(q < n && chars[q] == ':') {
            return None;
        }
        let v = ws_to(chars, q + 1);
        if v >= n {
            return None;
        }
        let vo = match self.fmt_value(input, chars, v) {
            Some(vo) => vo,
            None => {
                return None;
            },
        };
        let mut out = input.substring_char(j, p).to_owned();
        let q1 = self.quote_token.paint("\"");
        out.append(q1.as_str());
        let kp = self.key.paint(input.substring_char(p + 1, ke));
        out.append(kp.as_str());
        let q2 = self.quote_token.paint("\"");
        out.append(q2.as_str());
        out.append(input.substring_char(ke + 1, q));
        let cl = self.colon.paint(":");
        out.append(cl.as_str());
        out.append(input.substring_char(q + 1, v));
        out.append(vo.1.as_str());
        proof {
            reveal_strlit(",");
            reveal_strlit(":");
            reveal_strlit("\"");
            assert(","@ =~= seq![',']);
            assert(":"@ =~= seq![':']);
            assert("\""@ =~= seq!['"']);
        }
        let c = ws_to(chars, vo.0);
        if c >= n {
            return None;
        }
        if chars[c] == '}' {
            out.append(input.substring_char(vo.0, c));
            let b = self.curly_bracket.paint("}");
            out.append(b.as_str());
            proof {
                reveal_strlit("}");
                assert("}"@ =~= seq!['}']);
            }
            Some((c + 1, out))
        } else if chars[c] == ',' {
            let rest = match self.fmt_members(input, chars, c + 1, false) {
                Some(rest) => rest,
                None => {
                    return None;
                },
            };
            out.append(input.substring_char(vo.0, c));
            let cm = self.comma.paint(",");
            out.append(cm.as_str());
            out.append(rest.1.as_str());
            Some((rest.0, out))
        } else {
            None
        }
    }

    /// Paint the elements of an array from position `j` through the
    /// closing bracket, copying whitespace verbatim.
    fn fmt_elements(&self, input: &str, chars: &Vec<char>, j: usize, first: bool) -> (r: Option<
        (usize, String),
    >)
        requires
            chars@ == input@,
            j <= chars@.len(),
        ensures
            match r {
                Some(pr) => json_elements_out(*self, chars@, j as int, first) == Some(
                    (pr.0 as int, pr.1@),
                ) && j < pr.0 <= chars@.len(),
                None => json_elements_out(*self, chars@, j as int, first) is None,
            },
        decreases chars@.len() - j, 2int,
    {
        let n = chars.len();
        let p = ws_to(chars, j);
        if p >= n {
            return None;
        }
        if first && chars[p] == ']' {
            let mut out = input.substring_char(j, p).to_owned();
            let b = self.square_bracket.paint("]");
            out.append(b.as_str());
            proof {
                reveal_strlit("]");
                assert("]"@ =~= seq![']']);
            }
            return Some((p + 1, out));
        }
        let vo = match self.fmt_value(input, chars, p) {
            Some(vo) => vo,
            None => {
                return None;
            },
        };
        let mut out = input.substring_char(j, p).to_owned();
        out.append(vo.1.as_str());
        let c = ws_to(chars, vo.0);
        if c >= n {
            return None;
        }
        if chars[c] == ']' {
            out.append(input.substring_char(vo.0, c));
            let b = self.square_bracket.paint("]");
            out.append(b.as_str());
            proof {
                reveal_strlit("]");
                assert("]"@ =~= seq![']']);
            }
            Some((c + 1, out))
        } else if chars[c] == ',' {
            let rest = match self.fmt_elements(input, chars, c + 1, false) {
                Some(rest) => rest,
                None => {
                    return None;
                },
            };
            out.append(input.substring_char(vo.0, c));
            let cm = self.comma.paint(",");
            out.append(cm.as_str());
            out.append(rest.1.as_str());
            proof {
                reveal_strlit(",");
                assert(","@ =~= seq![',']);
            }
            Some((rest.0, out))
        } else {
            None
        }
    }
}

/// The four characters `a b c d` stand at `i` in `t`.
pub open spec fn lit_check_spec(t: Seq<char>, i: int, a: char, b: char, c: char, d: char) -> bool {
    0 <= i && i + 4 <= t.len() && t[i] == a && t[i + 1] == b && t[i + 2] == c && t[i + 3] == d
}

/// Whether the four characters `a b c d` stand at `i`, computed; the
/// spec-level `lit_at` over the same four characters follows.
fn lit_check(chars: &Vec<char>, i: usize, a: char, b: char, c: char, d: char) -> (r: bool)
    requires
        i <= chars@.len(),
    ensures
        r == lit_at(chars@, i as int, seq![a, b, c, d]),
{
    let n = chars.len();
    let ok = n >= 4 && i <= n - 4 && chars[i] == a && chars[i + 1] == b && chars[i + 2] == c
        && chars[i + 3] == d;
    proof {
        if ok {
            assert(chars@.subrange(i as int, i as int + 4) =~= seq![a, b, c, d]);
        } else {
            if lit_at(chars@, i as int, seq![a, b, c, d]) {
                assert(chars@.subrange(i as int, i as int + 4)[0] == a);
                assert(chars@.subrange(i as int, i as int + 4)[1] == b);
                assert(chars@.subrange(i as int, i as int + 4)[2] == c);
                assert(chars@.subrange(i as int, i as int + 4)[3] == d);
                assert(false);
            }
        }
    }
    ok
}

/// The end of the whitespace run starting at `i`, computed.
fn ws_to(chars: &Vec<char>, i: usize) -> (e: usize)
    requires
        i <= chars@.len(),
    ensures
        e as int == ws_end(chars@, i as int),
        i <= e <= chars@.len(),
{
    let n = chars.len();
    let mut j = i;
    while j < n && (chars[j] == ' ' || chars[j] == '\t' || chars[j] == '\n' || chars[j] == '\r')
        invariant
            i <= j <= n,
            n == chars@.len(),
            ws_end(chars@, i as int) == ws_end(chars@, j as int),
        decreases n - j,
    {
        j = j + 1;
    }
    j
}

/// The closing-quote position of a string whose contents start at `i`,
/// computed.
fn str_lex_to(chars: &Vec<char>, i: usize) -> (r: Option<usize>)
    requires
        i <= chars@.len(),
    ensures
        match r {
            Some(e) => str_lex_end(chars@, i as int) == e as int && i <= e < chars@.len(),
            None => str_lex_end(chars@, i as int) == -1,
        },
    decreases chars@.len() - i,
{
    let n = chars.len();
    if i >= n {
        return None;
    }
    let c = chars[i];
    if c == '"' {
        Some(i)
    } else if c == '\\' {
        if i + 1 < n && (chars[i + 1] == '"' || chars[i + 1] == '\\' || chars[i + 1] == '/'
            || chars[i + 1] == 'b' || chars[i + 1] == 'f' || chars[i + 1] == 'n' || chars[i + 1]
            == 'r' || chars[i + 1] == 't') {
            str_lex_to(chars, i + 2)
        } else if i + 1 < n && chars[i + 1] == 'u' && n - i > 5 && hex(chars[i + 2]) && hex(
            chars[i + 3],
        ) && hex(chars[i + 4]) && hex(chars[i + 5]) {
            str_lex_to(chars, i + 6)
        } else {
            None
        }
    } else if (c as u32) < 0x20 {
        None
    } else {
        str_lex_to(chars, i + 1)
    }
}

/// The end of the number lexeme starting at `i`, computed.
fn num_lex_to(chars: &Vec<char>, i: usize) -> (r: Option<usize>)
    requires
        i < chars@.len(),
    ensures
        match r {
            Some(e) => num_lex_end(chars@, i as int) == e as int && i < e <= chars@.len(),
            None => num_lex_end(chars@, i as int) == -1,
        },
{
    let n = chars.len();
    let s = if chars[i] == '-' {
        i + 1
    } else {
        i
    };
    if !(s < n && digit(chars[s])) {
        return None;
    }
    let d1 = if chars[s] == '0' {
        s + 1
    } else {
        let e = digit_run_to(chars, s);
        proof {
            lemma_digit_run_end(chars@, s as int);
        }
        e
    };
    let d2 = if d1 < n && chars[d1] == '.' && d1 + 1 < n && digit(chars[d1 + 1]) {
        let e = digit_run_to(chars, d1 + 1);
        proof {
            lemma_digit_run_end(chars@, d1 as int + 1);
        }
        e
    } else {
        d1
    };
    if d2 < n && (chars[d2] == 'e' || chars[d2] == 'E') {
        let s2 = if d2 + 1 < n && (chars[d2 + 1] == '+' || chars[d2 + 1] == '-') {
            d2 + 2
        } else {
            d2 + 1
        };
        if s2 < n && digit(chars[s2]) {
            let e = digit_run_to(chars, s2);
            proof {
                lemma_digit_run_end(chars@, s2 as int);
            }
            Some(e)
        } else {
            Some(d2)
        }
    } else {
        Some(d2)
    }
}

} // verus!
