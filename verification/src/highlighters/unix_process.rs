//! The Unix process highlighter.
//!
//! It recognizes `name[pid]`: a process name — either a run of word
//! characters and dashes, or a parenthesized group — followed by a process
//! id in square brackets.  Name, id and brackets each get their own style.

use vstd::prelude::*;

use crate::config::UnixProcessConfig;
use crate::highlighters::scan::digit_run_end;
use crate::highlighters::scan::digit_run_to;
use crate::highlighters::scan::is_word;
use crate::highlighters::scan::lemma_digit_run_end;
use crate::highlighters::scan::word;
use crate::split_and_apply::to_chars;
use crate::style::wrap_seq;
use crate::style::Style;

verus! {

/// A character a process name may hold: word character or dash.
pub open spec fn is_name_char(c: char) -> bool {
    is_word(c) || c == '-'
}

/// The end of the run of name characters starting at `i`.
pub open spec fn name_run_end(t: Seq<char>, i: int) -> int
    decreases t.len() - i,
{
    if i < 0 || i >= t.len() || !is_name_char(t[i]) {
        i
    } else {
        name_run_end(t, i + 1)
    }
}

/// The end of the run of characters other than `)` starting at `i`.
pub open spec fn non_close_run_end(t: Seq<char>, i: int) -> int
    decreases t.len() - i,
{
    if i < 0 || i >= t.len() || t[i] == ')' {
        i
    } else {
        non_close_run_end(t, i + 1)
    }
}

/// The bracketed process id following a name that ends at `ne`: the
/// positions of the opening bracket and of the closing bracket.
pub open spec fn bracket_part(t: Seq<char>, ne: int) -> Option<(int, int)> {
    if ne < t.len() && t[ne] == '[' {
        let de = digit_run_end(t, ne + 1);
        if de > ne + 1 && de < t.len() && t[de] == ']' {
            Some((ne, de))
        } else {
            None
        }
    } else {
        None
    }
}

/// The name end and closing-bracket position of the process entry starting
/// at `i`, if one starts there.
pub open spec fn proc_match_at(t: Seq<char>, i: int) -> Option<(int, int)> {
    if !(0 <= i < t.len()) {
        None
    } else if t[i] == '(' {
        let e = non_close_run_end(t, i + 1);
        if e > i + 1 && e < t.len() {
            bracket_part(t, e + 1)
        } else {
            None
        }
    } else if is_name_char(t[i]) {
        bracket_part(t, name_run_end(t, i))
    } else {
        None
    }
}

/// One matched process entry, painted: the name, the opening bracket, the
/// id and the closing bracket each in their own style.
pub open spec fn proc_paint(
    name: Style,
    id: Style,
    bracket: Style,
    t: Seq<char>,
    i: int,
    ne: int,
    de: int,
) -> Seq<char> {
    wrap_seq(name, t.subrange(i, ne)) + wrap_seq(bracket, seq!['[']) + wrap_seq(
        id,
        t.subrange(ne + 1, de),
    ) + wrap_seq(bracket, seq![']'])
}

/// The Unix process highlighter's output from position `i` on.
pub open spec fn proc_scan(name: Style, id: Style, bracket: Style, t: Seq<char>, i: int) -> Seq<
    char,
>
    decreases t.len() - i,
{
    if !(0 <= i < t.len()) {
        Seq::empty()
    } else {
        match proc_match_at(t, i) {
            Some(m) => if i < m.0 && m.0 + 1 < m.1 && m.1 < t.len() {
                proc_paint(name, id, bracket, t, i, m.0, m.1) + proc_scan(
                    name,
                    id,
                    bracket,
                    t,
                    m.1 + 1,
                )
            } else {
                seq![t[i]] + proc_scan(name, id, bracket, t, i + 1)
            },
            None => seq![t[i]] + proc_scan(name, id, bracket, t, i + 1),
        }
    }
}

/// What the Unix process highlighter produces for `t`.
pub open spec fn proc_apply_spec(name: Style, id: Style, bracket: Style, t: Seq<char>) -> Seq<
    char,
> {
    proc_scan(name, id, bracket, t, 0)
}

/// Paints `name[pid]` entries: name, id and brackets each in their own
/// style.
pub struct UnixProcessHighlighter {
    pub name: Style,
    pub id: Style,
    pub bracket: Style,
}

impl UnixProcessHighlighter {
    /// A Unix process highlighter from its configuration.
    pub fn new(config: UnixProcessConfig) -> (r: Self)
        ensures
            r.name == config.name,
            r.id == config.id,
            r.bracket == config.bracket,
    {
        UnixProcessHighlighter { name: config.name, id: config.id, bracket: config.bracket }
    }

    /// Apply the Unix process highlighter to `input`.
    pub fn apply(&self, input: &str) -> (r: String)
        ensures
            r@ == proc_apply_spec(self.name, self.id, self.bracket, input@),
    {
        let chars = to_chars(input);
        let n = chars.len();
        let mut out = String::new();
        let mut i: usize = 0;
        while i < n
            invariant
                n == chars@.len(),
                chars@ == input@,
                i <= n,
                out@ + proc_scan(self.name, self.id, self.bracket, chars@, i as int)
                    == proc_apply_spec(self.name, self.id, self.bracket, chars@),
            decreases n - i,
        {
            match try_proc_at(&chars, i) {
                Some((ne, de)) => {
                    let name_piece = input.substring_char(i, ne);
                    let id_piece = input.substring_char(ne + 1, de);
                    let p1 = self.name.paint(name_piece);
                    out.append(p1.as_str());
                    let p2 = self.bracket.paint("[");
                    out.append(p2.as_str());
                    let p3 = self.id.paint(id_piece);
                    out.append(p3.as_str());
                    let p4 = self.bracket.paint("]");
                    out.append(p4.as_str());
                    proof {
                        reveal_strlit("[");
                        reveal_strlit("]");
                        assert("["@ =~= seq!['[']);
                        assert("]"@ =~= seq![']']);
                    }
                    i = de + 1;
                },
                None => {
                    out.append(input.substring_char(i, i + 1));
                    proof {
                        assert(input@.subrange(i as int, i as int + 1) =~= seq![
                            chars@[i as int],
                        ]);
                    }
                    i = i + 1;
                },
            }
        }
        proof {
            assert(proc_scan(self.name, self.id, self.bracket, chars@, i as int) == Seq::<
                char,
            >::empty());
            assert(out@ =~= proc_apply_spec(self.name, self.id, self.bracket, chars@));
        }
        out
    }
}

/// The end of the name-character run starting at `i`, computed.
fn name_run_to(chars: &Vec<char>, i: usize) -> (e: usize)
    requires
        i <= chars@.len(),
    ensures
        e as int == name_run_end(chars@, i as int),
        i <= e <= chars@.len(),
{
    let n = chars.len();
    let mut j = i;
    while j < n && (word(chars[j]) || chars[j] == '-')
        invariant
            i <= j <= n,
            n == chars@.len(),
            name_run_end(chars@, i as int) == name_run_end(chars@, j as int),
        decreases n - j,
    {
        j = j + 1;
    }
    j
}

/// The end of the run of characters other than `)` starting at `i`,
/// computed.
fn non_close_run_to(chars: &Vec<char>, i: usize) -> (e: usize)
    requires
        i <= chars@.len(),
    ensures
        e as int == non_close_run_end(chars@, i as int),
        i <= e <= chars@.len(),
{
    let n = chars.len();
    let mut j = i;
    while j < n && chars[j] != ')'
        invariant
            i <= j <= n,
            n == chars@.len(),
            non_close_run_end(chars@, i as int) == non_close_run_end(chars@, j as int),
        decreases n - j,
    {
        j = j + 1;
    }
    j
}

/// The bracketed id following a name ending at `ne`, computed.
fn try_bracket_part(chars: &Vec<char>, ne: usize) -> (r: Option<(usize, usize)>)
    requires
        ne <= chars@.len(),
    ensures
        match r {
            Some(m) => bracket_part(chars@, ne as int) == Some((m.0 as int, m.1 as int)) && m.0
                == ne && ne + 1 < m.1 && m.1 < chars@.len(),
            None => bracket_part(chars@, ne as int) is None,
        },
{
    let n = chars.len();
    if ne < n && chars[ne] == '[' {
        let de = digit_run_to(chars, ne + 1);
        proof {
            lemma_digit_run_end(chars@, ne as int + 1);
        }
        if de > ne + 1 && de < n && chars[de] == ']' {
            Some((ne, de))
        } else {
            None
        }
    } else {
        None
    }
}

/// The name end and closing-bracket position of the process entry starting
/// at `i`, computed.
fn try_proc_at(chars: &Vec<char>, i: usize) -> (r: Option<(usize, usize)>)
    requires
        i < chars@.len(),
    ensures
        match r {
            Some(m) => proc_match_at(chars@, i as int) == Some((m.0 as int, m.1 as int)) && i < m.0
                && m.0 + 1 < m.1 && m.1 < chars@.len(),
            None => proc_match_at(chars@, i as int) is None,
        },
{
    let n = chars.len();
    if chars[i] == '(' {
        let e = non_close_run_to(chars, i + 1);
        if e > i + 1 && e < n {
            try_bracket_part(chars, e + 1)
        } else {
            None
        }
    } else if word(chars[i]) || chars[i] == '-' {
        let ne = name_run_to(chars, i);
        proof {
            lemma_name_run_end(chars@, i as int);
        }
        try_bracket_part(chars, ne)
    } else {
        None
    }
}

/// Bounds of a name run.
pub proof fn lemma_name_run_end(t: Seq<char>, i: int)
    requires
        0 <= i <= t.len(),
    ensures
        i <= name_run_end(t, i) <= t.len(),
        (i < t.len() && is_name_char(t[i])) ==> name_run_end(t, i) > i,
    decreases t.len() - i,
{
    if i < t.len() && is_name_char(t[i]) {
        lemma_name_run_end(t, i + 1);
    }
}

} // verus!
