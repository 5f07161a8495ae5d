//! The date highlighter.
//!
//! Three passes run in order over the text: year-first dates
//! (`1900-2099`, then day/month fields), day-first dates with a trailing
//! year, and `dd/Mon/yyyy` dates with a named month.  Each pass wraps the
//! date fields in the date style and the separators in the separator
//! style, in place: every input character stays where it was, and only
//! escape sequences are inserted.

use vstd::prelude::*;

use crate::config::DateTimeConfig;
use crate::highlighters::scan::digit;
use crate::highlighters::scan::is_digit;
use crate::split_and_apply::to_chars;
use crate::style::wrap_seq;
use crate::style::Style;

verus! {

/// A date separator: dash or slash.
pub open spec fn is_date_sep(c: char) -> bool {
    c == '-' || c == '/'
}

/// A year 1900 to 2099 stands at `i`.
pub open spec fn year_at(t: Seq<char>, i: int) -> bool {
    &&& 0 <= i
    &&& i + 4 <= t.len()
    &&& ((t[i] == '1' && t[i + 1] == '9') || (t[i] == '2' && t[i + 1] == '0'))
    &&& is_digit(t[i + 2])
    &&& is_digit(t[i + 3])
}

/// A two-digit day or month field, 01 to 31, stands at `i`.
pub open spec fn day_at(t: Seq<char>, i: int) -> bool {
    &&& 0 <= i
    &&& i + 2 <= t.len()
    &&& ((t[i] == '0' && '1' <= t[i + 1] && t[i + 1] <= '9') || ((t[i] == '1' || t[i] == '2')
        && is_digit(t[i + 1])) || (t[i] == '3' && (t[i + 1] == '0' || t[i + 1] == '1')))
}

/// A three-letter month name stands at `i`.
pub open spec fn month_at(t: Seq<char>, i: int) -> bool {
    &&& 0 <= i
    &&& i + 3 <= t.len()
    &&& {
        let a = t[i];
        let b = t[i + 1];
        let c = t[i + 2];
        ||| (a == 'J' && b == 'a' && c == 'n')
        ||| (a == 'F' && b == 'e' && c == 'b')
        ||| (a == 'M' && b == 'a' && c == 'r')
        ||| (a == 'A' && b == 'p' && c == 'r')
        ||| (a == 'M' && b == 'a' && c == 'y')
        ||| (a == 'J' && b == 'u' && c == 'n')
        ||| (a == 'J' && b == 'u' && c == 'l')
        ||| (a == 'A' && b == 'u' && c == 'g')
        ||| (a == 'S' && b == 'e' && c == 'p')
        ||| (a == 'O' && b == 'c' && c == 't')
        ||| (a == 'N' && b == 'o' && c == 'v')
        ||| (a == 'D' && b == 'e' && c == 'c')
    }
}

/// A year-first date (`yyyy-xx-xx` with dash or slash separators) stands
/// at `i`; the match is ten characters long.
pub open spec fn date1_at(t: Seq<char>, i: int) -> bool {
    &&& year_at(t, i)
    &&& i + 10 <= t.len()
    &&& is_date_sep(t[i + 4])
    &&& day_at(t, i + 5)
    &&& is_date_sep(t[i + 7])
    &&& day_at(t, i + 8)
}

/// A day-first date (`xx-xx-yyyy`) stands at `i`; the match is ten
/// characters long.
pub open spec fn date2_at(t: Seq<char>, i: int) -> bool {
    &&& day_at(t, i)
    &&& i + 10 <= t.len()
    &&& is_date_sep(t[i + 2])
    &&& day_at(t, i + 3)
    &&& is_date_sep(t[i + 5])
    &&& year_at(t, i + 6)
}

/// A `dd/Mon/yyyy` date stands at `i`; the match is eleven characters
/// long.
pub open spec fn date3_at(t: Seq<char>, i: int) -> bool {
    &&& day_at(t, i)
    &&& i + 11 <= t.len()
    &&& t[i + 2] == '/'
    &&& month_at(t, i + 3)
    &&& t[i + 6] == '/'
    &&& year_at(t, i + 7)
}

/// A year-first match, painted in place: year, separator, first field,
/// separator, second field.
pub open spec fn date1_paint(date: Style, sep: Style, t: Seq<char>, i: int) -> Seq<char> {
    wrap_seq(date, t.subrange(i, i + 4)) + wrap_seq(sep, seq![t[i + 4]]) + wrap_seq(
        date,
        t.subrange(i + 5, i + 7),
    ) + wrap_seq(sep, seq![t[i + 7]]) + wrap_seq(date, t.subrange(i + 8, i + 10))
}

/// A day-first match, painted in place: first field, separator, second
/// field, separator, year.
pub open spec fn date2_paint(date: Style, sep: Style, t: Seq<char>, i: int) -> Seq<char> {
    wrap_seq(date, t.subrange(i, i + 2)) + wrap_seq(sep, seq![t[i + 2]]) + wrap_seq(
        date,
        t.subrange(i + 3, i + 5),
    ) + wrap_seq(sep, seq![t[i + 5]]) + wrap_seq(date, t.subrange(i + 6, i + 10))
}

/// A `dd/Mon/yyyy` match, painted in place: day, separator, month name,
/// separator, year.
pub open spec fn date3_paint(date: Style, sep: Style, t: Seq<char>, i: int) -> Seq<char> {
    wrap_seq(date, t.subrange(i, i + 2)) + wrap_seq(sep, seq![t[i + 2]]) + wrap_seq(
        date,
        t.subrange(i + 3, i + 6),
    ) + wrap_seq(sep, seq![t[i + 6]]) + wrap_seq(date, t.subrange(i + 7, i + 11))
}

/// The output of the year-first pass from position `i` on.
pub open spec fn date1_scan(date: Style, sep: Style, t: Seq<char>, i: int) -> Seq<char>
    decreases t.len() - i,
{
    if !(0 <= i < t.len()) {
        Seq::empty()
    } else if date1_at(t, i) {
        date1_paint(date, sep, t, i) + date1_scan(date, sep, t, i + 10)
    } else {
        seq![t[i]] + date1_scan(date, sep, t, i + 1)
    }
}

/// The output of the day-first pass from position `i` on.
pub open spec fn date2_scan(date: Style, sep: Style, t: Seq<char>, i: int) -> Seq<char>
    decreases t.len() - i,
{
    if !(0 <= i < t.len()) {
        Seq::empty()
    } else if date2_at(t, i) {
        date2_paint(date, sep, t, i) + date2_scan(date, sep, t, i + 10)
    } else {
        seq![t[i]] + date2_scan(date, sep, t, i + 1)
    }
}

/// The output of the named-month pass from position `i` on.
pub open spec fn date3_scan(date: Style, sep: Style, t: Seq<char>, i: int) -> Seq<char>
    decreases t.len() - i,
{
    if !(0 <= i < t.len()) {
        Seq::empty()
    } else if date3_at(t, i) {
        date3_paint(date, sep, t, i) + date3_scan(date, sep, t, i + 11)
    } else {
        seq![t[i]] + date3_scan(date, sep, t, i + 1)
    }
}

/// What the date highlighter produces for `t`: the three passes run in
/// order, each over the previous pass's output.
pub open spec fn date_apply_spec(date: Style, sep: Style, t: Seq<char>) -> Seq<char> {
    date3_scan(date, sep, date2_scan(date, sep, date1_scan(date, sep, t, 0), 0), 0)
}

/// Paints dates in place: date fields in the date style, separators in
/// the separator style.
pub struct DateDashHighlighter {
    pub date: Style,
    pub separator: Style,
}

impl DateDashHighlighter {
    /// A date highlighter from the date-and-time configuration.
    pub fn new(time_config: DateTimeConfig) -> (r: Self)
        ensures
            r.date == time_config.date,
            r.separator == time_config.separator,
    {
        DateDashHighlighter { date: time_config.date, separator: time_config.separator }
    }

    /// The year-first pass.
    fn pass1(&self, input: &str) -> (r: String)
        ensures
            r@ == date1_scan(self.date, self.separator, input@, 0),
    {
        let chars = to_chars(input);
        let n = chars.len();
        let mut out = String::new();
        let mut i: usize = 0;
        while i < n
            invariant
                n == chars@.len(),
                chars@ == input@,
                i <= n,
                out@ + date1_scan(self.date, self.separator, chars@, i as int) == date1_scan(
                    self.date,
                    self.separator,
                    chars@,
                    0,
                ),
            decreases n - i,
        {
            if check_date1(&chars, i) {
                let p1 = self.date.paint(input.substring_char(i, i + 4));
                out.append(p1.as_str());
                let s1 = self.separator.paint(input.substring_char(i + 4, i + 5));
                out.append(s1.as_str());
                let p2 = self.date.paint(input.substring_char(i + 5, i + 7));
                out.append(p2.as_str());
                let s2 = self.separator.paint(input.substring_char(i + 7, i + 8));
                out.append(s2.as_str());
                let p3 = self.date.paint(input.substring_char(i + 8, i + 10));
                out.append(p3.as_str());
                proof {
                    assert(input@.subrange(i + 4, i as int + 5) =~= seq![chars@[i + 4]]);
                    assert(input@.subrange(i + 7, i as int + 8) =~= seq![chars@[i + 7]]);
                }
                i = i + 10;
            } else {
                out.append(input.substring_char(i, i + 1));
                proof {
                    assert(input@.subrange(i as int, i as int + 1) =~= seq![chars@[i as int]]);
                }
                i = i + 1;
            }
        }
        proof {
            assert(date1_scan(self.date, self.separator, chars@, i as int) == Seq::<
                char,
            >::empty());
            assert(out@ =~= date1_scan(self.date, self.separator, chars@, 0));
        }
        out
    }

    /// The day-first pass.
    fn pass2(&self, input: &str) -> (r: String)
        ensures
            r@ == date2_scan(self.date, self.separator, input@, 0),
    {
        let chars = to_chars(input);
        let n = chars.len();
        let mut out = String::new();
        let mut i: usize = 0;
        while i < n
            invariant
                n == chars@.len(),
                chars@ == input@,
                i <= n,
                out@ + date2_scan(self.date, self.separator, chars@, i as int) == date2_scan(
                    self.date,
                    self.separator,
                    chars@,
                    0,
                ),
            decreases n - i,
        {
            if check_date2(&chars, i) {
                let p1 = self.date.paint(input.substring_char(i, i + 2));
                out.append(p1.as_str());
                let s1 = self.separator.paint(input.substring_char(i + 2, i + 3));
                out.append(s1.as_str());
                let p2 = self.date.paint(input.substring_char(i + 3, i + 5));
                out.append(p2.as_str());
                let s2 = self.separator.paint(input.substring_char(i + 5, i + 6));
                out.append(s2.as_str());
                let p3 = self.date.paint(input.substring_char(i + 6, i + 10));
                out.append(p3.as_str());
                proof {
                    assert(input@.subrange(i + 2, i as int + 3) =~= seq![chars@[i + 2]]);
                    assert(input@.subrange(i + 5, i as int + 6) =~= seq![chars@[i + 5]]);
                }
                i = i + 10;
            } else {
                out.append(input.substring_char(i, i + 1));
                proof {
                    assert(input@.subrange(i as int, i as int + 1) =~= seq![chars@[i as int]]);
                }
                i = i + 1;
            }
        }
        proof {
            assert(date2_scan(self.date, self.separator, chars@, i as int) == Seq::<
                char,
            >::empty());
            assert(out@ =~= date2_scan(self.date, self.separator, chars@, 0));
        }
        out
    }

    /// The named-month pass.
    fn pass3(&self, input: &str) -> (r: String)
        ensures
            r@ == date3_scan(self.date, self.separator, input@, 0),
    {
        let chars = to_chars(input);
        let n = chars.len();
        let mut out = String::new();
        let mut i: usize = 0;
        while i < n
            invariant
                n == chars@.len(),
                chars@ == input@,
                i <= n,
                out@ + date3_scan(self.date, self.separator, chars@, i as int) == date3_scan(
                    self.date,
                    self.separator,
                    chars@,
                    0,
                ),
            decreases n - i,
        {
            if check_date3(&chars, i) {
                let p1 = self.date.paint(input.substring_char(i, i + 2));
                out.append(p1.as_str());
                let s1 = self.separator.paint(input.substring_char(i + 2, i + 3));
                out.append(s1.as_str());
                let p2 = self.date.paint(input.substring_char(i + 3, i + 6));
                out.append(p2.as_str());
                let s2 = self.separator.paint(input.substring_char(i + 6, i + 7));
                out.append(s2.as_str());
                let p3 = self.date.paint(input.substring_char(i + 7, i + 11));
                out.append(p3.as_str());
                proof {
                    assert(input@.subrange(i + 2, i as int + 3) =~= seq![chars@[i + 2]]);
                    assert(input@.subrange(i + 6, i as int + 7) =~= seq![chars@[i + 6]]);
                }
                i = i + 11;
            } else {
                out.append(input.substring_char(i, i + 1));
                proof {
                    assert(input@.subrange(i as int, i as int + 1) =~= seq![chars@[i as int]]);
                }
                i = i + 1;
            }
        }
        proof {
            assert(date3_scan(self.date, self.separator, chars@, i as int) == Seq::<
                char,
            >::empty());
            assert(out@ =~= date3_scan(self.date, self.separator, chars@, 0));
        }
        out
    }

    /// Apply the date highlighter to `input`: the three passes in order.
    pub fn apply(&self, input: &str) -> (r: String)
        ensures
            r@ == date_apply_spec(self.date, self.separator, input@),
    {
        let first = self.pass1(input);
        let second = self.pass2(first.as_str());
        self.pass3(second.as_str())
    }
}

/// Whether a year 1900 to 2099 stands at `i`, computed.
fn check_year(chars: &Vec<char>, i: usize) -> (r: bool)
    requires
        i <= chars@.len(),
    ensures
        r == year_at(chars@, i as int),
{
    let n = chars.len();
    if n < 4 || i > n - 4 {
        return false;
    }
    ((chars[i] == '1' && chars[i + 1] == '9') || (chars[i] == '2' && chars[i + 1]
        == '0')) && digit(chars[i + 2]) && digit(chars[i + 3])
}

/// Whether a two-digit day or month field stands at `i`, computed.
fn check_day(chars: &Vec<char>, i: usize) -> (r: bool)
    requires
        i <= chars@.len(),
    ensures
        r == day_at(chars@, i as int),
{
    let n = chars.len();
    if n < 2 || i > n - 2 {
        return false;
    }
    ((chars[i] == '0' && '1' <= chars[i + 1] && chars[i + 1] <= '9') || ((chars[i]
        == '1' || chars[i] == '2') && digit(chars[i + 1])) || (chars[i] == '3' && (chars[i + 1]
        == '0' || chars[i + 1] == '1')))
}

/// Whether a three-letter month name stands at `i`, computed.
fn check_month(chars: &Vec<char>, i: usize) -> (r: bool)
    requires
        i <= chars@.len(),
    ensures
        r == month_at(chars@, i as int),
{
    let n = chars.len();
    if n < 3 || i > n - 3 {
        return false;
    }
    let a = chars[i];
    let b = chars[i + 1];
    let c = chars[i + 2];
    (a == 'J' && b == 'a' && c == 'n') || (a == 'F' && b == 'e' && c == 'b') || (a == 'M' && b
        == 'a' && c == 'r') || (a == 'A' && b == 'p' && c == 'r') || (a == 'M' && b == 'a' && c
        == 'y') || (a == 'J' && b == 'u' && c == 'n') || (a == 'J' && b == 'u' && c == 'l') || (a
        == 'A' && b == 'u' && c == 'g') || (a == 'S' && b == 'e' && c == 'p') || (a == 'O' && b
        == 'c' && c == 't') || (a == 'N' && b == 'o' && c == 'v') || (a == 'D' && b == 'e' && c
        == 'c')
}

/// Whether a year-first date stands at `i`, computed.
fn check_date1(chars: &Vec<char>, i: usize) -> (r: bool)
    requires
        i < chars@.len(),
    ensures
        r == date1_at(chars@, i as int),
        r ==> i + 10 <= chars@.len(),
{
    let n = chars.len();
    if n - i < 10 {
        return false;
    }
    check_year(chars, i) && (chars[i + 4] == '-' || chars[i + 4] == '/') && check_day(
        chars,
        i + 5,
    ) && (chars[i + 7] == '-' || chars[i + 7] == '/') && check_day(chars, i + 8)
}

/// Whether a day-first date stands at `i`, computed.
fn check_date2(chars: &Vec<char>, i: usize) -> (r: bool)
    requires
        i < chars@.len(),
    ensures
        r == date2_at(chars@, i as int),
        r ==> i + 10 <= chars@.len(),
{
    let n = chars.len();
    if n - i < 10 {
        return false;
    }
    check_day(chars, i) && (chars[i + 2] == '-' || chars[i + 2] == '/') && check_day(chars, i + 3)
        && (chars[i + 5] == '-' || chars[i + 5] == '/') && check_year(chars, i + 6)
}

/// Whether a `dd/Mon/yyyy` date stands at `i`, computed.
fn check_date3(chars: &Vec<char>, i: usize) -> (r: bool)
    requires
        i < chars@.len(),
    ensures
        r == date3_at(chars@, i as int),
        r ==> i + 11 <= chars@.len(),
{
    let n = chars.len();
    if n - i < 11 {
        return false;
    }
    check_day(chars, i) && chars[i + 2] == '/' && check_month(chars, i + 3) && chars[i + 6] == '/'
        && check_year(chars, i + 7)
}

} // verus!
