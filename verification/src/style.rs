//! The style model: a bundle of color and text attributes that resolves
//! deterministically to a terminal escape-sequence pair.
//!
//! A [`Style`] encodes every active attribute in a fixed, stable order
//! (bold, faint, italic, underline, foreground, background), so two styles
//! with identical fields resolve to byte-identical start sequences.  The
//! reset sequence is the single canonical terminal reset, shared by every
//! style.

use vstd::prelude::*;

verus! {

/// Closed enumeration of named terminal colors.  `Default` stands for the
/// terminal's own default color (still emitted as an explicit code).
#[derive(PartialEq, Eq, Structural, Debug, Clone, Copy)]
pub enum Color {
    Default,
    Black,
    Red,
    Green,
    Yellow,
    Blue,
    Magenta,
    Cyan,
    White,
    BrightBlack,
    BrightRed,
    BrightGreen,
    BrightYellow,
    BrightBlue,
    BrightMagenta,
    BrightCyan,
    BrightWhite,
}

impl Default for Color {
    fn default() -> (r: Self)
        ensures
            r == Color::Default,
    {
        Color::Default
    }
}

/// A bundle of text attributes: optional foreground and background colors
/// plus the four supported typographic flags.
#[derive(PartialEq, Eq, Structural, Debug, Clone, Copy)]
pub struct Style {
    pub fg: Option<Color>,
    pub bg: Option<Color>,
    pub bold: bool,
    pub faint: bool,
    pub italic: bool,
    pub underline: bool,
}

impl Default for Style {
    fn default() -> (r: Self)
        ensures
            r == (Style {
                fg: None,
                bg: None,
                bold: false,
                faint: false,
                italic: false,
                underline: false,
            }),
    {
        Style { fg: None, bg: None, bold: false, faint: false, italic: false, underline: false }
    }
}

/// The two characters that introduce any escape sequence this library emits.
pub open spec fn esc_intro() -> Seq<char> {
    seq!['\u{1b}', '[']
}

/// The canonical reset sequence that closes every styled span.
pub open spec fn reset_seq() -> Seq<char> {
    seq!['\u{1b}', '[', '0', 'm']
}

/// The numeric parameter selecting `c` as the foreground color.
pub open spec fn fg_code(c: Color) -> Seq<char> {
    match c {
        Color::Default => seq!['3', '9'],
        Color::Black => seq!['3', '0'],
        Color::Red => seq!['3', '1'],
        Color::Green => seq!['3', '2'],
        Color::Yellow => seq!['3', '3'],
        Color::Blue => seq!['3', '4'],
        Color::Magenta => seq!['3', '5'],
        Color::Cyan => seq!['3', '6'],
        Color::White => seq!['3', '7'],
        Color::BrightBlack => seq!['9', '0'],
        Color::BrightRed => seq!['9', '1'],
        Color::BrightGreen => seq!['9', '2'],
        Color::BrightYellow => seq!['9', '3'],
        Color::BrightBlue => seq!['9', '4'],
        Color::BrightMagenta => seq!['9', '5'],
        Color::BrightCyan => seq!['9', '6'],
        Color::BrightWhite => seq!['9', '7'],
    }
}

/// The numeric parameter selecting `c` as the background color.
pub open spec fn bg_code(c: Color) -> Seq<char> {
    match c {
        Color::Default => seq!['4', '9'],
        Color::Black => seq!['4', '0'],
        Color::Red => seq!['4', '1'],
        Color::Green => seq!['4', '2'],
        Color::Yellow => seq!['4', '3'],
        Color::Blue => seq!['4', '4'],
        Color::Magenta => seq!['4', '5'],
        Color::Cyan => seq!['4', '6'],
        Color::White => seq!['4', '7'],
        Color::BrightBlack => seq!['1', '0', '0'],
        Color::BrightRed => seq!['1', '0', '1'],
        Color::BrightGreen => seq!['1', '0', '2'],
        Color::BrightYellow => seq!['1', '0', '3'],
        Color::BrightBlue => seq!['1', '0', '4'],
        Color::BrightMagenta => seq!['1', '0', '5'],
        Color::BrightCyan => seq!['1', '0', '6'],
        Color::BrightWhite => seq!['1', '0', '7'],
    }
}

/// A style with no active attribute resolves to the empty start sequence
/// and wraps nothing.
pub open spec fn spec_is_plain(s: Style) -> bool {
    s.fg is None && s.bg is None && !s.bold && !s.faint && !s.italic && !s.underline
}

/// The numeric parameters a style contributes, in the fixed stable order:
/// bold, faint, italic, underline, foreground, background.
pub open spec fn style_codes(s: Style) -> Seq<Seq<char>> {
    (if s.bold {
        seq![seq!['1']]
    } else {
        Seq::empty()
    }) + (if s.faint {
        seq![seq!['2']]
    } else {
        Seq::empty()
    }) + (if s.italic {
        seq![seq!['3']]
    } else {
        Seq::empty()
    }) + (if s.underline {
        seq![seq!['4']]
    } else {
        Seq::empty()
    }) + (match s.fg {
        Some(c) => seq![fg_code(c)],
        None => Seq::empty(),
    }) + (match s.bg {
        Some(c) => seq![bg_code(c)],
        None => Seq::empty(),
    })
}

/// The first `k` parameters joined with `;` separators.
pub open spec fn join_upto(cs: Seq<Seq<char>>, k: int) -> Seq<char>
    decreases k,
{
    if k <= 0 {
        Seq::empty()
    } else if k == 1 {
        cs[0]
    } else {
        join_upto(cs, k - 1) + seq![';'] + cs[k - 1]
    }
}

/// The start sequence a style resolves to: empty for a plain style, else
/// the escape introducer, the joined parameters, and the final `m`.
pub open spec fn start_seq(s: Style) -> Seq<char> {
    if spec_is_plain(s) {
        Seq::empty()
    } else {
        esc_intro() + join_upto(style_codes(s), style_codes(s).len() as int) + seq!['m']
    }
}

/// `text` wrapped in the style's start sequence and the canonical reset;
/// a plain style wraps nothing and leaves the text as it is.
pub open spec fn wrap_seq(s: Style, text: Seq<char>) -> Seq<char> {
    if spec_is_plain(s) {
        text
    } else {
        start_seq(s) + text + reset_seq()
    }
}

/// A style is plain exactly when it contributes no numeric parameter.
pub proof fn lemma_plain_codes(s: Style)
    ensures
        spec_is_plain(s) <==> style_codes(s).len() == 0,
{
}

/// The canonical reset sequence as a string slice.
pub fn reset_str() -> (r: &'static str)
    ensures
        r@ == reset_seq(),
{
    proof {
        reveal_strlit("\u{1b}[0m");
    }
    let r = "\u{1b}[0m";
    proof {
        assert(r@ =~= reset_seq());
    }
    r
}

/// The foreground parameter of `c` as a string slice.
pub fn fg_code_str(c: Color) -> (r: &'static str)
    ensures
        r@ == fg_code(c),
{
    proof {
        reveal_strlit("39");
        reveal_strlit("30");
        reveal_strlit("31");
        reveal_strlit("32");
        reveal_strlit("33");
        reveal_strlit("34");
        reveal_strlit("35");
        reveal_strlit("36");
        reveal_strlit("37");
        reveal_strlit("90");
        reveal_strlit("91");
        reveal_strlit("92");
        reveal_strlit("93");
        reveal_strlit("94");
        reveal_strlit("95");
        reveal_strlit("96");
        reveal_strlit("97");
    }
    let r = match c {
        Color::Default => "39",
        Color::Black => "30",
        Color::Red => "31",
        Color::Green => "32",
        Color::Yellow => "33",
        Color::Blue => "34",
        Color::Magenta => "35",
        Color::Cyan => "36",
        Color::White => "37",
        Color::BrightBlack => "90",
        Color::BrightRed => "91",
        Color::BrightGreen => "92",
        Color::BrightYellow => "93",
        Color::BrightBlue => "94",
        Color::BrightMagenta => "95",
        Color::BrightCyan => "96",
        Color::BrightWhite => "97",
    };
    proof {
        assert(r@ =~= fg_code(c));
    }
    r
}

/// The background parameter of `c` as a string slice.
pub fn bg_code_str(c: Color) -> (r: &'static str)
    ensures
        r@ == bg_code(c),
{
    proof {
        reveal_strlit("49");
        reveal_strlit("40");
        reveal_strlit("41");
        reveal_strlit("42");
        reveal_strlit("43");
        reveal_strlit("44");
        reveal_strlit("45");
        reveal_strlit("46");
        reveal_strlit("47");
        reveal_strlit("100");
        reveal_strlit("101");
        reveal_strlit("102");
        reveal_strlit("103");
        reveal_strlit("104");
        reveal_strlit("105");
        reveal_strlit("106");
        reveal_strlit("107");
    }
    let r = match c {
        Color::Default => "49",
        Color::Black => "40",
        Color::Red => "41",
        Color::Green => "42",
        Color::Yellow => "43",
        Color::Blue => "44",
        Color::Magenta => "45",
        Color::Cyan => "46",
        Color::White => "47",
        Color::BrightBlack => "100",
        Color::BrightRed => "101",
        Color::BrightGreen => "102",
        Color::BrightYellow => "103",
        Color::BrightBlue => "104",
        Color::BrightMagenta => "105",
        Color::BrightCyan => "106",
        Color::BrightWhite => "107",
    };
    proof {
        assert(r@ =~= bg_code(c));
    }
    r
}

impl Style {
    /// Whether no attribute is active, in which case the style emits no
    /// escape sequences at all.
    pub fn is_plain(&self) -> (r: bool)
        ensures
            r == spec_is_plain(*self),
    {
        self.fg.is_none() && self.bg.is_none() && !self.bold && !self.faint && !self.italic
            && !self.underline
    }

    /// The style's numeric parameters, in the fixed stable order.
    #[verifier::rlimit(30)]
    fn collect_codes(&self) -> (codes: Vec<&'static str>)
        ensures
            codes@.len() == style_codes(*self).len(),
            forall|i: int| 0 <= i < codes@.len() ==> codes@[i]@ == style_codes(*self)[i],
    {
        let mut codes: Vec<&'static str> = Vec::new();
        let ghost mut gcodes: Seq<Seq<char>> = Seq::empty();
        if self.bold {
            codes.push("1");
            proof {
                reveal_strlit("1");
                gcodes = gcodes.push("1"@);
            }
        }
        if self.faint {
            codes.push("2");
            proof {
                reveal_strlit("2");
                gcodes = gcodes.push("2"@);
            }
        }
        if self.italic {
            codes.push("3");
            proof {
                reveal_strlit("3");
                gcodes = gcodes.push("3"@);
            }
        }
        if self.underline {
            codes.push("4");
            proof {
                reveal_strlit("4");
                gcodes = gcodes.push("4"@);
            }
        }
        match self.fg {
            Some(c) => {
                let f = fg_code_str(c);
                codes.push(f);
                proof {
                    gcodes = gcodes.push(fg_code(c));
                }
            },
            None => {},
        }
        match self.bg {
            Some(c) => {
                let b = bg_code_str(c);
                codes.push(b);
                proof {
                    gcodes = gcodes.push(bg_code(c));
                }
            },
            None => {},
        }
        proof {
            assert(gcodes =~~= style_codes(*self));
            assert(codes@.len() == gcodes.len());
            assert(forall|i: int| 0 <= i < gcodes.len() ==> codes@[i]@ == gcodes[i]);
        }
        codes
    }

    /// Resolve the style to its start sequence.
    pub fn start_sequence(&self) -> (r: String)
        ensures
            r@ == start_seq(*self),
    {
        let codes = self.collect_codes();
        let ghost gcodes: Seq<Seq<char>> = style_codes(*self);
        proof {
            lemma_plain_codes(*self);
        }
        if codes.len() == 0 {
            proof {
                assert(spec_is_plain(*self));
            }
            return String::new();
        }
        let mut r = String::new();
        r.append("\u{1b}[");
        proof {
            reveal_strlit("\u{1b}[");
            assert(r@ =~= esc_intro());
        }
        let mut i: usize = 0;
        while i < codes.len()
            invariant
                0 <= i <= codes.len(),
                codes@.len() == gcodes.len(),
                forall|j: int| 0 <= j < gcodes.len() ==> codes@[j]@ == gcodes[j],
                gcodes.len() > 0,
                r@ == esc_intro() + join_upto(gcodes, i as int),
            decreases codes.len() - i,
        {
            if i > 0 {
                r.append(";");
                proof {
                    reveal_strlit(";");
                    assert(";"@ =~= seq![';']);
                }
            }
            r.append(codes[i]);
            i = i + 1;
            proof {
                assert(r@ =~= esc_intro() + join_upto(gcodes, i as int));
            }
        }
        r.append("m");
        proof {
            reveal_strlit("m");
            assert("m"@ =~= seq!['m']);
            assert(!spec_is_plain(*self));
            assert(r@ =~= start_seq(*self));
        }
        r
    }

    /// Wrap `text` in the style's start sequence and the canonical reset.
    /// A plain style returns the text unchanged.
    pub fn paint(&self, text: &str) -> (r: String)
        ensures
            r@ == wrap_seq(*self, text@),
    {
        if self.is_plain() {
            return text.to_owned();
        }
        let mut r = self.start_sequence();
        r.append(text);
        r.append(reset_str());
        r
    }
}

/// A yellow-foreground style.
pub open spec fn spec_yellow() -> Style {
    Style {
        fg: Some(Color::Yellow),
        bg: None,
        bold: false,
        faint: false,
        italic: false,
        underline: false,
    }
}

#[verifier::when_used_as_spec(spec_yellow)]
pub fn yellow() -> (r: Style)
    ensures
        r == spec_yellow(),
{
    Style { fg: Some(Color::Yellow), ..Style::default()
}
}

/// A green-foreground style.
pub open spec fn spec_green() -> Style {
    Style {
        fg: Some(Color::Green),
        bg: None,
        bold: false,
        faint: false,
        italic: false,
        underline: false,
    }
}

#[verifier::when_used_as_spec(spec_green)]
pub fn green() -> (r: Style)
    ensures
        r == spec_green(),
{
    Style { fg: Some(Color::Green), ..Style::default()
}
}

/// A green, faint style.
pub open spec fn spec_green_and_faint() -> Style {
    Style {
        fg: Some(Color::Green),
        bg: None,
        bold: false,
        faint: true,
        italic: false,
        underline: false,
    }
}

#[verifier::when_used_as_spec(spec_green_and_faint)]
pub fn green_and_faint() -> (r: Style)
    ensures
        r == spec_green_and_faint(),
{
    Style { fg: Some(Color::Green), faint: true, ..Style::default()
}
}

/// A cyan-foreground style.
pub open spec fn spec_cyan() -> Style {
    Style {
        fg: Some(Color::Cyan),
        bg: None,
        bold: false,
        faint: false,
        italic: false,
        underline: false,
    }
}

#[verifier::when_used_as_spec(spec_cyan)]
pub fn cyan() -> (r: Style)
    ensures
        r == spec_cyan(),
{
    Style { fg: Some(Color::Cyan), ..Style::default()
}
}

/// A red-foreground style.
pub open spec fn spec_red() -> Style {
    Style {
        fg: Some(Color::Red),
        bg: None,
        bold: false,
        faint: false,
        italic: false,
        underline: false,
    }
}

#[verifier::when_used_as_spec(spec_red)]
pub fn red() -> (r: Style)
    ensures
        r == spec_red(),
{
    Style { fg: Some(Color::Red), ..Style::default()
}
}

/// A red, faint style.
pub open spec fn spec_red_and_faint() -> Style {
    Style {
        fg: Some(Color::Red),
        bg: None,
        bold: false,
        faint: true,
        italic: false,
        underline: false,
    }
}

#[verifier::when_used_as_spec(spec_red_and_faint)]
pub fn red_and_faint() -> (r: Style)
    ensures
        r == spec_red_and_faint(),
{
    Style { fg: Some(Color::Red), faint: true, ..Style::default()
}
}

/// A white-foreground style.
pub open spec fn spec_white() -> Style {
    Style {
        fg: Some(Color::White),
        bg: None,
        bold: false,
        faint: false,
        italic: false,
        underline: false,
    }
}

#[verifier::when_used_as_spec(spec_white)]
pub fn white() -> (r: Style)
    ensures
        r == spec_white(),
{
    Style { fg: Some(Color::White), ..Style::default()
}
}

/// A faint style with no color of its own.
pub open spec fn spec_faint() -> Style {
    Style {
        fg: None,
        bg: None,
        bold: false,
        faint: true,
        italic: false,
        underline: false,
    }
}

#[verifier::when_used_as_spec(spec_faint)]
pub fn faint() -> (r: Style)
    ensures
        r == spec_faint(),
{
    Style { faint: true, ..Style::default()
}
}

/// A blue-foreground style.
pub open spec fn spec_blue() -> Style {
    Style {
        fg: Some(Color::Blue),
        bg: None,
        bold: false,
        faint: false,
        italic: false,
        underline: false,
    }
}

#[verifier::when_used_as_spec(spec_blue)]
pub fn blue() -> (r: Style)
    ensures
        r == spec_blue(),
{
    Style { fg: Some(Color::Blue), ..Style::default()
}
}

/// A blue, faint style.
pub open spec fn spec_blue_and_faint() -> Style {
    Style {
        fg: Some(Color::Blue),
        bg: None,
        bold: false,
        faint: true,
        italic: false,
        underline: false,
    }
}

#[verifier::when_used_as_spec(spec_blue_and_faint)]
pub fn blue_and_faint() -> (r: Style)
    ensures
        r == spec_blue_and_faint(),
{
    Style { fg: Some(Color::Blue), faint: true, ..Style::default()
}
}

/// A blue, italic style.
pub open spec fn spec_blue_and_italic() -> Style {
    Style {
        fg: Some(Color::Blue),
        bg: None,
        bold: false,
        faint: false,
        italic: true,
        underline: false,
    }
}

#[verifier::when_used_as_spec(spec_blue_and_italic)]
pub fn blue_and_italic() -> (r: Style)
    ensures
        r == spec_blue_and_italic(),
{
    Style { fg: Some(Color::Blue), italic: true, ..Style::default()
}
}

/// A red-background style.
pub open spec fn spec_red_background() -> Style {
    Style {
        fg: None,
        bg: Some(Color::Red),
        bold: false,
        faint: false,
        italic: false,
        underline: false,
    }
}

#[verifier::when_used_as_spec(spec_red_background)]
pub fn red_background() -> (r: Style)
    ensures
        r == spec_red_background(),
{
    Style { bg: Some(Color::Red), ..Style::default()
}
}

/// A magenta-foreground style.
pub open spec fn spec_magenta() -> Style {
    Style {
        fg: Some(Color::Magenta),
        bg: None,
        bold: false,
        faint: false,
        italic: false,
        underline: false,
    }
}

#[verifier::when_used_as_spec(spec_magenta)]
pub fn magenta() -> (r: Style)
    ensures
        r == spec_magenta(),
{
    Style { fg: Some(Color::Magenta), ..Style::default()
}
}

/// A magenta, italic style.
pub open spec fn spec_magenta_and_italic() -> Style {
    Style {
        fg: Some(Color::Magenta),
        bg: None,
        bold: false,
        faint: false,
        italic: true,
        underline: false,
    }
}

#[verifier::when_used_as_spec(spec_magenta_and_italic)]
pub fn magenta_and_italic() -> (r: Style)
    ensures
        r == spec_magenta_and_italic(),
{
    Style { fg: Some(Color::Magenta), italic: true, ..Style::default()
}
}

} // verus!
