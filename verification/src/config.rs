//! One configuration value type per pattern highlighter: the styles of the
//! semantic sub-parts of a match, plus any literal tokens.  Each carries
//! documented defaults.

use vstd::prelude::*;

use crate::style::blue;
use crate::style::blue_and_faint;
use crate::style::blue_and_italic;
use crate::style::cyan;
use crate::style::faint;
use crate::style::green;
use crate::style::green_and_faint;
use crate::style::magenta;
use crate::style::magenta_and_italic;
use crate::style::red;
use crate::style::red_and_faint;
use crate::style::white;
use crate::style::yellow;
use crate::style::Color;
use crate::style::Style;

verus! {

/// Configuration of the number highlighter.
pub struct NumberConfig {
    pub style: Style,
}

impl Default for NumberConfig {
    /// Numbers default to cyan.
    fn default() -> (r: Self)
        ensures
            r.style == (Style {
                fg: Some(Color::Cyan),
                bg: None,
                bold: false,
                faint: false,
                italic: false,
                underline: false,
            }),
    {
        NumberConfig { style: cyan() }
    }
}

/// Configuration of the UUID highlighter.
pub struct UuidConfig {
    pub number: Style,
    pub letter: Style,
    pub dash: Style,
}

impl Default for UuidConfig {
    /// Digits default to italic blue, letters to italic magenta, dashes to
    /// red.
    fn default() -> (r: Self)
        ensures
            r.number == (Style {
                fg: Some(Color::Blue),
                bg: None,
                bold: false,
                faint: false,
                italic: true,
                underline: false,
            }),
            r.letter == (Style {
                fg: Some(Color::Magenta),
                bg: None,
                bold: false,
                faint: false,
                italic: true,
                underline: false,
            }),
            r.dash == (Style {
                fg: Some(Color::Red),
                bg: None,
                bold: false,
                faint: false,
                italic: false,
                underline: false,
            }),
    {
        UuidConfig { number: blue_and_italic(), letter: magenta_and_italic(), dash: red() }
    }
}

/// Configuration of the key-value highlighter.
pub struct KeyValueConfig {
    pub key: Style,
    pub separator: Style,
}

impl Default for KeyValueConfig {
    /// Keys default to faint, separators to white.
    fn default() -> (r: Self)
        ensures
            r.key == (Style {
                fg: None,
                bg: None,
                bold: false,
                faint: true,
                italic: false,
                underline: false,
            }),
            r.separator == (Style {
                fg: Some(Color::White),
                bg: None,
                bold: false,
                faint: false,
                italic: false,
                underline: false,
            }),
    {
        KeyValueConfig { key: faint(), separator: white() }
    }
}

/// Configuration of the date and time highlighters.
#[derive(Clone, Copy)]
pub struct DateTimeConfig {
    pub date: Style,
    pub time: Style,
    pub zone: Style,
    pub separator: Style,
}

impl Default for DateTimeConfig {
    /// Dates default to magenta, times to blue, zones to red, separators to
    /// faint.
    fn default() -> (r: Self)
        ensures
            r.date == (Style {
                fg: Some(Color::Magenta),
                bg: None,
                bold: false,
                faint: false,
                italic: false,
                underline: false,
            }),
            r.time == (Style {
                fg: Some(Color::Blue),
                bg: None,
                bold: false,
                faint: false,
                italic: false,
                underline: false,
            }),
            r.zone == (Style {
                fg: Some(Color::Red),
                bg: None,
                bold: false,
                faint: false,
                italic: false,
                underline: false,
            }),
            r.separator == (Style {
                fg: None,
                bg: None,
                bold: false,
                faint: true,
                italic: false,
                underline: false,
            }),
    {
        DateTimeConfig { date: magenta(), time: blue(), zone: red(), separator: faint() }
    }
}

/// Configuration of the IPv4 highlighter.
pub struct IpV4Config {
    pub number: Style,
    pub separator: Style,
}

impl Default for IpV4Config {
    /// Segments default to italic blue, separators to red.
    fn default() -> (r: Self)
        ensures
            r.number == (Style {
                fg: Some(Color::Blue),
                bg: None,
                bold: false,
                faint: false,
                italic: true,
                underline: false,
            }),
            r.separator == (Style {
                fg: Some(Color::Red),
                bg: None,
                bold: false,
                faint: false,
                italic: false,
                underline: false,
            }),
    {
        IpV4Config { number: blue_and_italic(), separator: red() }
    }
}

/// Configuration of the IPv6 highlighter.
pub struct IpV6Config {
    pub number: Style,
    pub letter: Style,
    pub separator: Style,
}

impl Default for IpV6Config {
    /// Digits default to italic blue, letters to italic magenta,
    /// separators to red.
    fn default() -> (r: Self)
        ensures
            r.number == (Style {
                fg: Some(Color::Blue),
                bg: None,
                bold: false,
                faint: false,
                italic: true,
                underline: false,
            }),
            r.letter == (Style {
                fg: Some(Color::Magenta),
                bg: None,
                bold: false,
                faint: false,
                italic: true,
                underline: false,
            }),
            r.separator == (Style {
                fg: Some(Color::Red),
                bg: None,
                bold: false,
                faint: false,
                italic: false,
                underline: false,
            }),
    {
        IpV6Config { number: blue_and_italic(), letter: magenta_and_italic(), separator: red() }
    }
}

/// Configuration of the URL highlighter.
pub struct UrlConfig {
    pub http: Style,
    pub https: Style,
    pub host: Style,
    pub path: Style,
    pub query_params_key: Style,
    pub query_params_value: Style,
    pub symbols: Style,
}

impl Default for UrlConfig {
    /// Scheme, host and path each get their own color; query keys are
    /// magenta, query values cyan, symbols red.
    fn default() -> (r: Self)
        ensures
            r.http == (Style {
                fg: Some(Color::Red),
                bg: None,
                bold: false,
                faint: true,
                italic: false,
                underline: false,
            }),
            r.https == (Style {
                fg: Some(Color::Green),
                bg: None,
                bold: false,
                faint: true,
                italic: false,
                underline: false,
            }),
            r.host == (Style {
                fg: Some(Color::Blue),
                bg: None,
                bold: false,
                faint: true,
                italic: false,
                underline: false,
            }),
            r.path == (Style {
                fg: Some(Color::Blue),
                bg: None,
                bold: false,
                faint: false,
                italic: false,
                underline: false,
            }),
            r.query_params_key == (Style {
                fg: Some(Color::Magenta),
                bg: None,
                bold: false,
                faint: false,
                italic: false,
                underline: false,
            }),
            r.query_params_value == (Style {
                fg: Some(Color::Cyan),
                bg: None,
                bold: false,
                faint: false,
                italic: false,
                underline: false,
            }),
            r.symbols == (Style {
                fg: Some(Color::Red),
                bg: None,
                bold: false,
                faint: false,
                italic: false,
                underline: false,
            }),
    {
        UrlConfig {
            http: red_and_faint(),
            https: green_and_faint(),
            host: blue_and_faint(),
            path: blue(),
            query_params_key: magenta(),
            query_params_value: cyan(),
            symbols: red(),
        }
    }
}

/// Configuration of the Unix path highlighter.
pub struct UnixPathConfig {
    pub segment: Style,
    pub separator: Style,
}

impl Default for UnixPathConfig {
    /// Path segments default to green, slashes to yellow.
    fn default() -> (r: Self)
        ensures
            r.segment == (Style {
                fg: Some(Color::Green),
                bg: None,
                bold: false,
                faint: false,
                italic: false,
                underline: false,
            }),
            r.separator == (Style {
                fg: Some(Color::Yellow),
                bg: None,
                bold: false,
                faint: false,
                italic: false,
                underline: false,
            }),
    {
        UnixPathConfig { segment: green(), separator: yellow() }
    }
}

/// Configuration of the pointer highlighter.
pub struct PointerConfig {
    pub number: Style,
    pub letter: Style,
    pub separator: Style,
    pub separator_token: char,
    pub x: Style,
}

impl Default for PointerConfig {
    /// Digits default to italic blue, letters to italic magenta, the
    /// separator to faint, the leading `x` to red.
    fn default() -> (r: Self)
        ensures
            r.number == (Style {
                fg: Some(Color::Blue),
                bg: None,
                bold: false,
                faint: false,
                italic: true,
                underline: false,
            }),
            r.letter == (Style {
                fg: Some(Color::Magenta),
                bg: None,
                bold: false,
                faint: false,
                italic: true,
                underline: false,
            }),
            r.separator == (Style {
                fg: None,
                bg: None,
                bold: false,
                faint: true,
                italic: false,
                underline: false,
            }),
            r.separator_token == '\u{2022}',
            r.x == (Style {
                fg: Some(Color::Red),
                bg: None,
                bold: false,
                faint: false,
                italic: false,
                underline: false,
            }),
    {
        PointerConfig {
            number: blue_and_italic(),
            letter: magenta_and_italic(),
            separator: faint(),
            separator_token: '\u{2022}',
            x: red(),
        }
    }
}

/// Configuration of the Unix process highlighter.
pub struct UnixProcessConfig {
    pub name: Style,
    pub id: Style,
    pub bracket: Style,
}

impl Default for UnixProcessConfig {
    /// Process names default to green, ids to yellow, brackets to red.
    fn default() -> (r: Self)
        ensures
            r.name == (Style {
                fg: Some(Color::Green),
                bg: None,
                bold: false,
                faint: false,
                italic: false,
                underline: false,
            }),
            r.id == (Style {
                fg: Some(Color::Yellow),
                bg: None,
                bold: false,
                faint: false,
                italic: false,
                underline: false,
            }),
            r.bracket == (Style {
                fg: Some(Color::Red),
                bg: None,
                bold: false,
                faint: false,
                italic: false,
                underline: false,
            }),
    {
        UnixProcessConfig { name: green(), id: yellow(), bracket: red() }
    }
}

/// Configuration of the JSON highlighter.
pub struct JsonConfig {
    pub key: Style,
    pub quote_token: Style,
    pub curly_bracket: Style,
    pub square_bracket: Style,
    pub comma: Style,
    pub colon: Style,
}

impl Default for JsonConfig {
    /// Keys default to faint; brackets and punctuation get fixed colors.
    fn default() -> (r: Self)
        ensures
            r.key == (Style {
                fg: None,
                bg: None,
                bold: false,
                faint: true,
                italic: false,
                underline: false,
            }),
            r.quote_token == (Style {
                fg: Some(Color::Default),
                bg: None,
                bold: false,
                faint: false,
                italic: false,
                underline: false,
            }),
            r.curly_bracket == (Style {
                fg: Some(Color::Blue),
                bg: None,
                bold: false,
                faint: false,
                italic: false,
                underline: false,
            }),
            r.square_bracket == (Style {
                fg: Some(Color::Red),
                bg: None,
                bold: false,
                faint: false,
                italic: false,
                underline: false,
            }),
            r.comma == (Style {
                fg: Some(Color::Red),
                bg: None,
                bold: false,
                faint: false,
                italic: false,
                underline: false,
            }),
            r.colon == (Style {
                fg: Some(Color::Red),
                bg: None,
                bold: false,
                faint: false,
                italic: false,
                underline: false,
            }),
    {
        JsonConfig {
            key: faint(),
            quote_token: Style {
                fg: Some(Color::Default),
                bg: None,
                bold: false,
                faint: false,
                italic: false,
                underline: false,
            },
            curly_bracket: blue(),
            square_bracket: red(),
            comma: red(),
            colon: red(),
        }
    }
}

/// Configuration of the quote highlighter.
pub struct QuotesConfig {
    pub quotes_token: char,
    pub style: Style,
}

impl Default for QuotesConfig {
    /// The double quote, colored yellow.
    fn default() -> (r: Self)
        ensures
            r.quotes_token == '"',
            r.style == (Style {
                fg: Some(Color::Yellow),
                bg: None,
                bold: false,
                faint: false,
                italic: false,
                underline: false,
            }),
    {
        QuotesConfig { quotes_token: '"', style: yellow() }
    }
}

/// One keyword list and the style its words are painted in.
#[derive(Debug, PartialEq)]
pub struct KeywordConfig {
    pub words: Vec<String>,
    pub style: Style,
}

} // verus!
