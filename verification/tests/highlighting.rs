use inlet_manifold::config::DateTimeConfig;
use inlet_manifold::config::IpV4Config;
use inlet_manifold::config::IpV6Config;
use inlet_manifold::config::JsonConfig;
use inlet_manifold::config::KeywordConfig;
use inlet_manifold::config::UnixPathConfig;
use inlet_manifold::config::UnixProcessConfig;
use inlet_manifold::config::UuidConfig;
use inlet_manifold::highlighters::date_dash::DateDashHighlighter;
use inlet_manifold::highlighters::date_time::TimeHighlighter;
use inlet_manifold::highlighters::ip_v4::IpV4Highlighter;
use inlet_manifold::highlighters::ip_v6::IpV6Highlighter;
use inlet_manifold::highlighters::json::JsonHighlighter;
use inlet_manifold::highlighters::keyword::KeywordHighlighter;
use inlet_manifold::highlighters::number::NumberHighlighter;
use inlet_manifold::highlighters::quote::QuoteHighlighter;
use inlet_manifold::highlighters::unix_path::UnixPathHighlighter;
use inlet_manifold::highlighters::unix_process::UnixProcessHighlighter;
use inlet_manifold::highlighters::uuid::UuidHighlighter;
use inlet_manifold::style::blue;
use inlet_manifold::style::green;
use inlet_manifold::style::magenta;
use inlet_manifold::style::red;
use inlet_manifold::style::red_background;
use inlet_manifold::style::yellow;
use inlet_manifold::style::cyan;
use inlet_manifold::Style;

fn convert_escape_codes(s: String) -> String {
    s.replace("\u{1b}[31m", "[red]")
        .replace("\u{1b}[32m", "[green]")
        .replace("\u{1b}[33m", "[yellow]")
        .replace("\u{1b}[34m", "[blue]")
        .replace("\u{1b}[35m", "[magenta]")
        .replace("\u{1b}[36m", "[cyan]")
        .replace("\u{1b}[37m", "[white]")
        .replace("\u{1b}[1m", "[bold]")
        .replace("\u{1b}[3m", "[italic]")
        .replace("\u{1b}[4m", "[underline]")
        .replace("\u{1b}[0m", "[reset]")
}

fn convert_highlight_codes(s: String) -> String {
    s.replace("[red]", "\u{1b}[31m")
        .replace("[green]", "\u{1b}[32m")
        .replace("[yellow]", "\u{1b}[33m")
        .replace("[blue]", "\u{1b}[34m")
        .replace("[magenta]", "\u{1b}[35m")
        .replace("[cyan]", "\u{1b}[36m")
        .replace("[white]", "\u{1b}[37m")
        .replace("[bold]", "\u{1b}[1m")
        .replace("[italic]", "\u{1b}[3m")
        .replace("[underline]", "\u{1b}[4m")
        .replace("[reset]", "\u{1b}[0m")
}

#[test]
fn test_escape_code_converter() {
    let input = "\u{1b}[31mHello \u{1b}[1mWorld\u{1b}[0m!".to_string();
    let expected = "[red]Hello [bold]World[reset]!";

    let actual = convert_escape_codes(input);

    assert_eq!(actual, expected);
}

#[test]
fn test_highlight_code_converter() {
    let input = "[red]Hello [bold]World[reset]!".to_string();
    let expected = "\u{1b}[31mHello \u{1b}[1mWorld\u{1b}[0m!";

    let actual = convert_highlight_codes(input);

    assert_eq!(actual, expected);
}

#[test]
fn test_multiple() {
    let highlighter = QuoteHighlighter::new('"', yellow());

    let cases = vec![
        (
            r#"Lorem ipsum "dolor" sit amet"#,
            r#"Lorem ipsum [yellow]"dolor"[reset] sit amet"#,
        ),
        (
            r#"Lorem ipsum dolor sit amet, consectetur adipiscing elit"#,
            r#"Lorem ipsum dolor sit amet, consectetur adipiscing elit"#,
        ),
    ];

    for (input, expected) in cases {
        let actual = highlighter.apply(input);
        assert_eq!(expected, convert_escape_codes(actual));
    }
}

#[test]
fn test_no_overwrite() {
    let highlighter = QuoteHighlighter::new('"', yellow());

    let input = convert_highlight_codes(r#"Hello "abc [red]def[reset] ghi" World"#.to_string());
    let expected = r#"Hello [yellow]"abc [red]def[reset][yellow] ghi"[reset] World"#;

    let actual = highlighter.apply(input.as_str());

    assert_eq!(convert_escape_codes(actual), expected);
}

#[test]
fn test_odd_number_of_highlight_tokens() {
    let highlighter = QuoteHighlighter::new('"', yellow());

    let input = r#"Hello "abc def ghi World"#;
    let expected = r#"Hello "abc def ghi World"#;

    let actual = highlighter.apply(input);

    assert_eq!(convert_escape_codes(actual), expected);
}

#[test]
fn number_test_number_highlighter() {
    let highlighter = NumberHighlighter::new(red());

    let cases = vec![
        (
            "The fox jumps over 13 dogs. The number 42.5 is here.",
            "The fox jumps over [red]13[reset] dogs. The number [red]42.5[reset] is here.",
        ),
        (
            "There are 1001 nights in the tale.",
            "There are [red]1001[reset] nights in the tale.",
        ),
        ("No numbers here!", "No numbers here!"),
    ];

    for (input, expected) in cases {
        let actual = highlighter.apply(input);
        assert_eq!(expected, convert_escape_codes(actual));
    }
}

#[test]
fn test_uuid_highlighter() {
    let highlighter = UuidHighlighter::new(UuidConfig {
        number: blue(),
        letter: green(),
        dash: red(),
    });

    let cases = vec![
        (
            "The UUID is 123e4567-e89b-12d3-a456-426614174000.",
            "The UUID is [blue]1[reset][blue]2[reset][blue]3[reset][green]e[reset][blue]4[reset][blue]5[reset][blue]6[reset][blue]7[reset][red]-[reset][green]e[reset][blue]8[reset][blue]9[reset][green]b[reset][red]-[reset][blue]1[reset][blue]2[reset][green]d[reset][blue]3[reset][red]-[reset][green]a[reset][blue]4[reset][blue]5[reset][blue]6[reset][red]-[reset][blue]4[reset][blue]2[reset][blue]6[reset][blue]6[reset][blue]1[reset][blue]4[reset][blue]1[reset][blue]7[reset][blue]4[reset][blue]0[reset][blue]0[reset][blue]0[reset]."
        ),
        (
            "Another UUID is f47ac10b-58cc-4372-a567-0e02b2c3d479.",
            "Another UUID is [green]f[reset][blue]4[reset][blue]7[reset][green]a[reset][green]c[reset][blue]1[reset][blue]0[reset][green]b[reset][red]-[reset][blue]5[reset][blue]8[reset][green]c[reset][green]c[reset][red]-[reset][blue]4[reset][blue]3[reset][blue]7[reset][blue]2[reset][red]-[reset][green]a[reset][blue]5[reset][blue]6[reset][blue]7[reset][red]-[reset][blue]0[reset][green]e[reset][blue]0[reset][blue]2[reset][green]b[reset][blue]2[reset][green]c[reset][blue]3[reset][green]d[reset][blue]4[reset][blue]7[reset][blue]9[reset]."
        ),
        (
            "No UUID here!",
            "No UUID here!"
        ),
    ];

    for (input, expected) in cases {
        let actual = highlighter.apply(input);
        assert_eq!(expected, convert_escape_codes(actual));
    }
}

#[test]
fn test_date_dash_highlighter() {
    let config = DateTimeConfig {
        date: magenta(),
        separator: blue(),
        ..DateTimeConfig::default()
    };
    let highlighter = DateDashHighlighter::new(config);

    let cases = vec![
        (
            "2022-09-09",
            "[magenta]2022[reset][blue]-[reset][magenta]09[reset][blue]-[reset][magenta]09[reset]",
        ),
        (
            "2022/12/30",
            "[magenta]2022[reset][blue]/[reset][magenta]12[reset][blue]/[reset][magenta]30[reset]",
        ),
        (
            "09-09-2022",
            "[magenta]09[reset][blue]-[reset][magenta]09[reset][blue]-[reset][magenta]2022[reset]",
        ),
        (
            "09/09/2022",
            "[magenta]09[reset][blue]/[reset][magenta]09[reset][blue]/[reset][magenta]2022[reset]",
        ),
        (
            "09/Sep/2024",
            "[magenta]09[reset][blue]/[reset][magenta]Sep[reset][blue]/[reset][magenta]2024[reset]",
        ),
        ("3022-09-09", "3022-09-09"),
        ("2022-19-39", "2022-19-39"),
        ("2022/19/39", "2022/19/39"),
        ("19/39/3023", "19/39/3023"),
        ("No dates here!", "No dates here!"),
    ];

    for (input, expected) in cases {
        let actual = highlighter.apply(input);
        assert_eq!(expected, convert_escape_codes(actual));
    }
}

#[test]
fn test_time_highlighter() {
    let config = DateTimeConfig {
        date: Default::default(),
        time: red(),
        zone: blue(),
        separator: yellow(),
    };
    let highlighter = TimeHighlighter::new(config);

    let cases = vec![
        (
            "07:46:34",
            "[red]07[reset][yellow]:[reset][red]46[reset][yellow]:[reset][red]34[reset]",
        ),
        (
            "10:51:19.251",
            "[red]10[reset][yellow]:[reset][red]51[reset][yellow]:[reset][red]19[reset][yellow].[reset][red]251[reset]"
         ),
        (
            "11:47:39:850",
            "[red]11[reset][yellow]:[reset][red]47[reset][yellow]:[reset][red]39[reset][yellow]:[reset][red]850[reset]"
        ),
        (
            "3:33:30",
            "[red]3[reset][yellow]:[reset][red]33[reset][yellow]:[reset][red]30[reset]"
        ),
        (
            "2022-09-09 11:48:34,534",
            "2022-09-09[blue] [reset][red]11[reset][yellow]:[reset][red]48[reset][yellow]:[reset][red]34[reset][yellow],[reset][red]534[reset]"
        ),
        (
            "2022-09-22T07:46:34.171800155Z",
            "2022-09-22T07:46:34.171800155Z"
        ),
        ("No time here!", "No time here!"),
    ];

    for (input, expected) in cases {
        let actual = highlighter.apply(input);
        assert_eq!(expected, convert_escape_codes(actual));
    }
}

#[test]
fn ip_v4_test_ip_v4_highlighter() {
    let highlighter = IpV4Highlighter::new(IpV4Config {
        number: blue(),
        separator: red(),
    });

    let cases = vec![
        (
            "10.0.0.123",
            "[blue]10[reset][red].[reset][blue]0[reset][red].[reset][blue]0[reset][red].[reset][blue]123[reset]",
        ),
        (
            "192.168.0.1",
            "[blue]192[reset][red].[reset][blue]168[reset][red].[reset][blue]0[reset][red].[reset][blue]1[reset]",
        ),
        ("Invalid regex: 192.168.0", "Invalid regex: 192.168.0"),
    ];

    for (input, expected) in cases {
        let actual = highlighter.apply(input);
        assert_eq!(expected, convert_escape_codes(actual));
    }
}

#[test]
fn ip_v6_test_ip_v4_highlighter() {
    let highlighter = IpV6Highlighter::new(IpV6Config {
        number: blue(),
        letter: yellow(),
        separator: red(),
    });

    let cases = vec![
        (
            "2001:db8:0:0:0:ff00:42:8329",
            "[blue]2[reset][blue]0[reset][blue]0[reset][blue]1[reset][red]:[reset][yellow]d[reset][yellow]b[reset][blue]8[reset][red]:[reset][blue]0[reset][red]:[reset][blue]0[reset][red]:[reset][blue]0[reset][red]:[reset][yellow]f[reset][yellow]f[reset][blue]0[reset][blue]0[reset][red]:[reset][blue]4[reset][blue]2[reset][red]:[reset][blue]8[reset][blue]3[reset][blue]2[reset][blue]9[reset]"
        ),
        (
            "2001:db8::ff00:42:8329",
            "[blue]2[reset][blue]0[reset][blue]0[reset][blue]1[reset][red]:[reset][yellow]d[reset][yellow]b[reset][blue]8[reset][red]:[reset][red]:[reset][yellow]f[reset][yellow]f[reset][blue]0[reset][blue]0[reset][red]:[reset][blue]4[reset][blue]2[reset][red]:[reset][blue]8[reset][blue]3[reset][blue]2[reset][blue]9[reset]"
        ),
        ("Not ipv4: 192.168.0.1", "Not ipv4: 192.168.0.1"),
        ("11:47:39:850", "11:47:39:850"),
    ];

    for (input, expected) in cases {
        let actual = highlighter.apply(input);
        assert_eq!(expected, convert_escape_codes(actual));
    }
}

#[test]
fn unix_path_test_number_highlighter() {
    let highlighter = UnixPathHighlighter::new(UnixPathConfig {
        segment: green(),
        separator: yellow(),
    });

    let cases = vec![
        ("/user/local",

         "[yellow]/[reset][green]u[reset][green]s[reset][green]e[reset][green]r[reset][yellow]/[reset][green]l[reset][green]o[reset][green]c[reset][green]a[reset][green]l[reset]"),
                     ("No numbers here!", "No numbers here!")];

    for (input, expected) in cases {
        let actual = highlighter.apply(input);
        assert_eq!(expected, convert_escape_codes(actual));
    }
}

#[test]
fn test_unix_process_highlighter() {
    let highlighter = UnixProcessHighlighter::new(UnixProcessConfig {
        name: magenta(),
        id: green(),
        bracket: blue(),
    });

    let cases = vec![
        (
            "process[1]",
            "[magenta]process[reset][blue][[reset][green]1[reset][blue]][reset]",
        ),
        ("No process here!", "No process here!"),
    ];

    for (input, expected) in cases {
        let actual = highlighter.apply(input);
        assert_eq!(expected, convert_escape_codes(actual));
    }
}

#[test]
fn test_keyword_highlighter() {
    let highlighter = KeywordHighlighter::new(KeywordConfig {
        words: vec!["ERROR".to_string(), "WARN".to_string()],
        style: red(),
    });

    let cases = vec![
        ("ERROR: disk full", "[red]ERROR[reset]: disk full"),
        ("a WARN too", "a [red]WARN[reset] too"),
        ("TERRORISTS", "TERRORISTS"),
        ("no keywords", "no keywords"),
    ];

    for (input, expected) in cases {
        let actual = highlighter.apply(input);
        assert_eq!(expected, convert_escape_codes(actual));
    }
}

#[test]
fn test_keyword_highlighter_background() {
    let highlighter = KeywordHighlighter::new(KeywordConfig {
        words: vec!["ERROR".to_string()],
        style: red_background(),
    });

    let actual = highlighter.apply("an ERROR here");

    assert_eq!(actual, "an \u{1b}[41mERROR\u{1b}[0m here");
}

#[test]
fn test_json_highlighter() {
    let config = JsonConfig {
        key: yellow(),
        quote_token: blue(),
        curly_bracket: cyan(),
        square_bracket: green(),
        comma: red(),
        colon: magenta(),
    };
    let highlighter = JsonHighlighter::new(config);

    let input = r#"{ "name": "John", "age": 30 }"#;
    let expected = "[cyan]{[reset] [blue]\"[reset][yellow]name[reset][blue]\"[reset][magenta]:[reset] [blue]\"[reset]John[blue]\"[reset][red],[reset] [blue]\"[reset][yellow]age[reset][blue]\"[reset][magenta]:[reset] 30 [cyan]}[reset]";

    let actual = highlighter.apply(input);
    assert_eq!(convert_escape_codes(actual), expected);

    let not_json = highlighter.apply("No jsons here!");
    assert_eq!(not_json, "No jsons here!");

    // The grammar refuses what JSON refuses: a leading zero or a bad
    // escape leaves the input untouched.
    assert_eq!(highlighter.apply("[ 01 ]"), "[ 01 ]");
    assert_eq!(highlighter.apply(r#""a\x""#), r#""a\x""#);
}

#[test]
fn test_json_highlighter_plain_styles_are_identity() {
    let highlighter = JsonHighlighter::new(JsonConfig {
        key: Style::default(),
        quote_token: Style::default(),
        curly_bracket: Style::default(),
        square_bracket: Style::default(),
        comma: Style::default(),
        colon: Style::default(),
    });

    // Tokens are styled in place and whitespace is copied verbatim, so
    // with plain styles the output is the input, character for character.
    let input = "  { \"a\" : [ 1 , 2 ] ,\t\"b\": null }  ";
    assert_eq!(highlighter.apply(input), input);
}

#[test]
fn test_json_highlighter_array() {
    let config = JsonConfig {
        key: yellow(),
        quote_token: blue(),
        curly_bracket: cyan(),
        square_bracket: green(),
        comma: red(),
        colon: magenta(),
    };
    let highlighter = JsonHighlighter::new(config);

    let actual = highlighter.apply(r#"[1, "two", null]"#);
    let expected = "[green][[reset]1[red],[reset] [blue]\"[reset]two[blue]\"[reset][red],[reset] null[green]][reset]";

    assert_eq!(convert_escape_codes(actual), expected);
}

#[test]
fn test_style_start_sequences() {
    assert_eq!(red().start_sequence(), "\u{1b}[31m");
    assert_eq!(cyan().start_sequence(), "\u{1b}[36m");
    assert_eq!(
        inlet_manifold::style::green_and_faint().start_sequence(),
        "\u{1b}[2;32m"
    );
    assert_eq!(red_background().start_sequence(), "\u{1b}[41m");
    assert_eq!(Style::default().start_sequence(), "");
    assert_eq!(Style::default().paint("abc"), "abc");
    assert_eq!(red().paint("abc"), "\u{1b}[31mabc\u{1b}[0m");
}

#[test]
fn test_quote_flushes_partial_reset_before_close() {
    let highlighter = QuoteHighlighter::new('"', yellow());

    // The three buffered characters are a strict prefix of the reset
    // sequence when the closing quote arrives; they are flushed verbatim
    // before the close.
    let input = "\"a\u{1b}[0\"";
    let actual = highlighter.apply(input);

    assert_eq!(actual, "\u{1b}[33m\"a\u{1b}[0\"\u{1b}[0m");
}

#[test]
fn test_empty_input_stays_empty() {
    let quote = QuoteHighlighter::new('"', yellow());
    let number = NumberHighlighter::new(red());

    assert_eq!(quote.apply(""), "");
    assert_eq!(number.apply(""), "");
}

#[test]
fn test_json_highlighter_nested() {
    let config = JsonConfig {
        key: yellow(),
        quote_token: blue(),
        curly_bracket: cyan(),
        square_bracket: green(),
        comma: red(),
        colon: magenta(),
    };
    let highlighter = JsonHighlighter::new(config);

    let actual = highlighter.apply(r#"{"a": [1, {"b": 2}]}"#);
    let expected = "[cyan]{[reset][blue]\"[reset][yellow]a[reset][blue]\"[reset][magenta]:[reset] [green][[reset]1[red],[reset] [cyan]{[reset][blue]\"[reset][yellow]b[reset][blue]\"[reset][magenta]:[reset] 2[cyan]}[reset][green]][reset][cyan]}[reset]";

    assert_eq!(convert_escape_codes(actual), expected);
}
