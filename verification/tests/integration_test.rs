use inlet_manifold::highlighter::AnyHighlighter;
use inlet_manifold::highlighters::number::NumberHighlighter;
use inlet_manifold::highlighters::quote::QuoteHighlighter;
use inlet_manifold::manifold::Manifold;
use inlet_manifold::split_and_apply::apply_only_to_unhighlighted;
use inlet_manifold::style::cyan;
use inlet_manifold::style::red;
use inlet_manifold::style::yellow;
use inlet_manifold::Color;
use inlet_manifold::Error;
use inlet_manifold::Highlighter;
use inlet_manifold::NumberConfig;
use inlet_manifold::QuotesConfig;
use inlet_manifold::Style;
use inlet_manifold::UuidConfig;

#[test]
fn default_constructor_should_not_panic() {
    let result = Highlighter::default();

    assert!(
        result.highlighters.len() > 0,
        "Default constructor should never fail"
    );
}

#[test]
fn it_works() {
    let builder = Highlighter::builder()
        .with_number_highlighter(NumberConfig {
            style: Style {
                fg: Some(Color::Cyan),
                ..Style::default()
            },
        })
        .with_quote_highlighter(QuotesConfig {
            quotes_token: '"',
            style: Style {
                fg: Some(Color::Yellow),
                ..Style::default()
            },
        })
        .with_uuid_highlighter(UuidConfig::default());

    let highlighter = match builder.build() {
        Ok(h) => h,
        Err(_) => panic!("Failed to build highlighter"),
    };

    let actual = highlighter.apply("Hello 123 world! ".to_string());
    let expected = "Hello \u{1b}[36m123\u{1b}[0m world! ".to_string();

    assert_eq!(actual, expected);
}

#[test]
fn pipeline_identity_on_unrecognized_text() {
    let highlighter = Highlighter::default();

    let input = "plain words only";
    let actual = highlighter.apply(input.to_string());

    assert_eq!(actual, input);
}

#[test]
fn reapplying_a_highlighter_is_idempotent() {
    let number = AnyHighlighter::Number(NumberHighlighter::new(cyan()));

    let once = apply_only_to_unhighlighted("a 1 and 23 b", &number);
    let twice = apply_only_to_unhighlighted(once.as_str(), &number);

    assert_eq!(once, twice);
}

#[test]
fn pipeline_order_is_observable_but_never_recolors() {
    let number = AnyHighlighter::Number(NumberHighlighter::new(red()));
    let quote = AnyHighlighter::Quote(QuoteHighlighter::new('"', yellow()));

    let input = r#"x "42" y"#;

    let number_first = {
        let step = apply_only_to_unhighlighted(input, &number);
        apply_only_to_unhighlighted(step.as_str(), &quote)
    };
    let quote_first = {
        let step = apply_only_to_unhighlighted(input, &quote);
        apply_only_to_unhighlighted(step.as_str(), &number)
    };

    assert_ne!(number_first, quote_first);
    // Whichever ran first, its colored span survives the second pass.
    assert!(number_first.contains("\u{1b}[31m42\u{1b}[0m"));
    assert!(quote_first.contains("\u{1b}[33m\"42\"\u{1b}[0m"));
}

#[test]
fn manifold_default_highlights_numbers() {
    let manifold = Manifold::default();

    let actual = manifold.apply("a 7 z".to_string());

    assert_eq!(actual, "a \u{1b}[36m7\u{1b}[0m z");
}

#[test]
fn manifold_builder_with_styles() {
    let manifold = match Manifold::builder()
        .with_number_highlighter_from_style(red())
        .with_quote_highlighter_from_style('\'', yellow())
        .build()
    {
        Ok(m) => m,
        Err(_) => panic!("Manifold construction should never fail."),
    };

    let actual = manifold.apply("say '5' now".to_string());

    // The number pass colors the 5 first; the quote pass then sees two
    // plain chunks with one quote token each (odd counts) and leaves them
    // unchanged.
    assert_eq!(actual, "say '\u{1b}[31m5\u{1b}[0m' now");
}

#[test]
fn error_message_joins_all_errors() {
    let error = Error::HighlighterErrors(vec!["first".to_string(), "second".to_string()]);

    assert_eq!(error.message(), "first\nsecond\n");
}
