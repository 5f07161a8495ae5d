use inlet_manifold::config::KeywordConfig;
use inlet_manifold::normalizer::normalize_keyword_configs;
use inlet_manifold::Color::Blue;
use inlet_manifold::Color::Green;
use inlet_manifold::Color::Red;
use inlet_manifold::Style;

#[test]
fn test_normalize_keyword_configs() {
    let configs = vec![
        KeywordConfig {
            words: vec!["hello".to_string(), "world".to_string()],
            style: Style {
                fg: Some(Red),
                bg: None,
                bold: true,
                faint: false,
                italic: false,
                underline: false,
            },
        },
        KeywordConfig {
            words: vec!["foo".to_string(), "bar".to_string()],
            style: Style {
                fg: Some(Red),
                bg: None,
                bold: true,
                faint: false,
                italic: false,
                underline: false,
            },
        },
        KeywordConfig {
            words: vec!["baz".to_string()],
            style: Style {
                fg: Some(Green),
                bg: None,
                bold: false,
                faint: false,
                italic: false,
                underline: true,
            },
        },
    ];

    let expected = vec![
        KeywordConfig {
            words: vec![
                "hello".to_string(),
                "world".to_string(),
                "foo".to_string(),
                "bar".to_string(),
            ],
            style: Style {
                fg: Some(Red),
                bg: None,
                bold: true,
                faint: false,
                italic: false,
                underline: false,
            },
        },
        KeywordConfig {
            words: vec!["baz".to_string()],
            style: Style {
                fg: Some(Green),
                bg: None,
                bold: false,
                faint: false,
                italic: false,
                underline: true,
            },
        },
    ];

    let normalized_configs = normalize_keyword_configs(configs);
    assert_eq!(normalized_configs, expected);
}

#[test]
fn test_normalize_keyword_configs_empty() {
    let configs: Vec<KeywordConfig> = vec![];
    let expected: Vec<KeywordConfig> = vec![];
    let normalized_configs = normalize_keyword_configs(configs);
    assert_eq!(normalized_configs, expected);
}

#[test]
fn test_normalize_keyword_configs_no_duplicates() {
    let configs = vec![KeywordConfig {
        words: vec!["unique".to_string()],
        style: Style {
            fg: Some(Blue),
            bg: None,
            bold: false,
            faint: false,
            italic: true,
            underline: false,
        },
    }];

    let expected = vec![KeywordConfig {
        words: vec!["unique".to_string()],
        style: Style {
            fg: Some(Blue),
            bg: None,
            bold: false,
            faint: false,
            italic: true,
            underline: false,
        },
    }];

    let normalized_configs = normalize_keyword_configs(configs);
    assert_eq!(normalized_configs, expected);
}
