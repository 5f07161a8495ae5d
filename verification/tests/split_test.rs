use inlet_manifold::split_and_apply::split_into_chunks;
use inlet_manifold::split_and_apply::Chunk;

#[test]
fn test_split_into_chunks() {
    let input = "Here is a date \u{1b}[31m2023-06-24\u{1b}[0m, and here is a number 12345.";
    let chunks = split_into_chunks(input);

    assert_eq!(chunks.len(), 3);
    match &chunks[0] {
        Chunk::NotHighlighted(text) => assert_eq!(text.as_str(), "Here is a date "),
        _ => panic!("Unexpected chunk type."),
    }
    match &chunks[1] {
        Chunk::AlreadyHighlighted(text) => {
            assert_eq!(text.as_str(), "\u{1b}[31m2023-06-24\u{1b}[0m")
        },
        _ => panic!("Unexpected chunk type."),
    }
    match &chunks[2] {
        Chunk::NotHighlighted(text) => {
            assert_eq!(text.as_str(), ", and here is a number 12345.")
        },
        _ => panic!("Unexpected chunk type."),
    }
}

#[test]
fn test_split_unterminated_span() {
    let input = "plain \u{1b}[31mnever closed";
    let chunks = split_into_chunks(input);

    assert_eq!(chunks.len(), 2);
    match &chunks[0] {
        Chunk::NotHighlighted(text) => assert_eq!(text.as_str(), "plain "),
        _ => panic!("Unexpected chunk type."),
    }
    match &chunks[1] {
        Chunk::AlreadyHighlighted(text) => {
            assert_eq!(text.as_str(), "\u{1b}[31mnever closed")
        },
        _ => panic!("Unexpected chunk type."),
    }
}
