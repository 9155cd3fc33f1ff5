use linkchecker::html_parser::{collapse_whitespace, extract_title, is_whitespace};
use linkchecker::model::LinkError;

#[test]
fn extract_simple_title() {
    let html = "<html><head><title>Example Title</title></head><body></body></html>";
    assert_eq!(extract_title(html).unwrap(), "Example Title");
}

#[test]
fn extract_title_normalizes_whitespace() {
    let html = "<title>\n\n   Whitespace   \n\r  title \n</title>";
    assert_eq!(extract_title(html).unwrap(), "Whitespace title");
}

#[test]
fn extract_empty_title_is_valid() {
    let html = "<title></title>";
    assert_eq!(extract_title(html).unwrap(), "");
}

#[test]
fn title_is_case_insensitive() {
    let html = "<TITLE>Upper</TITLE>";
    assert_eq!(extract_title(html).unwrap(), "Upper");
}

#[test]
fn first_title_is_used() {
    let html = "<title>One</title><title>Two</title>";
    assert_eq!(extract_title(html).unwrap(), "One");
}

#[test]
fn title_tag_with_attributes() {
    let html = "<head><title lang=\"en\">Hello there</title></head>";
    assert_eq!(extract_title(html).unwrap(), "Hello there");
}

#[test]
fn mixed_case_closing_tag() {
    assert_eq!(extract_title("<TiTlE>Mixed</tItLe>").unwrap(), "Mixed");
}

#[test]
fn page_without_title_is_missing_title() {
    let html = "<html><head></head><body>No title here</body></html>";
    assert!(matches!(extract_title(html), Err(LinkError::MissingTitle)));
}

#[test]
fn unclosed_title_is_missing_title() {
    assert!(matches!(extract_title("<title>Never closed"), Err(LinkError::MissingTitle)));
    assert!(matches!(extract_title("<title"), Err(LinkError::MissingTitle)));
    assert!(matches!(extract_title(""), Err(LinkError::MissingTitle)));
}

#[test]
fn title_may_span_lines_and_unicode() {
    let html = "<title>\u{00A0}Caf\u{e9}\u{3000}\u{2003} au\tlait\u{2029}</title>";
    assert_eq!(extract_title(html).unwrap(), "Caf\u{e9} au lait");
}

#[test]
fn collapse_whitespace_joins_words() {
    assert_eq!(collapse_whitespace("  a  b\n\nc  "), "a b c");
    assert_eq!(collapse_whitespace(""), "");
    assert_eq!(collapse_whitespace(" \t\n "), "");
    assert_eq!(collapse_whitespace("word"), "word");
}

#[test]
fn whitespace_matches_std() {
    for u in 0u32..0x3100 {
        if let Some(c) = char::from_u32(u) {
            assert_eq!(is_whitespace(c), c.is_whitespace(), "U+{:04X}", u);
        }
    }
}
