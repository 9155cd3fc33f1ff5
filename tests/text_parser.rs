use linkchecker::text_parser::parse_text;

const MALFORMED: &str = "
            [Valid](http://ok.com)
            [Broken] (http://with-space.com)
            (twisted)[http://twisted.com]
            [noURL]
        ";

#[test]
fn empty_content_returns_empty_vec() {
    let result = parse_text("");
    assert!(result.is_empty());
}

#[test]
fn text_parser_simple_link_extraction() {
    let result = parse_text("Hello [example](https://example.com)");
    assert_eq!(result.len(), 1);
    assert_eq!(result[0].text, "example");
    assert_eq!(result[0].url, "https://example.com");
}

#[test]
fn text_parser_multiple_links_same_line() {
    let result = parse_text("See [first](https://first.com) and [second](https://second.com)");
    assert_eq!(result.len(), 2);
    assert_eq!(result[0].text, "first");
    assert_eq!(result[1].text, "second");
}

#[test]
fn text_parser_regex_ignores_malformed_links() {
    let result = parse_text(MALFORMED);
    assert_eq!(result.len(), 1);
    assert_eq!(result[0].text, "Valid");
}

#[test]
fn empty_file_returns_empty_vec() {
    let result = parse_text("");
    assert!(result.is_empty());
}

#[test]
fn parser_simple_link_extraction() {
    let content = "Hello [example](https://example.com)";
    let result = parse_text(content);
    assert_eq!(result.len(), 1);
    assert_eq!(result[0].text, "example");
    assert_eq!(result[0].url, "https://example.com");
}

#[test]
fn parser_multiple_links_same_line() {
    let content = "See [first](https://first.com) and [second](https://second.com)";
    let result = parse_text(content);
    assert_eq!(result.len(), 2);
    assert_eq!(result[0].text, "first");
    assert_eq!(result[1].text, "second");
}

#[test]
fn parser_regex_ignores_malformed_links() {
    let content = "
                [Valid](http://ok.com)
                [Broken] (http://with-space.com)
                (twisted)[http://twisted.com]
                [noURL]
            ";
    let result = parse_text(content);
    assert_eq!(result.len(), 1);
    assert_eq!(result[0].text, "Valid");
}

#[test]
fn space_before_parenthesis_is_no_link() {
    assert!(parse_text("[Broken] (http://x.com)").is_empty());
}

#[test]
fn links_do_not_span_lines() {
    assert!(parse_text("[a\nb](http://x.com)").is_empty());
    assert!(parse_text("[a](http://x\n.com)").is_empty());
    let result = parse_text("[a](u1)\r\n[b](u2)\n");
    assert_eq!(result.len(), 2);
    assert_eq!(result[0].url, "u1");
    assert_eq!(result[1].text, "b");
}

#[test]
fn empty_label_or_target_is_no_link() {
    assert!(parse_text("[](http://x.com)").is_empty());
    assert!(parse_text("[x]()").is_empty());
}

#[test]
fn leftmost_bracket_starts_the_label() {
    let result = parse_text("[[a](b)](c)");
    assert_eq!(result.len(), 1);
    assert_eq!(result[0].text, "[a");
    assert_eq!(result[0].url, "b");
}

#[test]
fn labels_keep_unicode() {
    let result = parse_text("voir [caf\u{e9} \u{2603}](https://exemple.fr/\u{e9}t\u{e9})");
    assert_eq!(result.len(), 1);
    assert_eq!(result[0].text, "caf\u{e9} \u{2603}");
    assert_eq!(result[0].url, "https://exemple.fr/\u{e9}t\u{e9}");
}
