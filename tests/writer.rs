use linkchecker::model::{Link, LinkError, LinkResult};
use linkchecker::writer::{format_error, format_result, render_report};

fn result(text: &str, url: &str, outcome: Result<String, LinkError>) -> LinkResult {
    LinkResult { link: Link { text: text.to_string(), url: url.to_string() }, result: outcome }
}

#[test]
fn writes_ok_result() {
    let results = vec![result("Example", "https://example.com", Ok("Example Domain".into()))];
    let contents = render_report(&results);
    assert_eq!(contents, "[Example Domain](https://example.com)\n");
}

#[test]
fn write_error_result_formats_correctly() {
    let results = vec![result("example link", "https://example.com", Err(LinkError::MissingTitle))];
    let contents = render_report(&results);
    assert_eq!(contents, "[MISSING_TITLE from example link](https://example.com)\n");
}

#[test]
fn error_codes() {
    assert_eq!(format_error(&LinkError::Timeout), "TIMEOUT");
    assert_eq!(format_error(&LinkError::Network), "NETWORK_ERROR");
    assert_eq!(format_error(&LinkError::InvalidStatus(404)), "NOT_FOUND");
    assert_eq!(format_error(&LinkError::InvalidStatus(500)), "SERVER_ERROR");
    assert_eq!(format_error(&LinkError::InvalidStatus(503)), "SERVER_ERROR");
    assert_eq!(format_error(&LinkError::InvalidStatus(599)), "SERVER_ERROR");
    assert_eq!(format_error(&LinkError::InvalidStatus(600)), "HTTP_ERROR");
    assert_eq!(format_error(&LinkError::InvalidStatus(403)), "HTTP_ERROR");
    assert_eq!(format_error(&LinkError::InvalidStatus(301)), "HTTP_ERROR");
    assert_eq!(format_error(&LinkError::InvalidHtml), "INVALID_HTML");
    assert_eq!(format_error(&LinkError::MissingTitle), "MISSING_TITLE");
}

#[test]
fn one_line_per_result_in_order() {
    let results = vec![
        result("a", "http://a", Err(LinkError::Timeout)),
        result("b", "http://b", Ok(String::new())),
        result("c", "http://c", Err(LinkError::InvalidStatus(502))),
    ];
    assert_eq!(
        render_report(&results),
        "[TIMEOUT from a](http://a)\n[](http://b)\n[SERVER_ERROR from c](http://c)\n"
    );
    assert_eq!(format_result(&results[0]), "[TIMEOUT from a](http://a)\n");
    assert_eq!(render_report(&Vec::new()), "");
}
