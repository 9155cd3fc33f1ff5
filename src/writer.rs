//! The report: one line per link result.
use vstd::prelude::*;
use crate::model::{Link, LinkError, LinkResult};

verus! {

/// The code under which a failure is reported.
pub open spec fn error_code(e: LinkError) -> Seq<char> {
    match e {
        LinkError::Timeout => "TIMEOUT"@,
        LinkError::Network => "NETWORK_ERROR"@,
        LinkError::InvalidStatus(code) => {
            if code == 404 {
                "NOT_FOUND"@
            } else if 500 <= code <= 599 {
                "SERVER_ERROR"@
            } else {
                "HTTP_ERROR"@
            }
        },
        LinkError::InvalidHtml => "INVALID_HTML"@,
        LinkError::MissingTitle => "MISSING_TITLE"@,
    }
}

/// The report line of one result: `[title](url)` on success,
/// `[CODE from text](url)` on failure, each ended by a newline.
pub open spec fn report_line(
    r: ((Seq<char>, Seq<char>), Result<Seq<char>, LinkError>),
) -> Seq<char> {
    let text = r.0.0;
    let url = r.0.1;
    match r.1 {
        Ok(title) => "["@ + title + "]("@ + url + ")\n"@,
        Err(e) => "["@ + error_code(e) + " from "@ + text + "]("@ + url + ")\n"@,
    }
}

/// The lines of all results, in the order given.
pub open spec fn report_of(
    rs: Seq<((Seq<char>, Seq<char>), Result<Seq<char>, LinkError>)>,
) -> Seq<char>
    decreases rs.len(),
{
    if rs.len() == 0 {
        Seq::empty()
    } else {
        report_of(rs.drop_last()) + report_line(rs.last())
    }
}

/// The report code of a failure.
pub fn format_error(err: &LinkError) -> (r: &'static str)
    ensures
        r@ == error_code(*err),
{
    match err {
        LinkError::Timeout => "TIMEOUT",
        LinkError::Network => "NETWORK_ERROR",
        LinkError::InvalidStatus(code) => {
            if *code == 404 {
                "NOT_FOUND"
            } else if 500 <= *code && *code <= 599 {
                "SERVER_ERROR"
            } else {
                "HTTP_ERROR"
            }
        },
        LinkError::InvalidHtml => "INVALID_HTML",
        LinkError::MissingTitle => "MISSING_TITLE",
    }
}

/// The report line of one result.
pub fn format_result(result: &LinkResult) -> (line: String)
    ensures
        line@ == report_line(result@),
{
    let link: &Link = &result.link;
    let mut line = String::from_str("[");
    match &result.result {
        Ok(title) => {
            line.append(title.as_str());
        },
        Err(e) => {
            line.append(format_error(e));
            line.append(" from ");
            line.append(link.text.as_str());
        },
    }
    line.append("](");
    line.append(link.url.as_str());
    line.append(")\n");
    line
}

/// The whole report: the lines of `results`, in order.
pub fn render_report(results: &Vec<LinkResult>) -> (report: String)
    ensures
        report@ == report_of(results@.map_values(|r: LinkResult| r@)),
{
    let mut report = String::new();
    let mut i: usize = 0;
    while i < results.len()
        invariant
            i <= results@.len(),
            report@ == report_of(results@.subrange(0, i as int).map_values(|r: LinkResult| r@)),
        decreases results@.len() - i,
    {
        let line = format_result(&results[i]);
        report.append(line.as_str());
        assert(results@.subrange(0, i + 1).map_values(|r: LinkResult| r@).drop_last()
            =~= results@.subrange(0, i as int).map_values(|r: LinkResult| r@));
        i = i + 1;
    }
    assert(results@.subrange(0, i as int) =~= results@);
    report
}

} // verus!
