//! The data that flows through a check: links, per-link outcomes, and the
//! closed set of ways a link can fail.
use vstd::prelude::*;

verus! {

/// A labelled target found in a text document.
pub struct Link {
    pub text: String,
    pub url: String,
}

impl View for Link {
    type V = (Seq<char>, Seq<char>);

    open spec fn view(&self) -> (Seq<char>, Seq<char>) {
        (self.text@, self.url@)
    }
}

/// Every way in which validating one link can fail.
#[derive(Debug, Clone, Copy, PartialEq, Eq, Structural)]
pub enum LinkError {
    Network,
    Timeout,
    InvalidStatus(u16),
    InvalidHtml,
    MissingTitle,
}

/// The outcome for one link: the page title, or why there is none.
pub struct LinkResult {
    pub link: Link,
    pub result: Result<String, LinkError>,
}

/// What a result says, with the title as characters.
pub open spec fn outcome_view(r: Result<String, LinkError>) -> Result<Seq<char>, LinkError> {
    match r {
        Ok(t) => Ok(t@),
        Err(e) => Err(e),
    }
}

impl View for LinkResult {
    type V = ((Seq<char>, Seq<char>), Result<Seq<char>, LinkError>);

    open spec fn view(&self) -> ((Seq<char>, Seq<char>), Result<Seq<char>, LinkError>) {
        (self.link@, outcome_view(self.result))
    }
}

} // verus!
