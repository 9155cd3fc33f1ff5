//! The decisions of link validation.
//!
//! One link is validated by a single GET request: [`Validation`] is the state
//! of that request, advanced by [`Validation::step`] as the network reports
//! what happened. Many links are validated at once under a fixed cap:
//! [`Dispatcher`] decides which link starts next and collects every result
//! in the order in which the validations finish.
use vstd::prelude::*;
use vstd::multiset::Multiset;
use crate::html_parser::{extract_title, title_outcome};
use crate::model::{Link, LinkError, LinkResult, outcome_view};

verus! {

broadcast use {vstd::multiset::group_multiset_axioms, vstd::seq_lib::group_to_multiset_ensures};

/// Seconds that one request may take before it counts as timed out.
pub const REQUEST_TIMEOUT_SECS: u64 = 5;

/// The user agent that every request names.
pub const USER_AGENT: &'static str = "Mozilla/5.0 (Windows NT 10.0; Win64; x64) AppleWebKit/537.36 (KHTML, like Gecko) Chrome/120.0.0.0 Safari/537.36";

/// The most validations that may be in flight at once.
pub const CONCURRENCY: usize = 32;

/// Where the validation of one link stands.
pub enum Validation {
    /// The GET request has been sent; no response yet.
    Requesting,
    /// The response had a success status; its body is being read.
    ReadingBody,
    /// The validation is over, with a title or a failure.
    Done(Result<String, LinkError>),
}

/// What the network reported for a request.
pub enum FetchEvent {
    /// The request did not complete; `timed_out` tells whether the timeout elapsed.
    SendFailed { timed_out: bool },
    /// A response arrived with this status code.
    Responded { status: u16 },
    /// The body could not be decoded as text.
    BodyUnreadable,
    /// The body, decoded as text.
    BodyRead { body: String },
}

/// A [`Validation`] with its title as characters.
pub enum ValidationView {
    Requesting,
    ReadingBody,
    Done(Result<Seq<char>, LinkError>),
}

/// A [`FetchEvent`] with its body as characters.
pub enum FetchEventView {
    SendFailed(bool),
    Responded(u16),
    BodyUnreadable,
    BodyRead(Seq<char>),
}

impl View for Validation {
    type V = ValidationView;

    open spec fn view(&self) -> ValidationView {
        match self {
            Validation::Requesting => ValidationView::Requesting,
            Validation::ReadingBody => ValidationView::ReadingBody,
            Validation::Done(r) => ValidationView::Done(outcome_view(*r)),
        }
    }
}

impl View for FetchEvent {
    type V = FetchEventView;

    open spec fn view(&self) -> FetchEventView {
        match self {
            FetchEvent::SendFailed { timed_out } => FetchEventView::SendFailed(*timed_out),
            FetchEvent::Responded { status } => FetchEventView::Responded(*status),
            FetchEvent::BodyUnreadable => FetchEventView::BodyUnreadable,
            FetchEvent::BodyRead { body } => FetchEventView::BodyRead(body@),
        }
    }
}

/// Whether `status` is in the success class.
pub open spec fn is_success(status: u16) -> bool {
    200 <= status <= 299
}

/// The state after event `e` in state `s`. A failed request is a timeout or a
/// network failure; a status outside 200..=299 is reported with its code; a
/// body that is not text is invalid HTML; otherwise the body's title decides.
/// An event that does not belong to the state leaves it as it is.
pub open spec fn step_spec(s: ValidationView, e: FetchEventView) -> ValidationView {
    match (s, e) {
        (ValidationView::Requesting, FetchEventView::SendFailed(timed_out)) => {
            if timed_out {
                ValidationView::Done(Err(LinkError::Timeout))
            } else {
                ValidationView::Done(Err(LinkError::Network))
            }
        },
        (ValidationView::Requesting, FetchEventView::Responded(status)) => {
            if is_success(status) {
                ValidationView::ReadingBody
            } else {
                ValidationView::Done(Err(LinkError::InvalidStatus(status)))
            }
        },
        (ValidationView::ReadingBody, FetchEventView::BodyUnreadable) => {
            ValidationView::Done(Err(LinkError::InvalidHtml))
        },
        (ValidationView::ReadingBody, FetchEventView::BodyRead(body)) => {
            ValidationView::Done(title_outcome(body))
        },
        _ => s,
    }
}

impl Validation {
    /// The state after the network reports `ev`.
    pub fn step(self, ev: FetchEvent) -> (next: Validation)
        ensures
            next@ == step_spec(self@, ev@),
    {
        match self {
            Validation::Requesting => match ev {
                FetchEvent::SendFailed { timed_out } => {
                    if timed_out {
                        Validation::Done(Err(LinkError::Timeout))
                    } else {
                        Validation::Done(Err(LinkError::Network))
                    }
                },
                FetchEvent::Responded { status } => {
                    if 200 <= status && status <= 299 {
                        Validation::ReadingBody
                    } else {
                        Validation::Done(Err(LinkError::InvalidStatus(status)))
                    }
                },
                _ => Validation::Requesting,
            },
            Validation::ReadingBody => match ev {
                FetchEvent::BodyUnreadable => Validation::Done(Err(LinkError::InvalidHtml)),
                FetchEvent::BodyRead { body } => Validation::Done(extract_title(body.as_str())),
                _ => Validation::ReadingBody,
            },
            Validation::Done(r) => Validation::Done(r),
        }
    }

    /// The outcome, once the validation is over.
    pub fn outcome(self) -> (r: Option<Result<String, LinkError>>)
        ensures
            match self@ {
                ValidationView::Done(o) => r matches Some(x) && outcome_view(x) == o,
                _ => r is None,
            },
    {
        match self {
            Validation::Done(r) => Some(r),
            _ => None,
        }
    }

    /// Whether a body must be read next.
    pub fn wants_body(&self) -> (r: bool)
        ensures
            r == (self@ is ReadingBody),
    {
        match self {
            Validation::ReadingBody => true,
            _ => false,
        }
    }
}

/// The outcome of a validation whose response had status `status`, and whose
/// body, where one was read, was `body` (`None`: not text).
pub open spec fn outcome_of(status: u16, body: Option<Seq<char>>) -> ValidationView {
    let after = step_spec(ValidationView::Requesting, FetchEventView::Responded(status));
    match body {
        Some(b) => step_spec(after, FetchEventView::BodyRead(b)),
        None => step_spec(after, FetchEventView::BodyUnreadable),
    }
}

/// A validation ends with a title exactly when the status is a success, the
/// body is text and that text has a title element; otherwise it ends with
/// exactly one failure, and the status is checked before the body.
pub proof fn lemma_outcome_classification(status: u16, body: Option<Seq<char>>)
    ensures
        outcome_of(status, body) is Done,
        (outcome_of(status, body) matches ValidationView::Done(Ok(_))) <==> (is_success(status)
            && body is Some && title_outcome(body.unwrap()) is Ok),
        !is_success(status) ==> outcome_of(status, body) == ValidationView::Done(
            Err(LinkError::InvalidStatus(status)),
        ),
        is_success(status) && body is None ==> outcome_of(status, body) == ValidationView::Done(
            Err(LinkError::InvalidHtml),
        ),
{
}

/// A request that does not complete ends the validation at once: with
/// `Timeout` where its timeout elapsed, `Network` otherwise.
pub proof fn lemma_transport_failure(timed_out: bool)
    ensures
        step_spec(ValidationView::Requesting, FetchEventView::SendFailed(timed_out))
            == ValidationView::Done(
            Err(if timed_out {
                LinkError::Timeout
            } else {
                LinkError::Network
            }),
        ),
{
}

/// The links held in `slots`, counted with multiplicity.
pub open spec fn held(slots: Seq<Option<Link>>) -> Multiset<(Seq<char>, Seq<char>)>
    decreases slots.len(),
{
    if slots.len() == 0 {
        Multiset::empty()
    } else {
        match slots.last() {
            Some(l) => held(slots.drop_last()).insert(l@),
            None => held(slots.drop_last()),
        }
    }
}

proof fn lemma_held_clear(slots: Seq<Option<Link>>, i: int)
    requires
        0 <= i < slots.len(),
        slots[i] is Some,
    ensures
        held(slots).count(slots[i].unwrap()@) > 0,
        held(slots.update(i, None)) =~= held(slots).remove(slots[i].unwrap()@),
    decreases slots.len(),
{
    let upd = slots.update(i, None);
    if i == slots.len() - 1 {
        assert(upd.drop_last() =~= slots.drop_last());
    } else {
        assert(upd.drop_last() =~= slots.drop_last().update(i, None));
        lemma_held_clear(slots.drop_last(), i);
    }
}

proof fn lemma_held_len(slots: Seq<Option<Link>>)
    ensures
        held(slots).len() <= slots.len(),
    decreases slots.len(),
{
    if slots.len() > 0 {
        lemma_held_len(slots.drop_last());
    }
}

/// Runs many validations with at most [`CONCURRENCY`] in flight, and collects
/// one result per link in the order in which the validations finish.
pub struct Dispatcher {
    slots: Vec<Option<Link>>,
    next: usize,
    in_flight: usize,
    results: Vec<LinkResult>,
    input: Ghost<Seq<(Seq<char>, Seq<char>)>>,
}

impl Dispatcher {
    /// The links handed to [`Dispatcher::new`], in order.
    pub closed spec fn input(&self) -> Seq<(Seq<char>, Seq<char>)> {
        self.input@
    }

    /// How many links have been started.
    pub closed spec fn started(&self) -> nat {
        self.next as nat
    }

    /// How many started links have no result yet.
    pub closed spec fn running(&self) -> nat {
        self.in_flight as nat
    }

    /// The results collected so far, in the order in which they came.
    pub closed spec fn results(&self) -> Seq<((Seq<char>, Seq<char>), Result<Seq<char>, LinkError>)> {
        self.results@.map_values(|r: LinkResult| r@)
    }

    /// Whether the link started as `ticket` is in flight.
    pub closed spec fn is_running(&self, ticket: int) -> bool {
        0 <= ticket < self.next && self.slots@[ticket] is Some
    }

    /// Links not yet started wait in their slots; a started link stays in its
    /// slot until its result is recorded; the results and the slots together
    /// hold exactly the input links.
    pub closed spec fn wf(&self) -> bool {
        &&& self.slots@.len() == self.input@.len()
        &&& self.next <= self.slots@.len()
        &&& forall|i: int|
            self.next <= i < self.slots@.len() ==> (#[trigger] self.slots@[i] is Some)
        &&& forall|i: int|
            0 <= i < self.slots@.len() ==> (#[trigger] self.slots@[i] matches Some(l) ==> l@
                == self.input@[i])
        &&& self.in_flight == held(self.slots@.subrange(0, self.next as int)).len()
        &&& self.in_flight <= CONCURRENCY
        &&& self.results@.map_values(|r: LinkResult| r@.0).to_multiset().add(held(self.slots@))
            == self.input@.to_multiset()
    }

    /// A dispatcher over `links`, with nothing started.
    pub fn new(links: Vec<Link>) -> (d: Dispatcher)
        ensures
            d.wf(),
            d.input() == links@.map_values(|l: Link| l@),
            d.started() == 0,
            d.running() == 0,
            d.results() == Seq::<((Seq<char>, Seq<char>), Result<Seq<char>, LinkError>)>::empty(),
    {
        let ghost input = links@.map_values(|l: Link| l@);
        let mut slots: Vec<Option<Link>> = Vec::new();
        assert(input.subrange(0, 0) =~= Seq::empty());
        assert(input.subrange(0, 0).to_multiset() =~= Multiset::empty());
        for link in it: links
            invariant
                it.seq() == links@,
                input == links@.map_values(|l: Link| l@),
                slots@.len() == it.index(),
                forall|i: int| 0 <= i < slots@.len() ==> (#[trigger] slots@[i] matches Some(l)
                    && l@ == input[i]),
                held(slots@) == input.subrange(0, it.index() as int).to_multiset(),
        {
            let ghost before = slots@;
            assert(link@ == input[before.len() as int]);
            slots.push(Some(link));
            proof {
                assert(slots@.drop_last() =~= before);
                assert(held(slots@) == held(before).insert(link@));
                assert(input.subrange(0, slots@.len() as int) =~= input.subrange(
                    0,
                    before.len() as int,
                ).push(link@));
            }
        }
        assert(input.subrange(0, slots@.len() as int) =~= input);
        let results: Vec<LinkResult> = Vec::new();
        assert(slots@.subrange(0, 0) =~= Seq::<Option<Link>>::empty());
        assert(results@.map_values(|r: LinkResult| r@.0) =~= Seq::empty());
        assert(results@.map_values(|r: LinkResult| r@.0).to_multiset() =~= Multiset::empty());
        assert(Multiset::empty().add(held(slots@)) =~= held(slots@));
        assert(results@.map_values(|r: LinkResult| r@) =~= Seq::empty());
        Dispatcher { slots, next: 0, in_flight: 0, results, input: Ghost(input) }
    }

    /// Starts the next link, if a slot is free and a link is waiting: its
    /// ticket, which is its position in the input, and its URL.
    pub fn start_next(&mut self) -> (r: Option<(usize, String)>)
        requires
            old(self).wf(),
        ensures
            final(self).wf(),
            final(self).input() == old(self).input(),
            final(self).results() == old(self).results(),
            (r is Some) == (old(self).running() < CONCURRENCY && old(self).started()
                < old(self).input().len()),
            match r {
                Some((ticket, url)) => {
                    &&& ticket == old(self).started()
                    &&& url@ == old(self).input()[ticket as int].1
                    &&& final(self).started() == old(self).started() + 1
                    &&& final(self).running() == old(self).running() + 1
                    &&& final(self).is_running(ticket as int)
                },
                None => final(self).started() == old(self).started() && final(self).running()
                    == old(self).running(),
            },
            forall|t: int| #[trigger]
                old(self).is_running(t) ==> final(self).is_running(t),
    {
        if self.in_flight >= CONCURRENCY || self.next >= self.slots.len() {
            return None;
        }
        let ticket = self.next;
        let url = self.slots[ticket].as_ref().unwrap().url.clone();
        proof {
            let s = self.slots@;
            assert(s.subrange(0, ticket + 1).drop_last() =~= s.subrange(0, ticket as int));
        }
        self.next = ticket + 1;
        self.in_flight = self.in_flight + 1;
        Some((ticket, url))
    }

    /// Records the outcome of the validation started as `ticket`. Returns
    /// whether that validation was in flight; where it was not, nothing changes.
    pub fn complete(&mut self, ticket: usize, outcome: Result<String, LinkError>) -> (done: bool)
        requires
            old(self).wf(),
        ensures
            final(self).wf(),
            final(self).input() == old(self).input(),
            final(self).started() == old(self).started(),
            done == old(self).is_running(ticket as int),
            done ==> final(self).running() == old(self).running() - 1 && final(self).results()
                == old(self).results().push(
                (old(self).input()[ticket as int], outcome_view(outcome)),
            ) && !final(self).is_running(ticket as int),
            !done ==> final(self).running() == old(self).running() && final(self).results()
                == old(self).results(),
            forall|t: int| #[trigger]
                final(self).is_running(t) ==> old(self).is_running(t),
    {
        if ticket >= self.next {
            return false;
        }
        let mut taken: Option<Link> = None;
        let ghost s = self.slots@;
        self.slots.set_and_swap(ticket, &mut taken);
        match taken {
            Some(link) => {
                proof {
                    lemma_held_clear(s, ticket as int);
                    lemma_held_clear(s.subrange(0, self.next as int), ticket as int);
                    assert(s.subrange(0, self.next as int).update(ticket as int, None)
                        =~= self.slots@.subrange(0, self.next as int));
                    assert(self.slots@ =~= s.update(ticket as int, None));
                    let x = s[ticket as int].unwrap()@;
                    let sub = s.subrange(0, self.next as int);
                    assert(Multiset::singleton(x).subset_of(held(sub)));
                    assert(held(sub).remove(x).len() == held(sub).len() - 1);
                }
                let ghost before = self.results@;
                self.results.push(LinkResult { link, result: outcome });
                proof {
                    assert(self.results@.map_values(|r: LinkResult| r@.0) =~= before.map_values(
                        |r: LinkResult| r@.0,
                    ).push(self.results@.last()@.0));
                    assert(self.results@.map_values(|r: LinkResult| r@) =~= before.map_values(
                        |r: LinkResult| r@,
                    ).push(self.results@.last()@));
                    let x = s[ticket as int].unwrap()@;
                    let a = before.map_values(|r: LinkResult| r@.0).to_multiset();
                    assert(a.insert(x).add(held(s).remove(x)) =~= a.add(held(s)));
                }
                self.in_flight = self.in_flight - 1;
                true
            },
            None => {
                assert(self.slots@ =~= s);
                false
            },
        }
    }

    /// Whether every link has a result.
    pub fn is_finished(&self) -> (r: bool)
        requires
            self.wf(),
        ensures
            r == (self.started() == self.input().len() && self.running() == 0),
    {
        self.next == self.slots.len() && self.in_flight == 0
    }

    /// At no time are more than [`CONCURRENCY`] validations in flight.
    pub proof fn lemma_within_cap(&self)
        requires
            self.wf(),
        ensures
            self.running() <= CONCURRENCY,
            self.running() <= self.started(),
    {
        let sub = self.slots@.subrange(0, self.next as int);
        lemma_held_len(sub);
    }

    /// Once every link has a result, there is exactly one result per input
    /// link: as many results as links, and the same links counted with
    /// multiplicity, whatever order the results came in.
    pub proof fn lemma_one_result_per_link(&self)
        requires
            self.wf(),
            self.started() == self.input().len(),
            self.running() == 0,
        ensures
            self.results().len() == self.input().len(),
            self.results().map_values(|r: ((Seq<char>, Seq<char>), Result<Seq<char>, LinkError>)| r.0).to_multiset()
                == self.input().to_multiset(),
    {
        let links = self.results@.map_values(|r: LinkResult| r@.0);
        assert(self.slots@.subrange(0, self.next as int) =~= self.slots@);
        assert(held(self.slots@) =~= Multiset::empty());
        assert(links.to_multiset().add(Multiset::empty()) =~= links.to_multiset());
        assert(links.to_multiset().len() == links.len());
        assert(self.input@.to_multiset().len() == self.input@.len());
        assert(self.results().map_values(|r: ((Seq<char>, Seq<char>), Result<Seq<char>, LinkError>)| r.0) =~= links);
    }

    /// The results, in the order in which they came.
    pub fn into_results(self) -> (r: Vec<LinkResult>)
        ensures
            r@.map_values(|x: LinkResult| x@) == self.results(),
    {
        self.results
    }
}

} // verus!
