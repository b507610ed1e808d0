//! Fetching a page with retries, as a machine that decides and leaves the
//! network to its driver.
//!
//! The driver asks the machine what to do (`PageFetch::action`), does it, and
//! reports what happened (`PageFetch::advance`), until the machine says `Stop`.

use crate::config::Config;
use crate::error::{FetchError, FetchErrorView};
use vstd::prelude::*;

verus! {

/// The `User-Agent` header that every request carries.
pub const APP_USER_AGENT: &'static str =
    "Mozilla/5.0 (Windows NT 10.0; Win64; x64) AppleWebKit/537.36 (KHTML, like Gecko) Chrome/129.0.0.0 Safari/537.3";

/// Whether an HTTP status counts as success: 200 to 299.
pub open spec fn is_success(code: u16) -> bool {
    200 <= code <= 299
}

/// What the driver is to do next.
#[derive(Debug, Clone, Copy, PartialEq, Eq)]
pub enum Action<'a> {
    /// Send a GET request to `url`, with the header `User-Agent: {user_agent}`
    /// and no other of the fetch's making.
    Send { url: &'a str, user_agent: &'a str },
    /// Read the whole body of the response that just came.
    ReadBody,
    /// Wait this many seconds.
    Sleep { seconds: u64 },
    /// Nothing more: the outcome is ready.
    Stop,
}

/// `Action` as a mathematical value.
pub enum ActionView {
    Send { url: Seq<char>, user_agent: Seq<char> },
    ReadBody,
    Sleep { seconds: u64 },
    Stop,
}

impl View for Action<'_> {
    type V = ActionView;

    open spec fn view(&self) -> ActionView {
        match *self {
            Action::Send { url, user_agent } => ActionView::Send {
                url: url@,
                user_agent: user_agent@,
            },
            Action::ReadBody => ActionView::ReadBody,
            Action::Sleep { seconds } => ActionView::Sleep { seconds },
            Action::Stop => ActionView::Stop,
        }
    }
}

/// What the driver reports back.
#[derive(Debug, Clone, PartialEq, Eq)]
pub enum Event {
    /// No response came. `malformed` says that the request could not even be
    /// built, as with a URL that does not parse; such a failure is final.
    SendFailed { cause: String, malformed: bool },
    /// A response came, with this status.
    Responded { code: u16 },
    /// The body was read in full.
    BodyRead { body: String },
    /// Reading the body failed.
    BodyFailed { cause: String },
    /// The wait is over.
    Slept,
}

/// `Event` as a mathematical value.
pub enum EventView {
    SendFailed { cause: Seq<char>, malformed: bool },
    Responded { code: u16 },
    BodyRead { body: Seq<char> },
    BodyFailed { cause: Seq<char> },
    Slept,
}

impl View for Event {
    type V = EventView;

    open spec fn view(&self) -> EventView {
        match *self {
            Event::SendFailed { cause, malformed } => EventView::SendFailed {
                cause: cause@,
                malformed,
            },
            Event::Responded { code } => EventView::Responded { code },
            Event::BodyRead { body } => EventView::BodyRead { body: body@ },
            Event::BodyFailed { cause } => EventView::BodyFailed { cause: cause@ },
            Event::Slept => EventView::Slept,
        }
    }
}

/// How a fetch ended: the page, or the failure.
pub type Outcome = Result<String, FetchError>;

/// `Outcome` as a mathematical value.
pub type OutcomeView = Result<Seq<char>, FetchErrorView>;

/// The mathematical value of an outcome.
pub open spec fn outcome_view(outcome: Outcome) -> OutcomeView {
    match outcome {
        Ok(body) => Ok(body@),
        Err(error) => Err(error@),
    }
}

/// Where a fetch stands.
pub enum PhaseView {
    /// A request is due or under way.
    Sending,
    /// A successful status came; its body is due.
    Reading,
    /// An attempt failed and another is allowed; the wait before it is due.
    Waiting,
    /// Over.
    Done(OutcomeView),
}

/// A fetch as a mathematical value.
pub struct PageFetchView {
    pub url: Seq<char>,
    /// How many attempts are allowed.
    pub max_attempts: u32,
    /// The seconds between two attempts.
    pub delay: u64,
    /// The number of the attempt under way, or of the last one made: the first
    /// attempt is 1, and 0 says that none was made.
    pub attempt: u32,
    pub phase: PhaseView,
}

impl PageFetchView {
    /// A fetch of `url` before its first request.
    pub open spec fn start(max_attempts: u32, delay: u64, url: Seq<char>) -> PageFetchView {
        if max_attempts == 0 {
            PageFetchView {
                url,
                max_attempts,
                delay,
                attempt: 0,
                phase: PhaseView::Done(
                    Err(FetchErrorView::RetriesExhausted { attempts: max_attempts, url }),
                ),
            }
        } else {
            PageFetchView { url, max_attempts, delay, attempt: 1, phase: PhaseView::Sending }
        }
    }

    /// The attempt counter never passes the bound, and a wait is only ever due
    /// when another attempt is allowed after it.
    pub open spec fn wf(self) -> bool {
        match self.phase {
            PhaseView::Sending => 1 <= self.attempt <= self.max_attempts,
            PhaseView::Reading => 1 <= self.attempt <= self.max_attempts,
            PhaseView::Waiting => 1 <= self.attempt < self.max_attempts,
            PhaseView::Done(_) => self.attempt <= self.max_attempts,
        }
    }

    /// What the driver is to do next. Every request of a fetch is the same:
    /// to its URL, under the one `User-Agent`.
    pub open spec fn action(self) -> ActionView {
        match self.phase {
            PhaseView::Sending => ActionView::Send {
                url: self.url,
                user_agent: APP_USER_AGENT@,
            },
            PhaseView::Reading => ActionView::ReadBody,
            PhaseView::Waiting => ActionView::Sleep { seconds: self.delay },
            PhaseView::Done(_) => ActionView::Stop,
        }
    }

    /// The outcome, once the fetch is over.
    pub open spec fn outcome(self) -> Option<OutcomeView> {
        match self.phase {
            PhaseView::Done(outcome) => Some(outcome),
            _ => None,
        }
    }

    /// The fetch, over with this outcome.
    pub open spec fn finish(self, outcome: OutcomeView) -> PageFetchView {
        PageFetchView { phase: PhaseView::Done(outcome), ..self }
    }

    /// The fetch after an attempt failed in a way that may pass: over with
    /// `error` if that was the last attempt allowed, else waiting for the next.
    pub open spec fn fail(self, error: FetchErrorView) -> PageFetchView {
        if self.attempt >= self.max_attempts {
            self.finish(Err(error))
        } else {
            PageFetchView { phase: PhaseView::Waiting, ..self }
        }
    }

    /// The fetch after the driver reported `event`. A report that does not
    /// answer the action that was due changes nothing.
    pub open spec fn advance(self, event: EventView) -> PageFetchView {
        match (self.phase, event) {
            (PhaseView::Sending, EventView::SendFailed { cause, malformed }) => {
                let error = FetchErrorView::Network { attempts: self.attempt, cause };
                if malformed {
                    self.finish(Err(error))
                } else {
                    self.fail(error)
                }
            },
            (PhaseView::Sending, EventView::Responded { code }) => {
                if is_success(code) {
                    PageFetchView { phase: PhaseView::Reading, ..self }
                } else {
                    self.fail(FetchErrorView::Status { code, attempts: self.attempt })
                }
            },
            (PhaseView::Reading, EventView::BodyRead { body }) => self.finish(Ok(body)),
            (PhaseView::Reading, EventView::BodyFailed { cause }) => self.fail(
                FetchErrorView::BodyRead { attempts: self.attempt, cause },
            ),
            (PhaseView::Waiting, EventView::Slept) => PageFetchView {
                attempt: (self.attempt + 1) as u32,
                phase: PhaseView::Sending,
                ..self
            },
            _ => self,
        }
    }
}

/// Every report keeps a fetch well formed, its URL and its bounds.
pub proof fn lemma_advance_keeps_shape(fetch: PageFetchView, event: EventView)
    requires
        fetch.wf(),
    ensures
        fetch.advance(event).wf(),
        fetch.advance(event).url == fetch.url,
        fetch.advance(event).max_attempts == fetch.max_attempts,
        fetch.advance(event).delay == fetch.delay,
        fetch.attempt <= fetch.advance(event).attempt <= fetch.attempt + 1,
{
}

/// The fetch after the driver made all these reports, in this order.
pub open spec fn after(fetch: PageFetchView, events: Seq<EventView>) -> PageFetchView
    decreases events.len(),
{
    if events.len() == 0 {
        fetch
    } else {
        after(fetch, events.drop_last()).advance(events.last())
    }
}

/// Whatever the driver reports, and in whatever order: a fetch stays well
/// formed, keeps its URL and its bounds, never counts an attempt back nor past
/// the bound, and once over stays as it ended.
pub proof fn law_fetch_keeps_its_shape(fetch: PageFetchView, events: Seq<EventView>)
    requires
        fetch.wf(),
    ensures
        after(fetch, events).wf(),
        after(fetch, events).url == fetch.url,
        after(fetch, events).max_attempts == fetch.max_attempts,
        after(fetch, events).delay == fetch.delay,
        fetch.attempt <= after(fetch, events).attempt <= fetch.max_attempts,
        fetch.outcome() is Some ==> after(fetch, events) == fetch,
    decreases events.len(),
{
    if events.len() > 0 {
        law_fetch_keeps_its_shape(fetch, events.drop_last());
        lemma_advance_keeps_shape(after(fetch, events.drop_last()), events.last());
    }
}

#[derive(Debug)]
enum Phase {
    Sending,
    Reading,
    Waiting,
    Done(Outcome),
}

/// A fetch of one page, from before its first request to its outcome.
#[derive(Debug)]
pub struct PageFetch {
    url: String,
    max_attempts: u32,
    delay: u64,
    attempt: u32,
    phase: Phase,
}

impl View for PageFetch {
    type V = PageFetchView;

    closed spec fn view(&self) -> PageFetchView {
        PageFetchView {
            url: self.url@,
            max_attempts: self.max_attempts,
            delay: self.delay,
            attempt: self.attempt,
            phase: match self.phase {
                Phase::Sending => PhaseView::Sending,
                Phase::Reading => PhaseView::Reading,
                Phase::Waiting => PhaseView::Waiting,
                Phase::Done(outcome) => PhaseView::Done(outcome_view(outcome)),
            },
        }
    }
}

/// Tells whether `code` is a successful HTTP status.
pub fn status_is_success(code: u16) -> (ok: bool)
    ensures
        ok == is_success(code),
{
    200 <= code && code <= 299
}

/// Begins a fetch of `url` under the bounds of `config`: up to
/// `config.max_retry` attempts, `config.default_sleep` seconds apart. With no
/// attempt allowed the fetch is over at once, as `RetriesExhausted`.
pub fn html_get_page(config: &Config, url: String) -> (fetch: PageFetch)
    ensures
        fetch@ == PageFetchView::start(config.max_retry, config.default_sleep, url@),
        fetch@.wf(),
        config.valid() ==> fetch@.action() == (ActionView::Send {
            url: url@,
            user_agent: APP_USER_AGENT@,
        }),
{
    if config.max_retry == 0 {
        let lost = url.clone();
        PageFetch {
            url,
            max_attempts: 0,
            delay: config.default_sleep,
            attempt: 0,
            phase: Phase::Done(Err(FetchError::RetriesExhausted { attempts: 0, url: lost })),
        }
    } else {
        PageFetch {
            url,
            max_attempts: config.max_retry,
            delay: config.default_sleep,
            attempt: 1,
            phase: Phase::Sending,
        }
    }
}

impl PageFetch {
    #[verifier::type_invariant]
    spec fn well_formed(&self) -> bool {
        self@.wf()
    }

    /// The URL that the requests go to.
    pub fn url(&self) -> (url: &str)
        ensures
            url@ == self@.url,
    {
        self.url.as_str()
    }

    /// The number of the attempt under way, or of the last one made.
    pub fn attempt(&self) -> (n: u32)
        ensures
            n == self@.attempt,
            self@.wf(),
    {
        proof {
            use_type_invariant(self);
        }
        self.attempt
    }

    /// What the driver is to do next.
    pub fn action(&self) -> (action: Action<'_>)
        ensures
            action@ == self@.action(),
    {
        match &self.phase {
            Phase::Sending => Action::Send {
                url: self.url.as_str(),
                user_agent: APP_USER_AGENT,
            },
            Phase::Reading => Action::ReadBody,
            Phase::Waiting => Action::Sleep { seconds: self.delay },
            Phase::Done(_) => Action::Stop,
        }
    }

    /// Takes the outcome out of a fetch that is over; `None` while it is not.
    pub fn into_outcome(self) -> (outcome: Option<Outcome>)
        ensures
            match outcome {
                Some(o) => self@.outcome() == Some(outcome_view(o)),
                None => self@.outcome() is None,
            },
    {
        match self.phase {
            Phase::Done(outcome) => Some(outcome),
            _ => None,
        }
    }

    fn finish(self, outcome: Outcome) -> (next: PageFetch)
        ensures
            next@ == self@.finish(outcome_view(outcome)),
    {
        proof {
            use_type_invariant(&self);
        }
        PageFetch {
            url: self.url,
            max_attempts: self.max_attempts,
            delay: self.delay,
            attempt: self.attempt,
            phase: Phase::Done(outcome),
        }
    }

    fn fail(self, error: FetchError) -> (next: PageFetch)
        requires
            !(self@.phase is Done),
        ensures
            next@ == self@.fail(error@),
    {
        proof {
            use_type_invariant(&self);
        }
        if self.attempt >= self.max_attempts {
            self.finish(Err(error))
        } else {
            PageFetch {
                url: self.url,
                max_attempts: self.max_attempts,
                delay: self.delay,
                attempt: self.attempt,
                phase: Phase::Waiting,
            }
        }
    }

    /// Takes the driver's report and moves on. A report that does not answer
    /// the action that was due changes nothing.
    pub fn advance(self, event: Event) -> (next: PageFetch)
        ensures
            next@ == self@.advance(event@),
            next@.wf(),
    {
        proof {
            use_type_invariant(&self);
            lemma_advance_keeps_shape(self@, event@);
        }
        match self.phase {
            Phase::Sending => match event {
                Event::SendFailed { cause, malformed } => {
                    let error = FetchError::Network { attempts: self.attempt, cause };
                    if malformed {
                        self.finish(Err(error))
                    } else {
                        self.fail(error)
                    }
                },
                Event::Responded { code } => {
                    if status_is_success(code) {
                        PageFetch {
                            url: self.url,
                            max_attempts: self.max_attempts,
                            delay: self.delay,
                            attempt: self.attempt,
                            phase: Phase::Reading,
                        }
                    } else {
                        let error = FetchError::Status { code, attempts: self.attempt };
                        self.fail(error)
                    }
                },
                _ => self,
            },
            Phase::Reading => match event {
                Event::BodyRead { body } => self.finish(Ok(body)),
                Event::BodyFailed { cause } => {
                    let error = FetchError::BodyRead { attempts: self.attempt, cause };
                    self.fail(error)
                },
                _ => self,
            },
            Phase::Waiting => match event {
                Event::Slept => PageFetch {
                    url: self.url,
                    max_attempts: self.max_attempts,
                    delay: self.delay,
                    attempt: self.attempt + 1,
                    phase: Phase::Sending,
                },
                _ => self,
            },
            Phase::Done(_) => self,
        }
    }
}

} // verus!
