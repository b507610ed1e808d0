//! What a whole fetch comes to when its requests meet a given row of replies.
//!
//! A driver that follows `PageFetch::action` faithfully sends one request per
//! reply, reads a body only when asked to, and sleeps only when asked to. `run`
//! is that driver as a mathematical function; the laws below are stated of it.

use crate::error::FetchErrorView;
use crate::fetch::{is_success, EventView, OutcomeView, PageFetchView, PhaseView};
use vstd::prelude::*;

verus! {

/// What one request meets.
pub enum Reply {
    /// The request cannot be built, as with a URL that does not parse.
    Unsendable { cause: Seq<char> },
    /// The request is built, and no response comes.
    Unreachable { cause: Seq<char> },
    /// A response comes. `body` is what reading its body would give: the text,
    /// or the cause of the failure.
    Response { code: u16, body: Result<Seq<char>, Seq<char>> },
}

impl Reply {
    /// A failure that another attempt may mend: no response, a status outside
    /// 200 to 299, or a body that cannot be read.
    pub open spec fn is_transient(self) -> bool {
        match self {
            Reply::Unsendable { .. } => false,
            Reply::Unreachable { .. } => true,
            Reply::Response { code, body } => !is_success(code) || body is Err,
        }
    }

    /// What a fetch ends with when this reply is the last it meets, at attempt
    /// number `attempts`: the page, or the failure as the fetch reports it.
    pub open spec fn outcome(self, attempts: u32) -> OutcomeView {
        match self {
            Reply::Unsendable { cause } => Err(FetchErrorView::Network { attempts, cause }),
            Reply::Unreachable { cause } => Err(FetchErrorView::Network { attempts, cause }),
            Reply::Response { code, body } => if !is_success(code) {
                Err(FetchErrorView::Status { code, attempts })
            } else {
                match body {
                    Ok(page) => Ok(page),
                    Err(cause) => Err(FetchErrorView::BodyRead { attempts, cause }),
                }
            },
        }
    }
}

/// The fetch after one whole attempt that met `reply`: the request, and the
/// reading of the body where the fetch asks for it.
pub open spec fn attempt_with(fetch: PageFetchView, reply: Reply) -> PageFetchView {
    match reply {
        Reply::Unsendable { cause } => fetch.advance(
            EventView::SendFailed { cause, malformed: true },
        ),
        Reply::Unreachable { cause } => fetch.advance(
            EventView::SendFailed { cause, malformed: false },
        ),
        Reply::Response { code, body } => {
            let answered = fetch.advance(EventView::Responded { code });
            if answered.action() is ReadBody {
                match body {
                    Ok(text) => answered.advance(EventView::BodyRead { body: text }),
                    Err(cause) => answered.advance(EventView::BodyFailed { cause }),
                }
            } else {
                answered
            }
        },
    }
}

/// What a run came to.
pub struct Run {
    /// The fetch at the end.
    pub end: PageFetchView,
    /// How many requests were sent.
    pub requests: nat,
    /// How many waits were made.
    pub sleeps: nat,
}

/// Drives `fetch` against `replies`, the first request meeting the first reply,
/// until the fetch asks for no further request or the replies run out.
pub open spec fn run(fetch: PageFetchView, replies: Seq<Reply>) -> Run
    decreases replies.len(),
{
    if !(fetch.action() is Send) || replies.len() == 0 {
        Run { end: fetch, requests: 0, sleeps: 0 }
    } else {
        let tried = attempt_with(fetch, replies[0]);
        let rest = if tried.action() is Sleep {
            run(tried.advance(EventView::Slept), replies.drop_first())
        } else {
            run(tried, replies.drop_first())
        };
        Run {
            end: rest.end,
            requests: rest.requests + 1,
            sleeps: rest.sleeps + if tried.action() is Sleep {
                1nat
            } else {
                0nat
            },
        }
    }
}

/// The fetch ready to send the request of attempt number `attempt`.
spec fn sending(max_attempts: u32, delay: u64, url: Seq<char>, attempt: u32) -> PageFetchView {
    PageFetchView { url, max_attempts, delay, attempt, phase: PhaseView::Sending }
}

proof fn lemma_fail_through(
    max_attempts: u32,
    delay: u64,
    url: Seq<char>,
    attempt: u32,
    replies: Seq<Reply>,
)
    requires
        1 <= attempt <= max_attempts,
        replies.len() >= max_attempts - attempt + 1,
        forall|i: int| 0 <= i <= max_attempts - attempt ==> (#[trigger] replies[i]).is_transient(),
    ensures
        run(sending(max_attempts, delay, url, attempt), replies).requests == max_attempts - attempt
            + 1,
        run(sending(max_attempts, delay, url, attempt), replies).sleeps == max_attempts - attempt,
        run(sending(max_attempts, delay, url, attempt), replies).end.outcome() == Some(
            replies[max_attempts - attempt].outcome(max_attempts),
        ),
    decreases max_attempts - attempt,
{
    let fetch = sending(max_attempts, delay, url, attempt);
    let tried = attempt_with(fetch, replies[0]);
    assert(replies[0].is_transient());
    if attempt < max_attempts {
        assert(tried.action() is Sleep);
        assert(tried.advance(EventView::Slept) == sending(
            max_attempts,
            delay,
            url,
            (attempt + 1) as u32,
        ));
        let later = replies.drop_first();
        assert forall|i: int| 0 <= i <= max_attempts - (attempt + 1) implies (
        #[trigger] later[i]).is_transient() by {
            assert(later[i] == replies[i + 1]);
        }
        lemma_fail_through(max_attempts, delay, url, (attempt + 1) as u32, later);
        assert(later[max_attempts - (attempt + 1)] == replies[max_attempts - attempt]);
    } else {
        assert(tried.outcome() == Some(replies[0].outcome(max_attempts)));
        assert(run(tried, replies.drop_first()).end == tried);
    }
}

proof fn lemma_settle(
    max_attempts: u32,
    delay: u64,
    url: Seq<char>,
    attempt: u32,
    replies: Seq<Reply>,
    failures: nat,
)
    requires
        1 <= attempt,
        attempt + failures <= max_attempts,
        replies.len() > failures,
        forall|i: int| 0 <= i < failures ==> (#[trigger] replies[i]).is_transient(),
        !replies[failures as int].is_transient(),
    ensures
        run(sending(max_attempts, delay, url, attempt), replies).requests == failures + 1,
        run(sending(max_attempts, delay, url, attempt), replies).sleeps == failures,
        run(sending(max_attempts, delay, url, attempt), replies).end.outcome() == Some(
            replies[failures as int].outcome((attempt + failures) as u32),
        ),
    decreases failures,
{
    let fetch = sending(max_attempts, delay, url, attempt);
    let tried = attempt_with(fetch, replies[0]);
    let later = replies.drop_first();
    if failures == 0 {
        assert(tried.outcome() == Some(replies[0].outcome(attempt)));
        assert(run(tried, later).end == tried);
    } else {
        assert(replies[0].is_transient());
        assert(tried.action() is Sleep);
        assert(tried.advance(EventView::Slept) == sending(
            max_attempts,
            delay,
            url,
            (attempt + 1) as u32,
        ));
        assert forall|i: int| 0 <= i < failures - 1 implies (#[trigger] later[i]).is_transient() by {
            assert(later[i] == replies[i + 1]);
        }
        assert(later[failures - 1] == replies[failures as int]);
        lemma_settle(max_attempts, delay, url, (attempt + 1) as u32, later, (failures - 1) as nat);
    }
}

proof fn lemma_run_bounds(fetch: PageFetchView, replies: Seq<Reply>)
    requires
        fetch.wf(),
    ensures
        run(fetch, replies).end.wf(),
        run(fetch, replies).end.url == fetch.url,
        run(fetch, replies).requests <= replies.len(),
        fetch.action() is Send ==> run(fetch, replies).requests <= fetch.max_attempts
            - fetch.attempt + 1,
        !(fetch.action() is Send) ==> run(fetch, replies).requests == 0,
        run(fetch, replies).sleeps <= run(fetch, replies).requests,
        run(fetch, replies).requests >= 1 && run(fetch, replies).end.action() is Stop ==> run(
            fetch,
            replies,
        ).sleeps == run(fetch, replies).requests - 1,
        fetch.action() is Send || fetch.action() is Stop ==> run(fetch, replies).end.action() is Send
            || run(fetch, replies).end.action() is Stop,
        run(fetch, replies).end.action() is Send ==> run(fetch, replies).requests
            == replies.len(),
    decreases replies.len(),
{
    if !(fetch.action() is Send) || replies.len() == 0 {
    } else {
        let tried = attempt_with(fetch, replies[0]);
        let later = replies.drop_first();
        if tried.action() is Sleep {
            let next = tried.advance(EventView::Slept);
            lemma_run_bounds(next, later);
        } else {
            lemma_run_bounds(tried, later);
        }
    }
}

/// Whatever the target does, a fetch never sends more requests than its bound
/// allows, nor more than the replies it met; it sleeps only between two
/// requests, never after the last one; and it stops on its own URL, either
/// over or, where the replies ran out first, ready to send the next request.
pub proof fn law_requests_are_bounded(
    max_attempts: u32,
    delay: u64,
    url: Seq<char>,
    replies: Seq<Reply>,
)
    ensures
        ({
            let r = run(PageFetchView::start(max_attempts, delay, url), replies);
            &&& r.requests <= max_attempts
            &&& r.requests <= replies.len()
            &&& r.sleeps <= r.requests
            &&& r.requests >= 1 && r.end.outcome() is Some ==> r.sleeps == r.requests - 1
            &&& r.end.outcome() is None ==> r.end.action() is Send && r.requests
                == replies.len()
            &&& r.end.url == url
        }),
{
    lemma_run_bounds(PageFetchView::start(max_attempts, delay, url), replies);
}

/// With no attempt allowed, a fetch sends nothing and reports that its retries
/// are exhausted.
pub proof fn law_no_attempt_allowed(delay: u64, url: Seq<char>, replies: Seq<Reply>)
    ensures
        run(PageFetchView::start(0, delay, url), replies).requests == 0,
        run(PageFetchView::start(0, delay, url), replies).sleeps == 0,
        run(PageFetchView::start(0, delay, url), replies).end.outcome() == Some(
            Err::<Seq<char>, FetchErrorView>(
                FetchErrorView::RetriesExhausted { attempts: 0, url },
            ),
        ),
{
}

/// A target that fails every attempt in a way that may pass is asked exactly
/// as many times as attempts are allowed, with a wait between any two requests
/// and none after the last; the fetch then reports the failure of the last
/// attempt, with the number of attempts made.
pub proof fn law_persistent_failure_uses_every_attempt(
    max_attempts: u32,
    delay: u64,
    url: Seq<char>,
    replies: Seq<Reply>,
)
    requires
        max_attempts >= 1,
        replies.len() >= max_attempts,
        forall|i: int| 0 <= i < max_attempts ==> (#[trigger] replies[i]).is_transient(),
    ensures
        run(PageFetchView::start(max_attempts, delay, url), replies).requests == max_attempts,
        run(PageFetchView::start(max_attempts, delay, url), replies).sleeps == max_attempts - 1,
        run(PageFetchView::start(max_attempts, delay, url), replies).end.outcome() == Some(
            replies[max_attempts - 1].outcome(max_attempts),
        ),
        replies[max_attempts - 1].outcome(max_attempts) is Err,
{
    lemma_fail_through(max_attempts, delay, url, 1, replies);
    assert(replies[max_attempts - 1].is_transient());
}

/// A target that answers every request with the same status outside 200 to 299
/// is asked exactly as many times as attempts are allowed, and the fetch
/// reports that status.
pub proof fn law_failing_status_uses_every_attempt(
    max_attempts: u32,
    delay: u64,
    url: Seq<char>,
    replies: Seq<Reply>,
    status: u16,
)
    requires
        max_attempts >= 1,
        !is_success(status),
        replies.len() >= max_attempts,
        forall|i: int|
            0 <= i < max_attempts ==> (#[trigger] replies[i] matches Reply::Response { code, .. }
                && code == status),
    ensures
        run(PageFetchView::start(max_attempts, delay, url), replies).requests == max_attempts,
        run(PageFetchView::start(max_attempts, delay, url), replies).end.outcome() == Some(
            Err::<Seq<char>, FetchErrorView>(
                FetchErrorView::Status { code: status, attempts: max_attempts },
            ),
        ),
{
    assert forall|i: int| 0 <= i < max_attempts implies (#[trigger] replies[i]).is_transient() by {
        assert(replies[i] matches Reply::Response { code, .. } && code == status);
    }
    law_persistent_failure_uses_every_attempt(max_attempts, delay, url, replies);
    assert(replies[max_attempts - 1] matches Reply::Response { code, .. } && code == status);
}

/// A target that fails the first `failures` attempts in a way that may pass,
/// with `failures` below the bound, and then serves a page: the fetch returns
/// that page after exactly `failures + 1` requests, having waited once after
/// each failure.
pub proof fn law_success_after_transient_failures(
    max_attempts: u32,
    delay: u64,
    url: Seq<char>,
    replies: Seq<Reply>,
    failures: nat,
    page: Seq<char>,
)
    requires
        failures < max_attempts,
        replies.len() > failures,
        forall|i: int| 0 <= i < failures ==> (#[trigger] replies[i]).is_transient(),
        replies[failures as int] matches Reply::Response { code, body } && is_success(code) && body
            == Ok::<Seq<char>, Seq<char>>(page),
    ensures
        run(PageFetchView::start(max_attempts, delay, url), replies).requests == failures + 1,
        run(PageFetchView::start(max_attempts, delay, url), replies).sleeps == failures,
        run(PageFetchView::start(max_attempts, delay, url), replies).end.outcome() == Some(
            Ok::<Seq<char>, FetchErrorView>(page),
        ),
{
    lemma_settle(max_attempts, delay, url, 1, replies, failures);
}

/// A request that cannot be built ends the fetch at the first attempt, however
/// many are allowed: one request, no wait, and a network failure that counts
/// one attempt.
pub proof fn law_unsendable_request_is_final(
    max_attempts: u32,
    delay: u64,
    url: Seq<char>,
    replies: Seq<Reply>,
    cause: Seq<char>,
)
    requires
        max_attempts >= 1,
        replies.len() >= 1,
        replies[0] == (Reply::Unsendable { cause }),
    ensures
        run(PageFetchView::start(max_attempts, delay, url), replies).requests == 1,
        run(PageFetchView::start(max_attempts, delay, url), replies).sleeps == 0,
        run(PageFetchView::start(max_attempts, delay, url), replies).end.outcome() == Some(
            Err::<Seq<char>, FetchErrorView>(FetchErrorView::Network { attempts: 1, cause }),
        ),
{
    lemma_settle(max_attempts, delay, url, 1, replies, 0);
}

/// The first reply that is no passing failure settles the fetch, if it comes
/// within the bound: the fetch ends with what that reply brings, after one
/// request for it and one for each failure before it.
pub proof fn law_first_lasting_reply_settles(
    max_attempts: u32,
    delay: u64,
    url: Seq<char>,
    replies: Seq<Reply>,
    failures: nat,
)
    requires
        failures < max_attempts,
        replies.len() > failures,
        forall|i: int| 0 <= i < failures ==> (#[trigger] replies[i]).is_transient(),
        !replies[failures as int].is_transient(),
    ensures
        run(PageFetchView::start(max_attempts, delay, url), replies).requests == failures + 1,
        run(PageFetchView::start(max_attempts, delay, url), replies).sleeps == failures,
        run(PageFetchView::start(max_attempts, delay, url), replies).end.outcome() == Some(
            replies[failures as int].outcome((failures + 1) as u32),
        ),
{
    lemma_settle(max_attempts, delay, url, 1, replies, failures);
}

} // verus!
