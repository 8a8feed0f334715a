//! One GET against a metadata service, tried again within bounds.
//!
//! The client decides; the caller performs. A `Request` is handed the
//! `Reply` of each attempt and says whether the fetch is over, and with what,
//! or how long to wait before the next attempt.

use crate::decode::{decoded, Decoded, DecodedView, Format};
use crate::error::{Cause, FetchError, FetchErrorView};
use vstd::prelude::*;
use vstd::string::*;

verus! {

/// Attempts that a client allows unless told otherwise.
pub const DEFAULT_MAX_ATTEMPTS: u32 = 10;

/// The wait after the first failed attempt, in milliseconds, unless told
/// otherwise.
pub const DEFAULT_INITIAL_BACKOFF_MS: u64 = 1000;

/// The longest wait between two attempts, in milliseconds, unless told
/// otherwise.
pub const DEFAULT_MAX_BACKOFF_MS: u64 = 5000;

/// What came of one attempt.
#[derive(Debug, Clone, PartialEq, Eq)]
pub enum Reply {
    /// A response, with its status and its body.
    Status { code: u16, body: Vec<u8> },
    /// No response: the connection failed or timed out.
    Unreachable,
}

/// A `Reply` with its body as a sequence of bytes.
pub enum ReplyView {
    Status { code: u16, body: Seq<u8> },
    Unreachable,
}

impl View for Reply {
    type V = ReplyView;

    open spec fn view(&self) -> ReplyView {
        match self {
            Reply::Status { code, body } => ReplyView::Status { code: *code, body: body@ },
            Reply::Unreachable => ReplyView::Unreachable,
        }
    }
}

/// How requests are retried, and what a 404 means.
#[derive(Debug, Clone, Copy, PartialEq, Eq, Structural)]
pub struct Client {
    /// Whether a 404 says that the field is absent, rather than that the
    /// attempt failed.
    pub return_on_404: bool,
    /// How many attempts a request may take; it always takes one.
    pub max_attempts: u32,
    /// The wait after the first failed attempt, in milliseconds.
    pub initial_backoff_ms: u64,
    /// The longest wait after any later failed attempt, in milliseconds.
    pub max_backoff_ms: u64,
}

/// What a fetch ends with: the decoded body, the absence of the field, or
/// an error.
pub type Fetched = Result<Option<Decoded>, FetchError>;

/// A `Fetched` as contracts see it.
pub type FetchedView = Result<Option<DecodedView>, FetchErrorView>;

/// The view of a `Fetched`.
pub open spec fn fetched_view(r: Fetched) -> FetchedView {
    match r {
        Ok(Some(d)) => Ok(Some(d@)),
        Ok(None) => Ok(None),
        Err(e) => Err(e@),
    }
}

/// What a 2xx response with `body` gives to a request in `format`.
pub open spec fn reading(format: Format, body: Seq<u8>) -> FetchedView {
    match decoded(format, body) {
        Some(d) => Ok(Some(d)),
        None => Err(FetchErrorView::DecodeFailure),
    }
}

/// The wait that follows a wait of `wait_ms`: twice as long, but no longer
/// than `cap_ms`.
pub open spec fn next_backoff(wait_ms: u64, cap_ms: u64) -> u64 {
    if 2 * wait_ms > cap_ms {
        cap_ms
    } else {
        (2 * wait_ms) as u64
    }
}

/// A fetch under way.
#[derive(Debug, PartialEq)]
pub struct Request {
    client: Client,
    format: Format,
    url: String,
    failures: u32,
    backoff_ms: u64,
}

/// What a `Request` holds.
pub struct RequestView {
    pub client: Client,
    pub format: Format,
    pub url: Seq<char>,
    /// The attempts that have failed so far.
    pub failures: nat,
    /// The wait before the next attempt, should this one fail.
    pub backoff_ms: u64,
}

impl View for Request {
    type V = RequestView;

    closed spec fn view(&self) -> RequestView {
        RequestView {
            client: self.client,
            format: self.format,
            url: self.url@,
            failures: self.failures as nat,
            backoff_ms: self.backoff_ms,
        }
    }
}

/// Where a request stands after a reply.
#[derive(Debug, PartialEq)]
pub enum Progress {
    /// The attempt failed and another is due, after `wait_ms` milliseconds.
    Retry { wait_ms: u64, request: Request },
    /// The fetch is over.
    Done(Fetched),
}

/// A `Progress` as contracts see it.
pub enum ProgressView {
    Retry { wait_ms: u64, request: RequestView },
    Done(FetchedView),
}

impl View for Progress {
    type V = ProgressView;

    open spec fn view(&self) -> ProgressView {
        match self {
            Progress::Retry { wait_ms, request } => ProgressView::Retry {
                wait_ms: *wait_ms,
                request: request@,
            },
            Progress::Done(r) => ProgressView::Done(fetched_view(*r)),
        }
    }
}

impl Client {
    /// Whether `reply` is a failure that a later attempt may mend: no
    /// response at all, a 404 that does not stand for absence, or a status
    /// that is neither a success nor a client error.
    pub open spec fn may_retry(self, reply: ReplyView) -> bool {
        match reply {
            ReplyView::Unreachable => true,
            ReplyView::Status { code, .. } => if code == 404 {
                !self.return_on_404
            } else {
                !(200 <= code <= 299) && !(400 <= code <= 499)
            },
        }
    }

    /// The error that stands for a failed attempt.
    pub open spec fn failure_of(reply: ReplyView) -> FetchErrorView {
        match reply {
            ReplyView::Unreachable => FetchErrorView::TransportTransient(Cause::Unreachable),
            ReplyView::Status { code, .. } => if 400 <= code <= 499 {
                FetchErrorView::TransportPermanent(code)
            } else {
                FetchErrorView::TransportTransient(Cause::Status(code))
            },
        }
    }
}

impl RequestView {
    /// Whether a failure of the attempt under way would be the last.
    pub open spec fn exhausted(self) -> bool {
        self.failures + 1 >= self.client.max_attempts
    }

    /// How many attempts the request may still take, the one under way
    /// included.
    pub open spec fn attempts_left(self) -> nat {
        if self.exhausted() {
            1
        } else {
            (self.client.max_attempts - self.failures) as nat
        }
    }

    /// How many failed attempts the request may still recover from.
    pub open spec fn retry_ceiling(self) -> nat {
        (self.attempts_left() - 1) as nat
    }

    /// The request after one more failed attempt.
    pub open spec fn after_failure(self) -> RequestView {
        RequestView {
            failures: self.failures + 1,
            backoff_ms: next_backoff(self.backoff_ms, self.client.max_backoff_ms),
            ..self
        }
    }

    /// The request after `n` more failed attempts.
    pub open spec fn after_failures(self, n: nat) -> RequestView
        decreases n,
    {
        if n == 0 {
            self
        } else {
            self.after_failure().after_failures((n - 1) as nat)
        }
    }

    /// Where the request stands once an attempt has failed with `error`:
    /// over, where no attempt is left; else waiting for the next.
    pub open spec fn failure(self, error: FetchErrorView) -> ProgressView {
        if self.exhausted() {
            ProgressView::Done(Err(error))
        } else {
            ProgressView::Retry { wait_ms: self.backoff_ms, request: self.after_failure() }
        }
    }

    /// Where the request stands after `reply`.
    pub open spec fn receive(self, reply: ReplyView) -> ProgressView {
        match reply {
            ReplyView::Unreachable => self.failure(Client::failure_of(reply)),
            ReplyView::Status { code, body } => if 200 <= code <= 299 {
                ProgressView::Done(reading(self.format, body))
            } else if code == 404 && self.client.return_on_404 {
                ProgressView::Done(Ok(None))
            } else if 400 <= code <= 499 && code != 404 {
                ProgressView::Done(Err(FetchErrorView::TransportPermanent(code)))
            } else {
                self.failure(Client::failure_of(reply))
            },
        }
    }

    /// What the fetch ends with when its attempts meet `replies`, one after
    /// the other, and how many of them it took; `None` where the replies run
    /// out before the fetch is over.
    pub open spec fn run(self, replies: Seq<ReplyView>) -> Option<(FetchedView, nat)>
        decreases replies.len(),
    {
        if replies.len() == 0 {
            None
        } else {
            match self.receive(replies[0]) {
                ProgressView::Done(r) => Some((r, 1nat)),
                ProgressView::Retry { request, .. } => match request.run(replies.drop_first()) {
                    Some((r, n)) => Some((r, n + 1)),
                    None => None,
                },
            }
        }
    }
}

impl Client {
    /// A client that takes a 404 for a failure, allows
    /// `DEFAULT_MAX_ATTEMPTS` attempts, and waits
    /// `DEFAULT_INITIAL_BACKOFF_MS` at first and `DEFAULT_MAX_BACKOFF_MS` at
    /// most.
    pub fn new() -> (r: Client)
        ensures
            r == (Client {
                return_on_404: false,
                max_attempts: DEFAULT_MAX_ATTEMPTS,
                initial_backoff_ms: DEFAULT_INITIAL_BACKOFF_MS,
                max_backoff_ms: DEFAULT_MAX_BACKOFF_MS,
            }),
    {
        Client {
            return_on_404: false,
            max_attempts: DEFAULT_MAX_ATTEMPTS,
            initial_backoff_ms: DEFAULT_INITIAL_BACKOFF_MS,
            max_backoff_ms: DEFAULT_MAX_BACKOFF_MS,
        }
    }

    /// The client with the meaning of a 404 set: absence of the field where
    /// `return_on_404` is true, a failure where it is false. Requests made
    /// before keep the meaning that they were made with.
    pub fn return_on_404(self, return_on_404: bool) -> (r: Client)
        ensures
            r == (Client { return_on_404, ..self }),
    {
        Client { return_on_404, ..self }
    }

    /// The client with the number of attempts set.
    pub fn max_attempts(self, max_attempts: u32) -> (r: Client)
        ensures
            r == (Client { max_attempts, ..self }),
    {
        Client { max_attempts, ..self }
    }

    /// The client with the first wait set.
    pub fn initial_backoff(self, initial_backoff_ms: u64) -> (r: Client)
        ensures
            r == (Client { initial_backoff_ms, ..self }),
    {
        Client { initial_backoff_ms, ..self }
    }

    /// The client with the longest wait set.
    pub fn max_backoff(self, max_backoff_ms: u64) -> (r: Client)
        ensures
            r == (Client { max_backoff_ms, ..self }),
    {
        Client { max_backoff_ms, ..self }
    }

    /// A fetch of `url`, to be read in `format`, with no attempt made yet.
    pub fn get(&self, format: Format, url: String) -> (r: Request)
        ensures
            r@ == (RequestView {
                client: *self,
                format,
                url: url@,
                failures: 0,
                backoff_ms: self.initial_backoff_ms,
            }),
    {
        Request { client: *self, format, url, failures: 0, backoff_ms: self.initial_backoff_ms }
    }
}

impl Request {
    /// The address to GET.
    pub fn url(&self) -> (r: &str)
        ensures
            r@ == self@.url,
    {
        self.url.as_str()
    }

    /// The format in which the body is to be read.
    pub fn format(&self) -> (r: Format)
        ensures
            r == self@.format,
    {
        self.format
    }

    /// Takes the reply to the attempt under way and says where the fetch
    /// stands. A success is decoded, and a body that does not decode ends the
    /// fetch. A 404 ends it without a value where the client takes it for
    /// absence. Another client error ends it too. Any other reply is a
    /// failed attempt: the next is due after the wait, unless this was the
    /// last that the client allows.
    pub fn receive(self, reply: Reply) -> (r: Progress)
        ensures
            r@ == self@.receive(reply@),
    {
        match reply {
            Reply::Unreachable => self.failed(
                FetchError::TransportTransient(Cause::Unreachable),
            ),
            Reply::Status { code, body } => {
                if 200 <= code && code <= 299 {
                    match self.format.decode(body) {
                        Ok(d) => Progress::Done(Ok(Some(d))),
                        Err(e) => Progress::Done(Err(e)),
                    }
                } else if code == 404 {
                    if self.client.return_on_404 {
                        Progress::Done(Ok(None))
                    } else {
                        self.failed(FetchError::TransportPermanent(code))
                    }
                } else if 400 <= code && code <= 499 {
                    Progress::Done(Err(FetchError::TransportPermanent(code)))
                } else {
                    self.failed(FetchError::TransportTransient(Cause::Status(code)))
                }
            },
        }
    }

    fn failed(self, error: FetchError) -> (r: Progress)
        ensures
            r@ == self@.failure(error@),
    {
        if self.client.max_attempts <= 1 || self.failures >= self.client.max_attempts - 1 {
            Progress::Done(Err(error))
        } else {
            let wait_ms: u64 = self.backoff_ms;
            let cap_ms: u64 = self.client.max_backoff_ms;
            let next_ms: u64 = if wait_ms > cap_ms / 2 {
                cap_ms
            } else {
                2 * wait_ms
            };
            Progress::Retry {
                wait_ms,
                request: Request {
                    client: self.client,
                    format: self.format,
                    url: self.url,
                    failures: self.failures + 1,
                    backoff_ms: next_ms,
                },
            }
        }
    }
}

/// The waits grow and stay under the cap: the next wait is twice the last
/// where that is within the cap, and the cap where it is not.
pub proof fn lemma_next_backoff(wait_ms: u64, cap_ms: u64)
    ensures
        next_backoff(wait_ms, cap_ms) <= cap_ms,
        wait_ms <= cap_ms ==> wait_ms <= next_backoff(wait_ms, cap_ms),
        2 * wait_ms <= cap_ms ==> next_backoff(wait_ms, cap_ms) == 2 * wait_ms,
        2 * wait_ms > cap_ms ==> next_backoff(wait_ms, cap_ms) == cap_ms,
{
}

/// Failed attempts within the retry ceiling leave the fetch open: what
/// follows them decides it, as if the request had started there.
pub proof fn lemma_run_after_failures(request: RequestView, replies: Seq<ReplyView>, n: nat)
    requires
        n <= replies.len(),
        n <= request.retry_ceiling(),
        forall|i: int| 0 <= i < n ==> request.client.may_retry(#[trigger] replies[i]),
    ensures
        request.after_failures(n).client == request.client,
        request.after_failures(n).format == request.format,
        request.after_failures(n).failures == request.failures + n,
        request.after_failures(n).attempts_left() == request.attempts_left() - n,
        request.run(replies) == match request.after_failures(n).run(replies.skip(n as int)) {
            Some((r, m)) => Some((r, m + n)),
            None => None,
        },
    decreases n,
{
    if n == 0 {
        assert(replies.skip(0) =~= replies);
    } else {
        let next = request.after_failure();
        let rest = replies.drop_first();
        assert(request.client.may_retry(replies[0]));
        assert(request.receive(replies[0]) == ProgressView::Retry {
            wait_ms: request.backoff_ms,
            request: next,
        });
        assert forall|i: int| 0 <= i < n - 1 implies next.client.may_retry(#[trigger] rest[i]) by {
            assert(rest[i] == replies[i + 1]);
        }
        lemma_run_after_failures(next, rest, (n - 1) as nat);
        assert(rest.skip(n - 1) =~= replies.skip(n as int));
    }
}

/// When every attempt that the client allows fails, the fetch ends with an
/// error that stands for the last of these failures, and has made exactly
/// the attempts allowed.
pub proof fn lemma_failures_exhaust(request: RequestView, replies: Seq<ReplyView>)
    requires
        request.attempts_left() <= replies.len(),
        forall|i: int|
            0 <= i < request.attempts_left() ==> request.client.may_retry(#[trigger] replies[i]),
    ensures
        request.run(replies) == Some(
            (
                Err::<Option<DecodedView>, FetchErrorView>(
                    Client::failure_of(replies[request.attempts_left() - 1]),
                ),
                request.attempts_left(),
            ),
        ),
{
    let n = request.retry_ceiling();
    lemma_run_after_failures(request, replies, n);
    let last = request.after_failures(n);
    let rest = replies.skip(n as int);
    assert(rest[0] == replies[n as int]);
    assert(last.exhausted());
    assert(request.client.may_retry(replies[n as int]));
    assert(last.receive(rest[0]) == ProgressView::Done(Err(Client::failure_of(rest[0]))));
}

/// A client that takes a 404 for absence answers a 404 with `Ok(None)`, at
/// once and whatever came before.
pub proof fn lemma_absent_on_404(request: RequestView, body: Seq<u8>)
    requires
        request.client.return_on_404,
    ensures
        request.receive(ReplyView::Status { code: 404, body }) == ProgressView::Done(Ok(None)),
{
}

/// A client that does not take a 404 for absence tries again on each 404
/// and, when all its attempts met one, ends with the error of a 404.
pub proof fn lemma_404_exhausts(request: RequestView, replies: Seq<ReplyView>)
    requires
        !request.client.return_on_404,
        request.attempts_left() <= replies.len(),
        forall|i: int|
            0 <= i < request.attempts_left() ==> (#[trigger] replies[i] matches ReplyView::Status {
                code,
                ..
            } && code == 404),
    ensures
        request.run(replies) == Some(
            (
                Err::<Option<DecodedView>, FetchErrorView>(FetchErrorView::TransportPermanent(404)),
                request.attempts_left(),
            ),
        ),
{
    lemma_failures_exhaust(request, replies);
}

/// Server errors, no more of them than the retry ceiling, followed by a
/// success: the fetch ends with what the body of the success decodes to.
pub proof fn lemma_recovers_after_server_errors(
    request: RequestView,
    replies: Seq<ReplyView>,
    n: nat,
)
    requires
        n < replies.len(),
        n <= request.retry_ceiling(),
        forall|i: int|
            0 <= i < n ==> (#[trigger] replies[i] matches ReplyView::Status { code, .. } && 500
                <= code <= 599),
        replies[n as int] matches ReplyView::Status { code, .. } && 200 <= code <= 299,
    ensures
        request.run(replies) == Some(
            (reading(request.format, replies[n as int]->body), n + 1),
        ),
{
    lemma_run_after_failures(request, replies, n);
    let rest = replies.skip(n as int);
    assert(rest[0] == replies[n as int]);
}

/// Server errors, more of them than the retry ceiling: the fetch ends with
/// a transient transport error that holds the status of the last attempt
/// made.
pub proof fn lemma_server_errors_exhaust(request: RequestView, replies: Seq<ReplyView>)
    requires
        request.retry_ceiling() < replies.len(),
        forall|i: int|
            0 <= i < replies.len() ==> (#[trigger] replies[i] matches ReplyView::Status {
                code,
                ..
            } && 500 <= code <= 599),
    ensures
        request.run(replies) == Some(
            (
                Err::<Option<DecodedView>, FetchErrorView>(
                    FetchErrorView::TransportTransient(
                        Cause::Status(replies[request.retry_ceiling() as int]->code),
                    ),
                ),
                request.attempts_left(),
            ),
        ),
{
    lemma_failures_exhaust(request, replies);
}

/// A success whose body does not decode ends the fetch with a decode
/// failure: no further attempt is made, however many the client allows.
pub proof fn lemma_decode_failure_is_final(request: RequestView, code: u16, body: Seq<u8>)
    requires
        200 <= code <= 299,
        decoded(request.format, body) is None,
    ensures
        request.receive(ReplyView::Status { code, body }) == ProgressView::Done(
            Err(FetchErrorView::DecodeFailure),
        ),
        forall|more: Seq<ReplyView>|
            request.run(seq![ReplyView::Status { code, body }] + more) == Some(
                (Err::<Option<DecodedView>, FetchErrorView>(FetchErrorView::DecodeFailure), 1nat),
            ),
{
    assert forall|more: Seq<ReplyView>|
        request.run(seq![ReplyView::Status { code, body }] + more) == Some(
            (Err::<Option<DecodedView>, FetchErrorView>(FetchErrorView::DecodeFailure), 1nat),
        ) by {
        let replies = seq![ReplyView::Status { code, body }] + more;
        assert(replies[0] == ReplyView::Status { code, body });
    }
}

} // verus!
