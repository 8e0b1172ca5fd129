//! Retrying with provenance: what each attempt reported, when to try again,
//! and how the attempts resolve into one outcome.

use vstd::prelude::*;

verus! {

/// What one attempt of a request reports.
#[derive(Debug)]
pub enum LlmRetryResult<T> {
    /// The attempt succeeded.
    Okay { output: T },
    /// The attempt failed in a way that may pass if the request is repeated.
    Transient { error: String },
    /// The attempt failed in a way that repeating cannot mend.
    Fatal { error: String },
}

/// Build an [`LlmRetryResult::Okay`] value.
pub fn retry_result_ok<T>(output: T) -> (r: LlmRetryResult<T>)
    ensures
        r == (LlmRetryResult::Okay { output }),
{
    LlmRetryResult::Okay { output }
}

/// Build an [`LlmRetryResult::Fatal`] value.
pub fn retry_result_fatal<T>(error: String) -> (r: LlmRetryResult<T>)
    ensures
        r == (LlmRetryResult::<T>::Fatal { error }),
{
    LlmRetryResult::Fatal { error }
}

/// Build an [`LlmRetryResult::Transient`] value.
pub fn retry_result_transient<T>(error: String) -> (r: LlmRetryResult<T>)
    ensures
        r == (LlmRetryResult::<T>::Transient { error }),
{
    LlmRetryResult::Transient { error }
}

/// Turn a plain result into an attempt result whose error is transient.
pub fn try_transient<T>(result: Result<T, String>) -> (r: LlmRetryResult<T>)
    ensures
        r == match result {
            Ok(output) => LlmRetryResult::Okay { output },
            Err(error) => LlmRetryResult::Transient { error },
        },
{
    match result {
        Ok(output) => LlmRetryResult::Okay { output },
        Err(error) => LlmRetryResult::Transient { error },
    }
}

/// Turn a plain result into an attempt result whose error is fatal.
pub fn try_fatal<T>(result: Result<T, String>) -> (r: LlmRetryResult<T>)
    ensures
        r == match result {
            Ok(output) => LlmRetryResult::Okay { output },
            Err(error) => LlmRetryResult::Fatal { error },
        },
{
    match result {
        Ok(output) => LlmRetryResult::Okay { output },
        Err(error) => LlmRetryResult::Fatal { error },
    }
}

/// Turn a plain result into an attempt result: the error is transient where
/// `known_transient` says so and fatal otherwise.
pub fn try_potentially_transient<T>(result: Result<T, String>, known_transient: bool) -> (r:
    LlmRetryResult<T>)
    ensures
        r == match result {
            Ok(output) => LlmRetryResult::Okay { output },
            Err(error) => if known_transient {
                LlmRetryResult::Transient { error }
            } else {
                LlmRetryResult::Fatal { error }
            },
        },
{
    match result {
        Ok(output) => LlmRetryResult::Okay { output },
        Err(error) => if known_transient {
            LlmRetryResult::Transient { error }
        } else {
            LlmRetryResult::Fatal { error }
        },
    }
}

/// Is an error a known transient error?
///
/// Errors count as fatal until they have been seen to pass on a later attempt:
/// this keeps a request from backing off again and again on an error that will
/// never resolve.
pub trait IsKnownTransient {
    /// Whether repeating the request may plausibly succeed.
    spec fn known_transient(&self) -> bool;

    /// Is this error likely to be transient?
    fn is_known_transient(&self) -> (b: bool)
        ensures
            b == self.known_transient(),
    ;
}

/// An HTTP status code.
#[derive(Debug, Clone, Copy, PartialEq, Eq, Structural)]
pub struct StatusCode(pub u16);

/// The transient HTTP statuses: Too Many Requests, Bad Gateway, Service
/// Unavailable and Gateway Timeout.
pub open spec fn status_known_transient(code: u16) -> bool {
    code == 429 || code == 502 || code == 503 || code == 504
}

impl IsKnownTransient for StatusCode {
    open spec fn known_transient(&self) -> bool {
        status_known_transient(self.0)
    }

    fn is_known_transient(&self) -> (b: bool) {
        self.0 == 429 || self.0 == 502 || self.0 == 503 || self.0 == 504
    }
}

/// An error of the HTTP layer: its status where one was received.
#[derive(Debug, Clone, Copy, PartialEq, Eq, Structural)]
pub struct HttpError {
    /// The status of the response, if the failure came with one.
    pub status: Option<StatusCode>,
}

impl IsKnownTransient for HttpError {
    /// A failure without a status is taken to be transient: too much can go
    /// wrong below HTTP to tell the kinds apart.
    open spec fn known_transient(&self) -> bool {
        match self.status {
            Some(status) => status.known_transient(),
            None => true,
        }
    }

    fn is_known_transient(&self) -> (b: bool) {
        match self.status {
            Some(status) => status.is_known_transient(),
            None => true,
        }
    }
}

/// How one request resolved after all its attempts.
#[derive(Debug)]
pub enum RetryOutcome<T> {
    /// The first attempt succeeded.
    Okay { value: T },
    /// A later attempt succeeded; `retry_errors` are the transient errors
    /// before it.
    Recovered { value: T, retry_errors: Vec<String> },
    /// The first attempt failed fatally.
    Fatal { error: String },
    /// The request failed after at least one transient error: the attempts ran
    /// out or a later attempt failed fatally.
    GivenUp { retry_errors: Vec<String>, fatal_error: String },
}

/// The mathematical model of a [`RetryOutcome`].
pub enum RetryOutcomeView<T> {
    Okay { value: T },
    Recovered { value: T, retry_errors: Seq<String> },
    Fatal { error: String },
    GivenUp { retry_errors: Seq<String>, fatal_error: String },
}

impl<T> View for RetryOutcome<T> {
    type V = RetryOutcomeView<T>;

    open spec fn view(&self) -> RetryOutcomeView<T> {
        match *self {
            RetryOutcome::Okay { value } => RetryOutcomeView::Okay { value },
            RetryOutcome::Recovered { value, retry_errors } => RetryOutcomeView::Recovered {
                value,
                retry_errors: retry_errors@,
            },
            RetryOutcome::Fatal { error } => RetryOutcomeView::Fatal { error },
            RetryOutcome::GivenUp { retry_errors, fatal_error } => RetryOutcomeView::GivenUp {
                retry_errors: retry_errors@,
                fatal_error,
            },
        }
    }
}

impl<T> RetryOutcomeView<T> {
    /// Whether the request produced a value.
    pub open spec fn is_success(self) -> bool {
        self is Okay || self is Recovered
    }

    /// Every error of the request in the order of the attempts: the transient
    /// history, then the error that ended it.
    pub open spec fn errors(self) -> Seq<String> {
        match self {
            RetryOutcomeView::Okay { .. } => Seq::empty(),
            RetryOutcomeView::Recovered { retry_errors, .. } => retry_errors,
            RetryOutcomeView::Fatal { error } => seq![error],
            RetryOutcomeView::GivenUp { retry_errors, fatal_error } => retry_errors.push(
                fatal_error,
            ),
        }
    }
}

/// How often and how patiently a request is retried.
#[derive(Debug, Clone, Copy, PartialEq, Eq, Structural)]
pub struct RetryPolicy {
    /// The shortest pause between two attempts, in milliseconds.
    pub backoff_min_millis: u32,
    /// The longest pause between two attempts, in milliseconds.
    pub backoff_max_millis: u32,
    /// How many attempts may follow the first one.
    pub re_attempts: u8,
    /// The share of a pause by which it may be stretched or shortened, in
    /// thousandths.
    pub jitter_per_mille: u16,
}

/// The policy of every request: pauses from 1 ms to 30 s, five attempts after
/// the first, a jitter of a fifth.
pub open spec fn default_jitter_spec() -> RetryPolicy {
    RetryPolicy {
        backoff_min_millis: 1,
        backoff_max_millis: 30_000,
        re_attempts: 5,
        jitter_per_mille: 200,
    }
}

/// The policy of every request.
pub fn default_jitter() -> (p: RetryPolicy)
    ensures
        p == default_jitter_spec(),
{
    RetryPolicy {
        backoff_min_millis: 1,
        backoff_max_millis: 30_000,
        re_attempts: 5,
        jitter_per_mille: 200,
    }
}

/// The transient errors of a request so far. The number of attempts made is
/// the number of errors, since only a transient error leads to another
/// attempt.
#[derive(Debug)]
pub struct RetryState {
    /// The transient errors so far, oldest first.
    pub retry_errors: Vec<String>,
}

/// What follows an attempt.
#[derive(Debug)]
pub enum RetryStep<T> {
    /// The request is resolved.
    Done { outcome: RetryOutcome<T> },
    /// The request is to be attempted again, after a pause.
    Retry { state: RetryState },
}

/// The model of a [`RetryStep`].
pub enum RetryStepView<T> {
    Done { outcome: RetryOutcomeView<T> },
    Retry { retry_errors: Seq<String> },
}

impl<T> View for RetryStep<T> {
    type V = RetryStepView<T>;

    open spec fn view(&self) -> RetryStepView<T> {
        match *self {
            RetryStep::Done { outcome } => RetryStepView::Done { outcome: outcome@ },
            RetryStep::Retry { state } => RetryStepView::Retry {
                retry_errors: state.retry_errors@,
            },
        }
    }
}

/// What follows when a request with the transient history `retry_errors`
/// reports `result` on its next attempt.
///
/// A success resolves the request, as `Okay` on the first attempt and as
/// `Recovered` later. A fatal error resolves it, as `Fatal` on the first
/// attempt and as `GivenUp` later. A transient error leads to another attempt
/// while fewer than `re_attempts` transient errors came before; after that it
/// resolves the request as `GivenUp`, with itself as the last error.
pub open spec fn step_spec<T>(
    re_attempts: nat,
    retry_errors: Seq<String>,
    result: LlmRetryResult<T>,
) -> RetryStepView<T> {
    match result {
        LlmRetryResult::Okay { output } => RetryStepView::Done {
            outcome: if retry_errors.len() == 0 {
                RetryOutcomeView::Okay { value: output }
            } else {
                RetryOutcomeView::Recovered { value: output, retry_errors }
            },
        },
        LlmRetryResult::Fatal { error } => RetryStepView::Done {
            outcome: if retry_errors.len() == 0 {
                RetryOutcomeView::Fatal { error }
            } else {
                RetryOutcomeView::GivenUp { retry_errors, fatal_error: error }
            },
        },
        LlmRetryResult::Transient { error } => if retry_errors.len() < re_attempts {
            RetryStepView::Retry { retry_errors: retry_errors.push(error) }
        } else {
            RetryStepView::Done {
                outcome: RetryOutcomeView::GivenUp { retry_errors, fatal_error: error },
            }
        },
    }
}

/// The outcome of a request whose attempts report `results` in turn, starting
/// from the history `retry_errors`; `None` where the attempts end before the
/// request is resolved. Attempts after the resolving one are not made and are
/// ignored here.
pub open spec fn resolve_spec<T>(
    re_attempts: nat,
    retry_errors: Seq<String>,
    results: Seq<LlmRetryResult<T>>,
) -> Option<RetryOutcomeView<T>>
    decreases results.len(),
{
    if results.len() == 0 {
        None
    } else {
        match step_spec(re_attempts, retry_errors, results[0]) {
            RetryStepView::Done { outcome } => Some(outcome),
            RetryStepView::Retry { retry_errors } => resolve_spec(
                re_attempts,
                retry_errors,
                results.skip(1),
            ),
        }
    }
}

impl RetryState {
    /// The state of a request before its first attempt.
    pub fn new() -> (s: RetryState)
        ensures
            s.retry_errors@ == Seq::<String>::empty(),
    {
        RetryState { retry_errors: Vec::new() }
    }

    /// How many attempts have been made.
    pub fn attempts(&self) -> (n: usize)
        ensures
            n == self.retry_errors@.len(),
    {
        self.retry_errors.len()
    }

    /// Take the result of the next attempt and decide what follows.
    pub fn on_attempt<T>(self, policy: &RetryPolicy, result: LlmRetryResult<T>) -> (step:
        RetryStep<T>)
        ensures
            step@ == step_spec(policy.re_attempts as nat, self.retry_errors@, result),
    {
        let mut retry_errors = self.retry_errors;
        match result {
            LlmRetryResult::Okay { output } => {
                if retry_errors.len() == 0 {
                    RetryStep::Done { outcome: RetryOutcome::Okay { value: output } }
                } else {
                    RetryStep::Done {
                        outcome: RetryOutcome::Recovered { value: output, retry_errors },
                    }
                }
            },
            LlmRetryResult::Fatal { error } => {
                if retry_errors.len() == 0 {
                    RetryStep::Done { outcome: RetryOutcome::Fatal { error } }
                } else {
                    RetryStep::Done {
                        outcome: RetryOutcome::GivenUp { retry_errors, fatal_error: error },
                    }
                }
            },
            LlmRetryResult::Transient { error } => {
                if retry_errors.len() < policy.re_attempts as usize {
                    retry_errors.push(error);
                    RetryStep::Retry { state: RetryState { retry_errors } }
                } else {
                    RetryStep::Done {
                        outcome: RetryOutcome::GivenUp { retry_errors, fatal_error: error },
                    }
                }
            },
        }
    }
}

/// Resolve a request from the recorded results of its attempts, in order.
/// Returns `None` where the record ends before the request is resolved.
pub fn resolve_attempts<T>(policy: &RetryPolicy, results: Vec<LlmRetryResult<T>>) -> (outcome:
    Option<RetryOutcome<T>>)
    ensures
        match outcome {
            Some(o) => resolve_spec(policy.re_attempts as nat, Seq::empty(), results@) == Some(o@),
            None => resolve_spec(policy.re_attempts as nat, Seq::empty(), results@).is_none(),
        },
{
    let mut state = RetryState::new();
    let ghost all = results@;
    assert(all.skip(0) =~= all);
    for next in it: results
        invariant
            it.seq() == all,
            resolve_spec(policy.re_attempts as nat, Seq::empty(), all) == resolve_spec(
                policy.re_attempts as nat,
                state.retry_errors@,
                all.skip(it.index() as int),
            ),
    {
        assert(next == all.skip(it.index() as int)[0]);
        assert(all.skip(it.index() as int).skip(1) =~= all.skip(it.index() + 1));
        match state.on_attempt(policy, next) {
            RetryStep::Done { outcome } => {
                return Some(outcome);
            },
            RetryStep::Retry { state: s } => {
                state = s;
            },
        }
    }
    assert(all.skip(all.len() as int).len() == 0);
    None
}

/// A run of `k` transient errors followed by a success resolves to a success
/// that carries exactly those `k` errors, as long as `k` is within the number
/// of re-attempts.
pub proof fn lemma_transients_then_ok<T>(
    re_attempts: nat,
    retry_errors: Seq<String>,
    results: Seq<LlmRetryResult<T>>,
)
    requires
        results.len() >= 1,
        forall|i: int| 0 <= i < results.len() - 1 ==> (#[trigger] results[i]) is Transient,
        results.last() is Okay,
        retry_errors.len() + results.len() - 1 <= re_attempts,
    ensures
        resolve_spec(re_attempts, retry_errors, results) is Some,
        resolve_spec(re_attempts, retry_errors, results)->Some_0.is_success(),
        resolve_spec(re_attempts, retry_errors, results)->Some_0.errors().len()
            == retry_errors.len() + results.len() - 1,
    decreases results.len(),
{
    if results.len() > 1 {
        assert(results[0] is Transient);
        let next = retry_errors.push(results[0]->Transient_error);
        let rest = results.skip(1);
        assert forall|i: int| 0 <= i < rest.len() - 1 implies (#[trigger] rest[i]) is Transient by {
            assert(rest[i] == results[i + 1]);
        }
        assert(rest.last() == results.last());
        lemma_transients_then_ok(re_attempts, next, rest);
    } else {
        assert(results[0] == results.last());
    }
}

/// A run of only transient errors that is one longer than the number of
/// re-attempts resolves to a failure that carries every one of the errors.
pub proof fn lemma_transients_exhaust<T>(
    re_attempts: nat,
    retry_errors: Seq<String>,
    results: Seq<LlmRetryResult<T>>,
)
    requires
        forall|i: int| 0 <= i < results.len() ==> (#[trigger] results[i]) is Transient,
        retry_errors.len() <= re_attempts,
        retry_errors.len() + results.len() == re_attempts + 1,
    ensures
        resolve_spec(re_attempts, retry_errors, results) is Some,
        resolve_spec(re_attempts, retry_errors, results)->Some_0 is GivenUp,
        resolve_spec(re_attempts, retry_errors, results)->Some_0.errors().len() == re_attempts + 1,
    decreases results.len(),
{
    assert(results[0] is Transient);
    if retry_errors.len() < re_attempts {
        let next = retry_errors.push(results[0]->Transient_error);
        let rest = results.skip(1);
        assert forall|i: int| 0 <= i < rest.len() implies (#[trigger] rest[i]) is Transient by {
            assert(rest[i] == results[i + 1]);
        }
        lemma_transients_exhaust(re_attempts, next, rest);
    }
}

} // verus!
