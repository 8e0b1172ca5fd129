//! Work records, their counters and the failure-rate guard.
//!
//! The ideas behind the queue come from "Queues Don't Fix Overload": the
//! number of items in flight is bounded, and once the bound is reached a
//! producer has to wait until an item completes.

use vstd::prelude::*;
use crate::drivers::{Cost, TokenUsage};
use crate::json::Json;
use crate::text::{decimal_digits, padded_digits, percent_text, push_decimal, push_padded,
    push_percent, rounded_div, rounded_div_u128};

verus! {

/// Input record for a work queue.
#[derive(Debug)]
pub struct WorkInput<T> {
    /// The unique ID of the work item. It is never interpreted, only handed on
    /// to the matching output.
    pub id: Json,
    /// The input data for the work item.
    pub data: T,
}

/// Output status of a work item.
#[derive(Clone, Copy, Debug, PartialEq, Eq, Structural)]
pub enum WorkStatus {
    /// The work item was successful.
    Okay,
    /// Partial data.
    Incomplete,
    /// The work item was passed over on request.
    Skipped,
    /// The work item failed.
    Failed,
}

impl WorkStatus {
    /// The exact value of the status in an output record.
    pub open spec fn name(&self) -> Seq<char> {
        match self {
            WorkStatus::Okay => "ok"@,
            WorkStatus::Incomplete => "incomplete"@,
            WorkStatus::Skipped => "skipped"@,
            WorkStatus::Failed => "failed"@,
        }
    }

    /// The value of the status in an output record.
    pub fn as_str(&self) -> (s: &'static str)
        ensures
            s@ == self.name(),
    {
        match self {
            WorkStatus::Okay => "ok",
            WorkStatus::Incomplete => "incomplete",
            WorkStatus::Skipped => "skipped",
            WorkStatus::Failed => "failed",
        }
    }
}

/// Output record from a work queue.
#[derive(Debug)]
pub struct WorkOutput<T> {
    /// The unique ID of the work item.
    pub id: Json,
    /// What is the status of this work item?
    pub status: WorkStatus,
    /// How much money do we think we spent?
    pub estimated_cost: Option<Cost>,
    /// How many tokens did we use?
    pub token_usage: Option<TokenUsage>,
    /// Any errors that occurred during processing.
    pub errors: Vec<String>,
    /// The output data for the work item.
    pub data: T,
}

impl<T> WorkOutput<T> {
    /// Create a new failed output record.
    pub fn new_failed(id: Json, errors: Vec<String>, data: T) -> (out: Self)
        ensures
            out.id == id,
            out.status == WorkStatus::Failed,
            out.estimated_cost.is_none(),
            out.token_usage.is_none(),
            out.errors == errors,
            out.data == data,
    {
        Self {
            id,
            status: WorkStatus::Failed,
            estimated_cost: None,
            token_usage: None,
            errors,
            data,
        }
    }
}

/// The share of outputs that may fail before the whole run counts as failed:
/// `numerator / denominator`, between 0 and 1.
#[derive(Clone, Copy, Debug, PartialEq, Eq, Structural)]
pub struct FailureRate {
    /// How many of `denominator` outputs may fail.
    pub numerator: u64,
    /// The number of outputs that `numerator` is counted against.
    pub denominator: u64,
}

impl FailureRate {
    /// The rate is a share between 0 and 1.
    pub open spec fn wf(&self) -> bool {
        0 < self.denominator && self.numerator <= self.denominator
    }

    /// The rate `numerator / denominator`, where that is a share between 0
    /// and 1.
    pub fn new(numerator: u64, denominator: u64) -> (r: Option<FailureRate>)
        ensures
            r == if 0 < denominator && numerator <= denominator {
                Some(FailureRate { numerator, denominator })
            } else {
                None
            },
    {
        if 0 < denominator && numerator <= denominator {
            Some(FailureRate { numerator, denominator })
        } else {
            None
        }
    }

    /// Whether `failed` failures among `total` outputs are more than this rate
    /// allows: `failed / total > numerator / denominator`, stated without a
    /// division.
    pub open spec fn exceeded_by(&self, failed: nat, total: nat) -> bool {
        failed * self.denominator > self.numerator * total
    }

    /// Whether `failed` failures among `total` outputs are more than this rate
    /// allows.
    pub fn is_exceeded_by(&self, failed: usize, total: usize) -> (b: bool)
        ensures
            b == self.exceeded_by(failed as nat, total as nat),
    {
        assert(failed * self.denominator <= 0xffff_ffff_ffff_ffff * 0xffff_ffff_ffff_ffff)
            by (nonlinear_arith)
            requires
                failed <= 0xffff_ffff_ffff_ffff,
                self.denominator <= 0xffff_ffff_ffff_ffff,
        ;
        assert(self.numerator * total <= 0xffff_ffff_ffff_ffff * 0xffff_ffff_ffff_ffff)
            by (nonlinear_arith)
            requires
                total <= 0xffff_ffff_ffff_ffff,
                self.numerator <= 0xffff_ffff_ffff_ffff,
        ;
        assert(0xffff_ffff_ffff_ffff * 0xffff_ffff_ffff_ffff
            <= 0xffff_ffff_ffff_ffff_ffff_ffff_ffff_ffff) by (nonlinear_arith);
        let left: u128 = failed as u128 * self.denominator as u128;
        let right: u128 = self.numerator as u128 * total as u128;
        left > right
    }
}

/// Counters associated with a stream of work outputs.
#[derive(Clone, Copy, Debug, PartialEq, Eq, Structural)]
pub struct WorkOutputCounters {
    /// How many records did we process?
    pub total_record_count: usize,
    /// How many records did we fail to process?
    pub failure_count: usize,
    /// How many non-fatal errors did we encounter?
    pub non_fatal_error_count: usize,
    /// How much money do we think we spent?
    pub cost_estimate: Cost,
    /// How many tokens did we use?
    pub token_usage: TokenUsage,
}

impl Default for WorkOutputCounters {
    fn default() -> (c: WorkOutputCounters)
        ensures
            c == WorkOutputCounters::zero(),
    {
        WorkOutputCounters {
            total_record_count: 0,
            failure_count: 0,
            non_fatal_error_count: 0,
            cost_estimate: Cost { picodollars: 0 },
            token_usage: TokenUsage { prompt_tokens: 0, completion_tokens: 0 },
        }
    }
}

/// What the counters tell at the end of a run.
#[derive(Debug)]
pub struct RunSummary {
    /// The tokens used, where any were.
    pub tokens_message: Option<String>,
    /// The estimated cost, where there is one.
    pub cost_message: Option<String>,
    /// The error of a run with more failures than allowed.
    pub failure: Option<String>,
    /// The number of non-fatal errors, where the run passed and had any.
    pub non_fatal_errors_message: Option<String>,
    /// The number of failed records, where the run passed and had any.
    pub failures_message: Option<String>,
}

/// The model of an optional string.
pub open spec fn opt_text(s: Option<String>) -> Option<Seq<char>> {
    match s {
        Some(s) => Some(s@),
        None => None,
    }
}

impl WorkOutputCounters {
    /// The counters before any output.
    pub open spec fn zero() -> WorkOutputCounters {
        WorkOutputCounters {
            total_record_count: 0,
            failure_count: 0,
            non_fatal_error_count: 0,
            cost_estimate: Cost { picodollars: 0 },
            token_usage: TokenUsage { prompt_tokens: 0, completion_tokens: 0 },
        }
    }

    /// No more records failed than were processed.
    pub open spec fn wf(&self) -> bool {
        self.failure_count <= self.total_record_count
    }

    /// The counters after `item` has passed, as unbounded numbers: one more
    /// record; one more failure unless the status is `Okay`; on `Okay`, as many
    /// more non-fatal errors as the item carries; the item's cost and tokens
    /// where it has them.
    pub open spec fn updated<T>(&self, item: &WorkOutput<T>) -> (int, int, int, int, (int, int)) {
        (
            self.total_record_count + 1,
            self.failure_count + (if item.status != WorkStatus::Okay { 1int } else { 0int }),
            self.non_fatal_error_count + (if item.status == WorkStatus::Okay {
                item.errors@.len() as int
            } else {
                0int
            }),
            self.cost_estimate.picodollars + (match item.estimated_cost {
                Some(c) => c.picodollars as int,
                None => 0int,
            }),
            match item.token_usage {
                Some(u) => self.token_usage.plus(u),
                None => (
                    self.token_usage.prompt_tokens as int,
                    self.token_usage.completion_tokens as int,
                ),
            },
        )
    }

    /// Whether the counters can take `item` without leaving their ranges.
    pub open spec fn can_update<T>(&self, item: &WorkOutput<T>) -> bool {
        let u = self.updated(item);
        &&& u.0 <= usize::MAX
        &&& u.2 <= usize::MAX
        &&& u.3 <= u64::MAX
        &&& u.4.0 <= u64::MAX
        &&& u.4.1 <= u64::MAX
    }

    /// Whether `update` may be called with `item`.
    pub fn check_update<T>(&self, item: &WorkOutput<T>) -> (b: bool)
        ensures
            b == self.can_update(item),
    {
        if self.total_record_count == usize::MAX {
            return false;
        }
        if item.status == WorkStatus::Okay && item.errors.len() > usize::MAX
            - self.non_fatal_error_count {
            return false;
        }
        match item.estimated_cost {
            Some(c) => {
                if c.picodollars > u64::MAX - self.cost_estimate.picodollars {
                    return false;
                }
            },
            None => {},
        }
        match item.token_usage {
            Some(u) => {
                if u.prompt_tokens > u64::MAX - self.token_usage.prompt_tokens
                    || u.completion_tokens > u64::MAX - self.token_usage.completion_tokens {
                    return false;
                }
            },
            None => {},
        }
        true
    }

    /// Update counters for a work item.
    pub fn update<T>(&mut self, item: &WorkOutput<T>)
        requires
            old(self).wf(),
            old(self).can_update(item),
        ensures
            final(self).wf(),
            final(self).total_record_count == old(self).updated(item).0,
            final(self).failure_count == old(self).updated(item).1,
            final(self).non_fatal_error_count == old(self).updated(item).2,
            final(self).cost_estimate.picodollars == old(self).updated(item).3,
            final(self).token_usage.prompt_tokens == old(self).updated(item).4.0,
            final(self).token_usage.completion_tokens == old(self).updated(item).4.1,
    {
        self.total_record_count = self.total_record_count + 1;
        if item.status != WorkStatus::Okay {
            self.failure_count = self.failure_count + 1;
        } else if item.errors.len() > 0 {
            self.non_fatal_error_count = self.non_fatal_error_count + item.errors.len();
        }
        match item.estimated_cost {
            Some(cost) => {
                self.cost_estimate = Cost {
                    picodollars: self.cost_estimate.picodollars + cost.picodollars,
                };
            },
            None => {},
        }
        match item.token_usage {
            Some(usage) => {
                self.token_usage.add_assign(usage);
            },
            None => {},
        }
    }

    /// Whether the run failed: more records failed than `allowed` admits.
    pub open spec fn too_many_failures(&self, allowed: FailureRate) -> bool {
        allowed.exceeded_by(self.failure_count as nat, self.total_record_count as nat)
    }

    /// The message on the tokens used.
    pub open spec fn tokens_text(&self) -> Seq<char> {
        decimal_digits(self.token_usage.prompt_tokens as nat) + " input tokens and "@
            + decimal_digits(self.token_usage.completion_tokens as nat) + " output tokens used"@
    }

    /// The message on the estimated cost: dollars with eight decimals, rounded
    /// to the nearest, a tie going to the even digit.
    pub open spec fn cost_text(&self) -> Seq<char> {
        let units = rounded_div(self.cost_estimate.picodollars as nat, 10_000);
        "Estimated cost: US$"@ + decimal_digits(units / 100_000_000).push('.') + padded_digits(
            units % 100_000_000,
            8,
        )
    }

    /// The error of a run with too many failures.
    pub open spec fn failure_text(&self, allowed: FailureRate) -> Seq<char> {
        decimal_digits(self.failure_count as nat).push('/') + decimal_digits(
            self.total_record_count as nat,
        ) + " ("@ + percent_text(self.failure_count as nat, self.total_record_count as nat)
            + "%) of outputs were failures, but only "@ + percent_text(
            allowed.numerator as nat,
            allowed.denominator as nat,
        ) + "% were allowed"@
    }

    /// The message on non-fatal errors.
    pub open spec fn non_fatal_errors_text(&self) -> Seq<char> {
        decimal_digits(self.non_fatal_error_count as nat) + " non-fatal errors encountered"@
    }

    /// The message on failed records.
    pub open spec fn failures_text(&self) -> Seq<char> {
        decimal_digits(self.failure_count as nat) + " records could not be processed"@
    }

    /// Close a run: say what was used, and fail the run where more records
    /// failed than `allowed` admits.
    ///
    /// The run fails exactly when `failure_count / total_record_count` is
    /// greater than the allowed rate. A run without records passes.
    pub fn finish(&self, allowed: FailureRate) -> (summary: RunSummary)
        requires
            self.wf(),
            allowed.wf(),
        ensures
            summary.failure.is_some() == self.too_many_failures(allowed),
            opt_text(summary.tokens_message) == if self.token_usage.zero() {
                None
            } else {
                Some(self.tokens_text())
            },
            opt_text(summary.cost_message) == if self.cost_estimate.picodollars > 0 {
                Some(self.cost_text())
            } else {
                None
            },
            opt_text(summary.failure) == if self.too_many_failures(allowed) {
                Some(self.failure_text(allowed))
            } else {
                None
            },
            opt_text(summary.non_fatal_errors_message) == if !self.too_many_failures(allowed)
                && self.non_fatal_error_count > 0 {
                Some(self.non_fatal_errors_text())
            } else {
                None
            },
            opt_text(summary.failures_message) == if !self.too_many_failures(allowed)
                && self.failure_count > 0 {
                Some(self.failures_text())
            } else {
                None
            },
    {
        let tokens_message = if !self.token_usage.is_zero() {
            let mut s = String::new();
            push_decimal(&mut s, self.token_usage.prompt_tokens);
            s.append(" input tokens and ");
            push_decimal(&mut s, self.token_usage.completion_tokens);
            s.append(" output tokens used");
            assert(s@ =~= self.tokens_text());
            Some(s)
        } else {
            None
        };
        let cost_message = if self.cost_estimate.picodollars > 0 {
            let units = rounded_div_u128(self.cost_estimate.picodollars as u128, 10_000);
            let mut s = String::from_str("Estimated cost: US$");
            push_decimal(&mut s, (units / 100_000_000) as u64);
            s.push('.');
            push_padded(&mut s, (units % 100_000_000) as u64, 8);
            assert(s@ =~= self.cost_text());
            Some(s)
        } else {
            None
        };
        if allowed.is_exceeded_by(self.failure_count, self.total_record_count) {
            assert(self.total_record_count > 0) by (nonlinear_arith)
                requires
                    self.failure_count * allowed.denominator > allowed.numerator
                        * self.total_record_count,
                    self.failure_count <= self.total_record_count,
            ;
            let mut s = String::new();
            push_decimal(&mut s, self.failure_count as u64);
            s.push('/');
            push_decimal(&mut s, self.total_record_count as u64);
            s.append(" (");
            push_percent(&mut s, self.failure_count as u64, self.total_record_count as u64);
            s.append("%) of outputs were failures, but only ");
            push_percent(&mut s, allowed.numerator, allowed.denominator);
            s.append("% were allowed");
            assert(s@ =~= self.failure_text(allowed));
            RunSummary {
                tokens_message,
                cost_message,
                failure: Some(s),
                non_fatal_errors_message: None,
                failures_message: None,
            }
        } else {
            let non_fatal_errors_message = if self.non_fatal_error_count > 0 {
                let mut s = String::new();
                push_decimal(&mut s, self.non_fatal_error_count as u64);
                s.append(" non-fatal errors encountered");
                assert(s@ =~= self.non_fatal_errors_text());
                Some(s)
            } else {
                None
            };
            let failures_message = if self.failure_count > 0 {
                let mut s = String::new();
                push_decimal(&mut s, self.failure_count as u64);
                s.append(" records could not be processed");
                assert(s@ =~= self.failures_text());
                Some(s)
            } else {
                None
            };
            RunSummary {
                tokens_message,
                cost_message,
                failure: None,
                non_fatal_errors_message,
                failures_message,
            }
        }
    }
}

/// The guard fails a run exactly when the share of failures is greater than
/// the allowed rate: with `total > 0`, that is `failed / total > numerator /
/// denominator` over the rationals.
pub proof fn lemma_failure_guard(counters: WorkOutputCounters, allowed: FailureRate)
    requires
        counters.wf(),
        allowed.wf(),
    ensures
        counters.total_record_count == 0 ==> !counters.too_many_failures(allowed),
        counters.total_record_count > 0 ==> (counters.too_many_failures(allowed) <==> (
        counters.failure_count as int) * (allowed.denominator as int) > (allowed.numerator as int)
            * (counters.total_record_count as int)),
        allowed.numerator == allowed.denominator ==> !counters.too_many_failures(allowed),
        allowed.numerator == 0 ==> (counters.too_many_failures(allowed) <==> counters.failure_count
            > 0),
{
    let f = counters.failure_count as int;
    let t = counters.total_record_count as int;
    let n = allowed.numerator as int;
    let d = allowed.denominator as int;
    assert(t == 0 ==> f * d == 0) by (nonlinear_arith)
        requires
            0 <= f <= t,
    ;
    assert(n * 0 == 0) by (nonlinear_arith);
    assert(n == d ==> f * d <= n * t) by (nonlinear_arith)
        requires
            0 <= f <= t,
            0 < d,
    ;
    assert(n == 0 ==> n * t == 0) by (nonlinear_arith);
    assert(f > 0 ==> f * d > 0) by (nonlinear_arith)
        requires
            d > 0,
    ;
    assert(f == 0 ==> f * d == 0) by (nonlinear_arith);
    assert(n * t >= 0) by (nonlinear_arith)
        requires
            n >= 0,
            t >= 0,
    ;
}

} // verus!

verus! {

/// A work item: an input and the ticket under which its output is returned.
/// Tickets count the submissions to a queue, so the ticket is also the place
/// of the input in the order of submission.
#[derive(Debug)]
pub struct WorkItem<InputData> {
    /// The ticket of the submission.
    pub ticket: u64,
    /// The input to the work item.
    pub input: WorkInput<InputData>,
}

/// Why a queue could not be made.
#[derive(Clone, Copy, Debug, PartialEq, Eq, Structural)]
pub enum WorkQueueError {
    /// A queue needs room for at least one item.
    ZeroConcurrency,
}

/// The book of a bounded work queue: which items wait, which are being
/// processed and which are done.
///
/// At most `concurrency_limit` items wait and at most `concurrency_limit` are
/// in flight, so at most twice that many are resident at any time. The caller
/// performs the work: it submits inputs, asks for the next item to start
/// whenever a worker is free, and reports each completion.
pub struct WorkQueue<InputData> {
    /// The most items that may wait, and the most that may be in flight.
    pub concurrency_limit: usize,
    /// The items that wait, oldest first.
    pub waiting: Vec<WorkItem<InputData>>,
    /// The tickets of the items in flight.
    pub in_flight: Vec<u64>,
    /// The ticket of the next submission: the number of submissions so far.
    pub next_ticket: u64,
    /// The tickets of the items that are done.
    pub finished: Ghost<Set<u64>>,
}

impl<InputData> WorkQueue<InputData> {
    /// The invariant of the book.
    pub open spec fn wf(&self) -> bool {
        &&& self.concurrency_limit >= 1
        &&& self.waiting@.len() <= self.concurrency_limit
        &&& self.in_flight@.len() <= self.concurrency_limit
        &&& forall|i: int, j: int|
            0 <= i < j < self.waiting@.len() ==> (#[trigger] self.waiting@[i]).ticket < (
            #[trigger] self.waiting@[j]).ticket
        &&& forall|i: int, j: int|
            0 <= i < j < self.in_flight@.len() ==> #[trigger] self.in_flight@[i]
                != #[trigger] self.in_flight@[j]
        &&& forall|i: int|
            0 <= i < self.waiting@.len() ==> (#[trigger] self.waiting@[i]).ticket
                < self.next_ticket
        &&& forall|i: int|
            0 <= i < self.in_flight@.len() ==> #[trigger] self.in_flight@[i] < self.next_ticket
        &&& forall|t: u64| #[trigger] self.finished@.contains(t) ==> t < self.next_ticket
        &&& forall|i: int, j: int|
            0 <= i < self.waiting@.len() && 0 <= j < self.in_flight@.len() ==> (
            #[trigger] self.waiting@[i]).ticket > #[trigger] self.in_flight@[j]
        &&& forall|i: int, t: u64|
            0 <= i < self.waiting@.len() && #[trigger] self.finished@.contains(t) ==> (
            #[trigger] self.waiting@[i]).ticket > t
        &&& forall|j: int|
            0 <= j < self.in_flight@.len() ==> !self.finished@.contains(
                #[trigger] self.in_flight@[j],
            )
        &&& forall|t: u64|
            t < self.next_ticket ==> #[trigger] self.is_waiting(t) || self.is_in_flight(t)
                || self.finished@.contains(t)
    }

    /// Whether the item with ticket `t` waits.
    pub open spec fn is_waiting(&self, t: u64) -> bool {
        exists|i: int| 0 <= i < self.waiting@.len() && (#[trigger] self.waiting@[i]).ticket == t
    }

    /// Whether the item with ticket `t` is being processed.
    pub open spec fn is_in_flight(&self, t: u64) -> bool {
        self.in_flight@.contains(t)
    }

    /// Whether the item with ticket `t` is done.
    pub open spec fn is_finished(&self, t: u64) -> bool {
        self.finished@.contains(t)
    }

    /// The number of items between submission and completion.
    pub open spec fn resident(&self) -> nat {
        self.waiting@.len() + self.in_flight@.len()
    }

    /// Create a new work queue with the given concurrency limit.
    pub fn new(concurrency_limit: usize) -> (r: Result<Self, WorkQueueError>)
        ensures
            concurrency_limit == 0 <==> r is Err,
            r is Ok ==> {
                let q = r->Ok_0;
                &&& q.wf()
                &&& q.concurrency_limit == concurrency_limit
                &&& q.waiting@.len() == 0
                &&& q.in_flight@.len() == 0
                &&& q.next_ticket == 0
                &&& q.finished@ == Set::<u64>::empty()
            },
    {
        if concurrency_limit == 0 {
            return Err(WorkQueueError::ZeroConcurrency);
        }
        let q = WorkQueue {
            concurrency_limit,
            waiting: Vec::new(),
            in_flight: Vec::new(),
            next_ticket: 0,
            finished: Ghost(Set::empty()),
        };
        Ok(q)
    }

    /// Whether `submit` would take an input now.
    pub open spec fn has_room(&self) -> bool {
        self.waiting@.len() < self.concurrency_limit && self.next_ticket < u64::MAX
    }

    /// Whether `submit` would take an input now.
    pub fn has_room_now(&self) -> (b: bool)
        ensures
            b == self.has_room(),
    {
        self.waiting.len() < self.concurrency_limit && self.next_ticket < u64::MAX
    }

    /// Submit an input. Where the queue has room, the input waits under a new
    /// ticket, which is returned. Where it has none, the book stays as it is
    /// and the input is handed back: the producer has to wait for a completion.
    pub fn submit(&mut self, input: WorkInput<InputData>) -> (r: Result<u64, WorkInput<InputData>>)
        requires
            old(self).wf(),
        ensures
            final(self).wf(),
            final(self).concurrency_limit == old(self).concurrency_limit,
            final(self).in_flight@ == old(self).in_flight@,
            final(self).finished@ == old(self).finished@,
            old(self).has_room() ==> r == Ok::<u64, WorkInput<InputData>>(old(self).next_ticket)
                && final(self).next_ticket == old(self).next_ticket + 1 && final(self).waiting@
                == old(self).waiting@.push(WorkItem { ticket: old(self).next_ticket, input }),
            !old(self).has_room() ==> r == Err::<u64, WorkInput<InputData>>(input) && final(self).next_ticket == old(self).next_ticket && final(self).waiting@ == old(self).waiting@,
    {
        if self.waiting.len() < self.concurrency_limit && self.next_ticket < u64::MAX {
            let ticket = self.next_ticket;
            self.waiting.push(WorkItem { ticket, input });
            self.next_ticket = ticket + 1;
            proof {
                let old_q = *old(self);
                let new_q = *self;
                assert forall|t: u64| t < new_q.next_ticket implies #[trigger] new_q.is_waiting(t)
                    || new_q.is_in_flight(t) || new_q.finished@.contains(t) by {
                    if t == ticket {
                        assert(new_q.waiting@[new_q.waiting@.len() - 1].ticket == t);
                    } else if old_q.is_waiting(t) {
                        let i = choose|i: int|
                            0 <= i < old_q.waiting@.len() && (#[trigger] old_q.waiting@[i]).ticket
                                == t;
                        assert(new_q.waiting@[i].ticket == t);
                    }
                }
            }
            Ok(ticket)
        } else {
            Err(input)
        }
    }

    /// Whether `start_next` would hand out an item now.
    pub open spec fn can_start(&self) -> bool {
        self.waiting@.len() > 0 && self.in_flight@.len() < self.concurrency_limit
    }

    /// Whether `start_next` would hand out an item now.
    pub fn can_start_now(&self) -> (b: bool)
        ensures
            b == self.can_start(),
    {
        self.waiting.len() > 0 && self.in_flight.len() < self.concurrency_limit
    }

    /// Take the oldest waiting item for processing, where one waits and fewer
    /// than `concurrency_limit` items are in flight.
    pub fn start_next(&mut self) -> (r: Option<WorkItem<InputData>>)
        requires
            old(self).wf(),
        ensures
            final(self).wf(),
            final(self).concurrency_limit == old(self).concurrency_limit,
            final(self).next_ticket == old(self).next_ticket,
            final(self).finished@ == old(self).finished@,
            old(self).can_start() ==> r == Some(old(self).waiting@[0]) && final(self).waiting@
                == old(self).waiting@.skip(1) && final(self).in_flight@ == old(self).in_flight@.push(old(self).waiting@[0].ticket),
            !old(self).can_start() ==> r.is_none() && final(self).waiting@ == old(self).waiting@
                && final(self).in_flight@ == old(self).in_flight@,
    {
        if self.waiting.len() > 0 && self.in_flight.len() < self.concurrency_limit {
            let item = self.waiting.remove(0);
            self.in_flight.push(item.ticket);
            proof {
                let old_q = *old(self);
                let new_q = *self;
                assert(new_q.waiting@ =~= old_q.waiting@.skip(1));
                assert forall|i: int| 0 <= i < new_q.waiting@.len() implies new_q.waiting@[i]
                    == old_q.waiting@[i + 1] by {}
                assert forall|t: u64| t < new_q.next_ticket implies #[trigger] new_q.is_waiting(t)
                    || new_q.is_in_flight(t) || new_q.finished@.contains(t) by {
                    if old_q.is_waiting(t) {
                        let i = choose|i: int|
                            0 <= i < old_q.waiting@.len() && (#[trigger] old_q.waiting@[i]).ticket
                                == t;
                        if i == 0 {
                            assert(new_q.in_flight@[new_q.in_flight@.len() - 1] == t);
                        } else {
                            assert(new_q.waiting@[i - 1].ticket == t);
                        }
                    } else if old_q.is_in_flight(t) {
                        let j = choose|j: int|
                            0 <= j < old_q.in_flight@.len() && old_q.in_flight@[j] == t;
                        assert(new_q.in_flight@[j] == t);
                    }
                }
                assert forall|i: int, j: int|
                    0 <= i < new_q.waiting@.len() && 0 <= j < new_q.in_flight@.len() implies (
                #[trigger] new_q.waiting@[i]).ticket > #[trigger] new_q.in_flight@[j] by {
                    assert(new_q.waiting@[i] == old_q.waiting@[i + 1]);
                    if j == old_q.in_flight@.len() {
                        assert(old_q.waiting@[0].ticket < old_q.waiting@[i + 1].ticket);
                    } else {
                        assert(new_q.in_flight@[j] == old_q.in_flight@[j]);
                    }
                }
                assert forall|i: int, j: int| 0 <= i < j < new_q.in_flight@.len() implies
                    #[trigger] new_q.in_flight@[i] != #[trigger] new_q.in_flight@[j] by {
                    if j == old_q.in_flight@.len() {
                        assert(old_q.waiting@[0].ticket > old_q.in_flight@[i]);
                    }
                }
                assert forall|j: int| 0 <= j < new_q.in_flight@.len() implies
                    !new_q.finished@.contains(#[trigger] new_q.in_flight@[j]) by {
                    if j == old_q.in_flight@.len() {
                        if old_q.finished@.contains(item.ticket) {
                            assert(old_q.waiting@[0].ticket > item.ticket);
                        }
                    } else {
                        assert(new_q.in_flight@[j] == old_q.in_flight@[j]);
                    }
                }
            }
            Some(item)
        } else {
            None
        }
    }

    /// Record that the item with ticket `ticket` is done. Returns whether the
    /// item was in flight; where it was not, the book stays as it is.
    pub fn complete(&mut self, ticket: u64) -> (was_in_flight: bool)
        requires
            old(self).wf(),
        ensures
            final(self).wf(),
            final(self).concurrency_limit == old(self).concurrency_limit,
            final(self).next_ticket == old(self).next_ticket,
            final(self).waiting@ == old(self).waiting@,
            was_in_flight == old(self).is_in_flight(ticket),
            was_in_flight ==> final(self).finished@ == old(self).finished@.insert(ticket)
                && !final(self).is_in_flight(ticket) && final(self).in_flight@.len() == old(self).in_flight@.len() - 1 && (forall|t: u64|
                t != ticket ==> final(self).is_in_flight(t) == old(self).is_in_flight(t)),
            !was_in_flight ==> final(self).finished@ == old(self).finished@ && final(self).in_flight@ == old(self).in_flight@,
    {
        let mut k: usize = 0;
        while k < self.in_flight.len() && self.in_flight[k] != ticket
            invariant
                *self == *old(self),
                k <= self.in_flight@.len(),
                forall|j: int| 0 <= j < k ==> self.in_flight@[j] != ticket,
            decreases self.in_flight.len() - k,
        {
            k += 1;
        }
        if k == self.in_flight.len() {
            assert(!self.in_flight@.contains(ticket));
            return false;
        }
        assert(self.in_flight@[k as int] == ticket);
        let removed = self.in_flight.remove(k);
        proof {
            self.finished@ = self.finished@.insert(ticket);
            let old_q = *old(self);
            let new_q = *self;
            assert(old_q.in_flight@.contains(ticket));
            assert forall|j: int| 0 <= j < new_q.in_flight@.len() implies new_q.in_flight@[j] == (
            if j < k {
                old_q.in_flight@[j]
            } else {
                old_q.in_flight@[j + 1]
            }) by {}
            assert forall|j: int| 0 <= j < new_q.in_flight@.len() implies #[trigger] new_q.in_flight@[j]
                != ticket by {
                if j < k {
                    assert(old_q.in_flight@[j] != old_q.in_flight@[k as int]);
                } else {
                    assert(old_q.in_flight@[k as int] != old_q.in_flight@[j + 1]);
                }
            }
            assert forall|t: u64| t != ticket implies new_q.is_in_flight(t) == old_q.is_in_flight(
                t,
            ) by {
                if old_q.is_in_flight(t) {
                    let j = choose|j: int|
                        0 <= j < old_q.in_flight@.len() && old_q.in_flight@[j] == t;
                    if j < k {
                        assert(new_q.in_flight@[j] == t);
                    } else {
                        assert(new_q.in_flight@[j - 1] == t);
                    }
                }
                if new_q.is_in_flight(t) {
                    let j = choose|j: int|
                        0 <= j < new_q.in_flight@.len() && new_q.in_flight@[j] == t;
                    if j < k {
                        assert(old_q.in_flight@[j] == t);
                    } else {
                        assert(old_q.in_flight@[j + 1] == t);
                    }
                }
            }
            assert forall|i: int, j: int| 0 <= i < j < new_q.in_flight@.len() implies
                #[trigger] new_q.in_flight@[i] != #[trigger] new_q.in_flight@[j] by {
                let a = if i < k { i } else { i + 1 };
                let b = if j < k { j } else { j + 1 };
                assert(old_q.in_flight@[a] != old_q.in_flight@[b]);
            }
            assert forall|i: int, j: int|
                0 <= i < new_q.waiting@.len() && 0 <= j < new_q.in_flight@.len() implies (
            #[trigger] new_q.waiting@[i]).ticket > #[trigger] new_q.in_flight@[j] by {
                let b = if j < k { j } else { j + 1 };
                assert(old_q.waiting@[i].ticket > old_q.in_flight@[b]);
            }
            assert forall|i: int, t: u64|
                0 <= i < new_q.waiting@.len() && #[trigger] new_q.finished@.contains(t) implies (
            #[trigger] new_q.waiting@[i]).ticket > t by {
                if t == ticket {
                    assert(old_q.waiting@[i].ticket > old_q.in_flight@[k as int]);
                }
            }
            assert forall|j: int| 0 <= j < new_q.in_flight@.len() implies
                !new_q.finished@.contains(#[trigger] new_q.in_flight@[j]) by {
                let b = if j < k { j } else { j + 1 };
                assert(!old_q.finished@.contains(old_q.in_flight@[b]));
            }
            assert forall|j: int| 0 <= j < new_q.in_flight@.len() implies
                #[trigger] new_q.in_flight@[j] < new_q.next_ticket by {
                let b = if j < k { j } else { j + 1 };
                assert(old_q.in_flight@[b] < old_q.next_ticket);
            }
            assert forall|t: u64| #[trigger] new_q.finished@.contains(t) implies t
                < new_q.next_ticket by {
                if t == ticket {
                    assert(old_q.in_flight@[k as int] < old_q.next_ticket);
                }
            }
            assert forall|t: u64| t < new_q.next_ticket implies #[trigger] new_q.is_waiting(t)
                || new_q.is_in_flight(t) || new_q.finished@.contains(t) by {
                if old_q.is_waiting(t) {
                    let i = choose|i: int|
                        0 <= i < old_q.waiting@.len() && (#[trigger] old_q.waiting@[i]).ticket == t;
                    assert(new_q.waiting@[i].ticket == t);
                }
            }
        }
        true
    }

    /// The number of items that wait.
    pub fn waiting_count(&self) -> (n: usize)
        ensures
            n == self.waiting@.len(),
    {
        self.waiting.len()
    }

    /// The number of items in flight.
    pub fn in_flight_count(&self) -> (n: usize)
        ensures
            n == self.in_flight@.len(),
    {
        self.in_flight.len()
    }
}

/// Backpressure: in every state of the book no more than `concurrency_limit`
/// items are in flight, and no more than twice that many are resident
/// between submission and completion.
pub proof fn lemma_backpressure<InputData>(queue: WorkQueue<InputData>)
    requires
        queue.wf(),
    ensures
        queue.in_flight@.len() <= queue.concurrency_limit,
        queue.waiting@.len() <= queue.concurrency_limit,
        queue.resident() <= 2 * queue.concurrency_limit,
{
}

/// Identity: in every state of the book each ticket handed out so far is in
/// exactly one of three places: it waits, it is in flight, or it is done. No
/// submission is dropped and none is counted twice.
pub proof fn lemma_identity<InputData>(queue: WorkQueue<InputData>, ticket: u64)
    requires
        queue.wf(),
    ensures
        ticket < queue.next_ticket <==> (queue.is_waiting(ticket) || queue.is_in_flight(ticket)
            || queue.is_finished(ticket)),
        !(queue.is_waiting(ticket) && queue.is_in_flight(ticket)),
        !(queue.is_waiting(ticket) && queue.is_finished(ticket)),
        !(queue.is_in_flight(ticket) && queue.is_finished(ticket)),
{
    if queue.is_waiting(ticket) {
        let i = choose|i: int|
            0 <= i < queue.waiting@.len() && (#[trigger] queue.waiting@[i]).ticket == ticket;
        if queue.is_in_flight(ticket) {
            let j = choose|j: int| 0 <= j < queue.in_flight@.len() && queue.in_flight@[j] == ticket;
            assert(queue.waiting@[i].ticket > queue.in_flight@[j]);
        }
    }
    if queue.is_in_flight(ticket) {
        let j = choose|j: int| 0 <= j < queue.in_flight@.len() && queue.in_flight@[j] == ticket;
        assert(!queue.finished@.contains(queue.in_flight@[j]));
    }
}

/// Identity over a whole run: once nothing waits and nothing is in flight,
/// the tickets that are done are exactly the tickets handed out, each once.
/// So every input that was submitted has been worked on, and none twice.
pub proof fn lemma_drained<InputData>(queue: WorkQueue<InputData>, ticket: u64)
    requires
        queue.wf(),
        queue.waiting@.len() == 0,
        queue.in_flight@.len() == 0,
    ensures
        queue.is_finished(ticket) <==> ticket < queue.next_ticket,
{
    lemma_identity(queue, ticket);
}

} // verus!

verus! {

/// Puts the outputs of a run into the order in which they are written.
///
/// Outputs arrive in the order of completion, each under the ticket of its
/// input. Where reordering is allowed they are released as they arrive.
/// Otherwise an output is held back until the outputs of all earlier tickets
/// have been released, so that the outputs leave in the order of the inputs.
pub struct OutputSequencer<Output> {
    /// Whether outputs may leave in the order of completion.
    pub allow_reordering: bool,
    /// The ticket of the next output to release in order.
    pub next_ticket: u64,
    /// The outputs that wait for an earlier one, under their tickets.
    pub held: Vec<(u64, Output)>,
}

/// What has become of an output handed to a sequencer.
pub enum Sequenced<Output> {
    /// The outputs to write now, in this order, each under its ticket.
    Released { outputs: Vec<(u64, Output)> },
    /// The ticket was released before, is held already, or cannot be a
    /// ticket: the output is handed back.
    Rejected { output: Output },
}

impl<Output> OutputSequencer<Output> {
    /// The invariant of a sequencer: every output held is still to come, and
    /// no ticket is held twice.
    pub open spec fn wf(&self) -> bool {
        &&& forall|i: int|
            0 <= i < self.held@.len() ==> self.next_ticket < (#[trigger] self.held@[i]).0
                < u64::MAX
        &&& forall|i: int, j: int|
            0 <= i < j < self.held@.len() ==> (#[trigger] self.held@[i]).0 != (
            #[trigger] self.held@[j]).0
        &&& self.allow_reordering ==> self.held@.len() == 0
    }

    /// Whether an output is held under `ticket`.
    pub open spec fn holds(&self, ticket: u64) -> bool {
        exists|i: int| 0 <= i < self.held@.len() && (#[trigger] self.held@[i]).0 == ticket
    }

    /// A sequencer before any output.
    pub fn new(allow_reordering: bool) -> (s: Self)
        ensures
            s.wf(),
            s.allow_reordering == allow_reordering,
            s.next_ticket == 0,
            s.held@.len() == 0,
    {
        OutputSequencer { allow_reordering, next_ticket: 0, held: Vec::new() }
    }

    /// The number of outputs that are held back.
    pub fn held_count(&self) -> (n: usize)
        ensures
            n == self.held@.len(),
    {
        self.held.len()
    }

    /// Whether the work of `ticket` lies within the next `window` tickets to
    /// release. Where outputs may leave in the order of completion, nothing
    /// is held back and every ticket does.
    pub open spec fn within_window(&self, ticket: u64, window: usize) -> bool {
        self.allow_reordering || ticket < self.next_ticket + window
    }

    /// Whether the work of `ticket` may start now, where no more than
    /// `window` outputs are to be in the works at a time: it may where it
    /// lies within the next `window` tickets to release. While work starts
    /// under this rule only, fewer than `window` outputs are ever held back:
    /// see `lemma_held_bound`.
    pub fn may_start(&self, ticket: u64, window: usize) -> (b: bool)
        ensures
            b == self.within_window(ticket, window),
    {
        self.allow_reordering || ticket < self.next_ticket || ticket - self.next_ticket
            < window as u64
    }

    /// Whether `accept` takes an output under `ticket`.
    pub open spec fn accepts(&self, ticket: u64) -> bool {
        self.allow_reordering || (self.next_ticket <= ticket < u64::MAX && !self.holds(ticket))
    }

    fn find_held(&self, ticket: u64) -> (k: usize)
        ensures
            k <= self.held@.len(),
            k < self.held@.len() ==> self.held@[k as int].0 == ticket,
            k == self.held@.len() ==> !self.holds(ticket),
    {
        let mut k: usize = 0;
        while k < self.held.len() && self.held[k].0 != ticket
            invariant
                k <= self.held@.len(),
                forall|i: int| 0 <= i < k ==> (#[trigger] self.held@[i]).0 != ticket,
            decreases self.held.len() - k,
        {
            k += 1;
        }
        k
    }

    /// Take the output of the input with ticket `ticket` and release what can
    /// be written now.
    ///
    /// Where reordering is allowed, the output is released at once. Otherwise
    /// the outputs released are those of the tickets `next_ticket`,
    /// `next_ticket + 1` and so on, as far as they have arrived, in this
    /// order; `next_ticket` moves past them.
    pub fn accept(&mut self, ticket: u64, output: Output) -> (r: Sequenced<Output>)
        requires
            old(self).wf(),
        ensures
            final(self).wf(),
            final(self).allow_reordering == old(self).allow_reordering,
            !old(self).accepts(ticket) ==> r == (Sequenced::Rejected { output }) && *final(self)
                == *old(self),
            old(self).accepts(ticket) ==> r is Released,
            old(self).allow_reordering ==> (r matches Sequenced::Released { outputs } ==> outputs@
                == seq![(ticket, output)] && *final(self) == *old(self)),
            !old(self).allow_reordering ==> (r matches Sequenced::Released { outputs } ==> {
                &&& final(self).next_ticket == old(self).next_ticket + outputs@.len()
                &&& forall|i: int|
                    0 <= i < outputs@.len() ==> (#[trigger] outputs@[i]).0 == old(self).next_ticket
                        + i
                &&& forall|i: int|
                    0 <= i < outputs@.len() ==> #[trigger] outputs@[i] == (ticket, output) || old(self).held@.contains(outputs@[i])
                &&& !final(self).holds(final(self).next_ticket)
                &&& forall|i: int|
                    0 <= i < final(self).held@.len() ==> #[trigger] final(self).held@[i] == (
                        ticket,
                        output,
                    ) || old(self).held@.contains(final(self).held@[i])
                &&& forall|t: u64| #[trigger]
                    final(self).holds(t) ==> t == ticket || old(self).holds(t)
                &&& forall|t: u64|
                    t >= final(self).next_ticket && (t == ticket || old(self).holds(t))
                        ==> #[trigger] final(self).holds(t)
            }),
    {
        if self.allow_reordering {
            let mut outputs: Vec<(u64, Output)> = Vec::new();
            outputs.push((ticket, output));
            return Sequenced::Released { outputs };
        }
        if ticket < self.next_ticket || ticket == u64::MAX {
            return Sequenced::Rejected { output };
        }
        let at = self.find_held(ticket);
        if at < self.held.len() {
            assert(self.holds(ticket));
            return Sequenced::Rejected { output };
        }
        let mut outputs: Vec<(u64, Output)> = Vec::new();
        if ticket == self.next_ticket {
            outputs.push((ticket, output));
            self.next_ticket = self.next_ticket + 1;
        } else {
            self.held.push((ticket, output));
            proof {
                let s = *self;
                assert forall|t: u64|
                    t >= s.next_ticket && (t == ticket || old(self).holds(t)) implies #[trigger] s.holds(
                    t,
                ) by {
                    if t == ticket {
                        assert(s.held@[s.held@.len() - 1].0 == t);
                    } else {
                        let i = choose|i: int|
                            0 <= i < old(self).held@.len() && (#[trigger] old(self).held@[i]).0 == t;
                        assert(s.held@[i].0 == t);
                    }
                }
            }
            return Sequenced::Released { outputs };
        }
        proof {
            let s = *self;
            assert forall|t: u64|
                t >= s.next_ticket && (t == ticket || old(self).holds(t)) implies #[trigger] s.holds(
                t,
            ) by {
                let i = choose|i: int|
                    0 <= i < old(self).held@.len() && (#[trigger] old(self).held@[i]).0 == t;
                assert(s.held@[i].0 == t);
            }
        }
        loop
            invariant
                !self.allow_reordering,
                self.allow_reordering == old(self).allow_reordering,
                ticket == old(self).next_ticket,
                ticket < u64::MAX,
                old(self).wf(),
                self.next_ticket == old(self).next_ticket + outputs@.len(),
                outputs@.len() >= 1,
                self.held@.len() + outputs@.len() == old(self).held@.len() + 1,
                forall|i: int|
                    0 <= i < self.held@.len() ==> self.next_ticket <= (#[trigger] self.held@[i]).0
                        < u64::MAX,
                forall|i: int, j: int|
                    0 <= i < j < self.held@.len() ==> (#[trigger] self.held@[i]).0 != (
                    #[trigger] self.held@[j]).0,
                forall|i: int|
                    0 <= i < outputs@.len() ==> (#[trigger] outputs@[i]).0 == old(self).next_ticket
                        + i,
                forall|i: int|
                    0 <= i < outputs@.len() ==> #[trigger] outputs@[i] == (ticket, output) || old(self).held@.contains(outputs@[i]),
                forall|i: int|
                    0 <= i < self.held@.len() ==> old(self).held@.contains(
                        #[trigger] self.held@[i],
                    ),
                forall|t: u64|
                    t >= self.next_ticket && (t == ticket || old(self).holds(t))
                        ==> #[trigger] self.holds(t),
            ensures
                self.wf(),
                !self.holds(self.next_ticket),
            decreases self.held@.len(),
        {
            if self.next_ticket == u64::MAX {
                proof {
                    if self.held@.len() > 0 {
                        assert(self.held@[0].0 < u64::MAX);
                    }
                    assert(!self.holds(self.next_ticket));
                }
                break;
            }
            let k = self.find_held(self.next_ticket);
            if k == self.held.len() {
                assert forall|i: int| 0 <= i < self.held@.len() implies (
                #[trigger] self.held@[i]).0 > self.next_ticket by {
                    if self.held@[i].0 == self.next_ticket {
                        assert(self.holds(self.next_ticket));
                    }
                }
                break;
            }
            let ghost held_before = self.held@;
            let ghost next_before = self.next_ticket;
            let ghost pre = *self;
            let entry = self.held.remove(k);
            outputs.push(entry);
            self.next_ticket = self.next_ticket + 1;
            proof {
                let s = *self;
                assert forall|i: int| 0 <= i < s.held@.len() implies s.held@[i] == (if i < k {
                    held_before[i]
                } else {
                    held_before[i + 1]
                }) by {}
                assert forall|i: int| 0 <= i < s.held@.len() implies s.next_ticket <= (
                #[trigger] s.held@[i]).0 < u64::MAX by {
                    let b = if i < k { i } else { i + 1 };
                    assert(held_before[b].0 >= next_before);
                    if b < k {
                        assert(held_before[b].0 != held_before[k as int].0);
                    } else {
                        assert(held_before[k as int].0 != held_before[b].0);
                    }
                }
                assert forall|i: int, j: int| 0 <= i < j < s.held@.len() implies (
                #[trigger] s.held@[i]).0 != (#[trigger] s.held@[j]).0 by {
                    let a = if i < k { i } else { i + 1 };
                    let b = if j < k { j } else { j + 1 };
                    assert(held_before[a].0 != held_before[b].0);
                }
                assert forall|i: int| 0 <= i < s.held@.len() implies old(self).held@.contains(
                    #[trigger] s.held@[i],
                ) by {
                    let b = if i < k { i } else { i + 1 };
                    assert(old(self).held@.contains(held_before[b]));
                }
                assert(old(self).held@.contains(held_before[k as int]));
                assert forall|t: u64|
                    t >= s.next_ticket && (t == ticket || old(self).holds(t)) implies #[trigger] s.holds(
                    t,
                ) by {
                    assert(pre.holds(t));
                    let i = choose|i: int|
                        0 <= i < held_before.len() && (#[trigger] held_before[i]).0 == t;
                    if i < k {
                        assert(s.held@[i].0 == t);
                    } else {
                        assert(i > k);
                        assert(s.held@[i - 1].0 == t);
                    }
                }
            }
        }
        proof {
            let s = *self;
            assert forall|t: u64| #[trigger] s.holds(t) implies t == ticket || old(self).holds(t) by {
                let i = choose|i: int| 0 <= i < s.held@.len() && (#[trigger] s.held@[i]).0 == t;
                let e = s.held@[i];
                assert(old(self).held@.contains(e));
                let k = choose|k: int| 0 <= k < old(self).held@.len() && old(self).held@[k] == e;
                assert(old(self).held@[k].0 == t);
            }
        }
        Sequenced::Released { outputs }
    }
}

/// A bound on what is held back. Where every output that is held lies within
/// the next `window` tickets to release, fewer than `window` outputs are
/// held: the next ticket itself is never held, and no ticket is held twice.
pub proof fn lemma_held_bound<Output>(sequencer: OutputSequencer<Output>, window: usize)
    requires
        sequencer.wf(),
        forall|i: int|
            0 <= i < sequencer.held@.len() ==> sequencer.within_window(
                (#[trigger] sequencer.held@[i]).0,
                window,
            ),
    ensures
        sequencer.held@.len() == 0 || sequencer.held@.len() < window,
{
    let held = sequencer.held@;
    if held.len() > 0 {
        let next = sequencer.next_ticket as int;
        let tickets = Seq::new(held.len(), |i: int| held[i].0 as int);
        assert forall|i: int, j: int| 0 <= i < tickets.len() && 0 <= j < tickets.len() && i
            != j implies tickets[i] != tickets[j] by {
            if i < j {
                assert(held[i].0 != held[j].0);
            } else {
                assert(held[j].0 != held[i].0);
            }
        }
        tickets.unique_seq_to_set();
        let range = vstd::set_lib::set_int_range(next + 1, next + window);
        assert(sequencer.within_window(held[0].0, window));
        assert(next < held[0].0);
        vstd::set_lib::lemma_int_range(next + 1, next + window);
        assert forall|t: int| tickets.to_set().contains(t) implies range.contains(t) by {
            let i = choose|i: int| 0 <= i < tickets.len() && tickets[i] == t;
            assert(sequencer.within_window(held[i].0, window));
            assert(next < held[i].0);
        }
        vstd::set_lib::lemma_len_subset(tickets.to_set(), range);
    }
}

/// The tickets `from`, `from + 1` and so on up to `to - 1`.
pub open spec fn ticket_range(from: int, to: int) -> Seq<int>
    decreases to - from,
{
    if to <= from {
        Seq::empty()
    } else {
        ticket_range(from, to - 1).push(to - 1)
    }
}

/// The sequences of `parts` one after the other.
pub open spec fn concat_all(parts: Seq<Seq<int>>) -> Seq<int>
    decreases parts.len(),
{
    if parts.len() == 0 {
        Seq::empty()
    } else {
        concat_all(parts.drop_last()) + parts.last()
    }
}

/// Two ranges of tickets that meet are one range.
pub proof fn lemma_ticket_ranges_meet(from: int, middle: int, to: int)
    requires
        from <= middle <= to,
    ensures
        ticket_range(from, middle) + ticket_range(middle, to) == ticket_range(from, to),
    decreases to - middle,
{
    if middle == to {
        assert(ticket_range(from, middle) + Seq::<int>::empty() =~= ticket_range(from, middle));
    } else {
        lemma_ticket_ranges_meet(from, middle, to - 1);
        assert(ticket_range(from, middle) + ticket_range(middle, to - 1).push(to - 1) =~= (
        ticket_range(from, middle) + ticket_range(middle, to - 1)).push(to - 1));
    }
}

/// Order. A sequencer that does not allow reordering releases, in each step,
/// the outputs of the tickets from its `next_ticket` before the step up to
/// its `next_ticket` after it. So over any number of steps, where `starts`
/// holds the `next_ticket` before each step and after the last one, the
/// tickets of all outputs released, in the order of their release, are the
/// tickets from the first `next_ticket` on, one after the other. Since
/// tickets count the inputs as they are submitted, the outputs leave in the
/// order of the inputs.
pub proof fn lemma_ordered_release(starts: Seq<int>, releases: Seq<Seq<int>>)
    requires
        starts.len() == releases.len() + 1,
        forall|k: int| 0 <= k < releases.len() ==> #[trigger] starts[k] <= starts[k + 1],
        forall|k: int|
            0 <= k < releases.len() ==> #[trigger] releases[k] == ticket_range(
                starts[k],
                starts[k + 1],
            ),
    ensures
        concat_all(releases) == ticket_range(starts[0], starts.last()),
        starts[0] <= starts.last(),
    decreases releases.len(),
{
    if releases.len() > 0 {
        let n = releases.len() - 1;
        let earlier = releases.drop_last();
        let earlier_starts = starts.drop_last();
        assert forall|k: int| 0 <= k < earlier.len() implies #[trigger] earlier_starts[k]
            <= earlier_starts[k + 1] by {
            assert(starts[k] <= starts[k + 1]);
        }
        assert forall|k: int| 0 <= k < earlier.len() implies #[trigger] earlier[k] == ticket_range(
            earlier_starts[k],
            earlier_starts[k + 1],
        ) by {
            assert(releases[k] == ticket_range(starts[k], starts[k + 1]));
        }
        lemma_ordered_release(earlier_starts, earlier);
        assert(starts[n] <= starts[n + 1]);
        assert(releases[n] == ticket_range(starts[n], starts[n + 1]));
        assert(earlier_starts.last() == starts[n]);
        lemma_ticket_ranges_meet(starts[0], starts[n], starts[n + 1]);
    }
}

} // verus!

verus! {

/// Whether one of `arrivals` came under `ticket`.
pub open spec fn has_ticket<Output>(arrivals: Seq<(u64, Output)>, ticket: int) -> bool {
    exists|j: int| 0 <= j < arrivals.len() && (#[trigger] arrivals[j]).0 == ticket
}

/// Whether `arrivals` are the outputs of a whole run, in any order: one
/// output under each of the tickets `0`, `1` and so on, as many as there are
/// outputs.
pub open spec fn one_per_ticket<Output>(arrivals: Seq<(u64, Output)>) -> bool {
    &&& forall|j: int| 0 <= j < arrivals.len() ==> (#[trigger] arrivals[j]).0 < arrivals.len()
    &&& forall|i: int, j: int|
        0 <= i < j < arrivals.len() ==> (#[trigger] arrivals[i]).0 != (#[trigger] arrivals[j]).0
    &&& forall|t: int| 0 <= t < arrivals.len() ==> #[trigger] has_ticket(arrivals, t)
}

/// Put the outputs of a run, given in the order of their completion, into
/// the order of their inputs.
///
/// What is released is always the outputs of the tickets `0`, `1` and so on,
/// one after the other, each an output that arrived. Where one output arrived
/// under each ticket, every output is released, at the place of its ticket:
/// none is lost, none stands twice, and the order is that of the inputs.
pub fn release_in_order<Output>(arrivals: Vec<(u64, Output)>) -> (released: Vec<(u64, Output)>)
    ensures
        forall|i: int|
            0 <= i < released@.len() ==> (#[trigger] released@[i]).0 == i && arrivals@.contains(
                released@[i],
            ),
        one_per_ticket(arrivals@) ==> released@.len() == arrivals@.len() && forall|j: int|
            0 <= j < arrivals@.len() ==> released@[(#[trigger] arrivals@[j]).0 as int]
                == arrivals@[j],
{
    let ghost all = arrivals@;
    let total = arrivals.len();
    let mut sequencer: OutputSequencer<Output> = OutputSequencer::new(false);
    let mut released: Vec<(u64, Output)> = Vec::new();
    for arrival in it: arrivals
        invariant
            it.seq() == all,
            all.len() == total,
            sequencer.wf(),
            !sequencer.allow_reordering,
            !sequencer.holds(sequencer.next_ticket),
            released@.len() == sequencer.next_ticket,
            forall|i: int|
                0 <= i < released@.len() ==> (#[trigger] released@[i]).0 == i && exists|j: int|
                    0 <= j < it.index() && all[j] == released@[i],
            forall|i: int|
                0 <= i < sequencer.held@.len() ==> exists|j: int|
                    0 <= j < it.index() && all[j] == #[trigger] sequencer.held@[i],
            one_per_ticket(all) ==> forall|j: int|
                0 <= j < it.index() ==> (#[trigger] all[j]).0 < sequencer.next_ticket
                    || sequencer.holds(all[j].0),
    {
        let ghost k = it.index() as int;
        let ghost before = sequencer;
        let ghost released_before = released@;
        let (ticket, output) = arrival;
        proof {
            if one_per_ticket(all) {
                if ticket < before.next_ticket {
                    let j = choose|j: int| 0 <= j < k && all[j] == released_before[ticket as int];
                    assert(all[j].0 == all[k].0);
                }
                if before.holds(ticket) {
                    let i = choose|i: int|
                        0 <= i < before.held@.len() && (#[trigger] before.held@[i]).0 == ticket;
                    let j = choose|j: int| 0 <= j < k && all[j] == before.held@[i];
                    assert(all[j].0 == all[k].0);
                }
                assert(all[k].0 < all.len());
                assert(before.accepts(ticket));
            }
        }
        match sequencer.accept(ticket, output) {
            Sequenced::Released { outputs } => {
                let mut outputs = outputs;
                let ghost batch = outputs@;
                released.append(&mut outputs);
                proof {
                    assert forall|i: int| 0 <= i < released@.len() implies (
                    #[trigger] released@[i]).0 == i && exists|j: int|
                        0 <= j < k + 1 && all[j] == released@[i] by {
                        if i < released_before.len() {
                            let j = choose|j: int| 0 <= j < k && all[j] == released_before[i];
                            assert(all[j] == released@[i]);
                        } else {
                            let e = batch[i - released_before.len()];
                            assert(released@[i] == e);
                            if e == (ticket, output) {
                                assert(all[k] == released@[i]);
                            } else {
                                assert(before.held@.contains(e));
                                let h = choose|h: int|
                                    0 <= h < before.held@.len() && before.held@[h] == e;
                                let j = choose|j: int| 0 <= j < k && all[j] == before.held@[h];
                                assert(all[j] == released@[i]);
                            }
                        }
                    }
                    assert forall|i: int| 0 <= i < sequencer.held@.len() implies exists|j: int|
                        0 <= j < k + 1 && all[j] == #[trigger] sequencer.held@[i] by {
                        let e = sequencer.held@[i];
                        if e == (ticket, output) {
                            assert(all[k] == e);
                        } else {
                            assert(before.held@.contains(e));
                            let h = choose|h: int|
                                0 <= h < before.held@.len() && before.held@[h] == e;
                            let j = choose|j: int| 0 <= j < k && all[j] == before.held@[h];
                            assert(all[j] == e);
                        }
                    }
                    if one_per_ticket(all) {
                        assert forall|j: int| 0 <= j < k + 1 implies (#[trigger] all[j]).0
                            < sequencer.next_ticket || sequencer.holds(all[j].0) by {
                            let t = all[j].0;
                            if t >= sequencer.next_ticket {
                                if j < k {
                                    assert(t < before.next_ticket || before.holds(t));
                                }
                                assert(t == ticket || before.holds(t));
                                assert(sequencer.holds(t));
                            }
                        }
                    }
                }
            },
            Sequenced::Rejected { output } => {
                proof {
                    assert(!before.accepts(ticket));
                    assert(sequencer == before);
                    assert forall|i: int| 0 <= i < released@.len() implies (
                    #[trigger] released@[i]).0 == i && exists|j: int|
                        0 <= j < k + 1 && all[j] == released@[i] by {
                        let j = choose|j: int| 0 <= j < k && all[j] == released_before[i];
                        assert(all[j] == released@[i]);
                    }
                    assert forall|i: int| 0 <= i < sequencer.held@.len() implies exists|j: int|
                        0 <= j < k + 1 && all[j] == #[trigger] sequencer.held@[i] by {
                        let j = choose|j: int| 0 <= j < k && all[j] == before.held@[i];
                        assert(all[j] == sequencer.held@[i]);
                    }
                }
            },
        }
    }
    proof {
        assert forall|i: int| 0 <= i < released@.len() implies (#[trigger] released@[i]).0 == i
            && all.contains(released@[i]) by {
            let j = choose|j: int| 0 <= j < all.len() && all[j] == released@[i];
            assert(all[j] == released@[i]);
        }
        if one_per_ticket(all) {
            let next = sequencer.next_ticket as int;
            if next > 0 {
                let j = choose|j: int| 0 <= j < all.len() && all[j] == released@[next - 1];
                assert(all[j].0 == next - 1);
            }
            if next < all.len() {
                assert(has_ticket(all, next));
                let j = choose|j: int| 0 <= j < all.len() && (#[trigger] all[j]).0 == next;
                assert(all[j].0 < sequencer.next_ticket || sequencer.holds(all[j].0));
            }
            assert(next == all.len());
            assert forall|j: int| 0 <= j < all.len() implies released@[(#[trigger] all[j]).0 as int]
                == all[j] by {
                let t = all[j].0 as int;
                let i = choose|i: int| 0 <= i < all.len() && all[i] == released@[t];
                assert(all[i].0 == all[j].0);
                assert(i == j);
            }
        }
    }
    released
}

} // verus!
