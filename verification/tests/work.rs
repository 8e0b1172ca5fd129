use prompt_scaler::drivers::{Cost, TokenUsage};
use prompt_scaler::json::Json;
use prompt_scaler::queues::work::{
    FailureRate, OutputSequencer, Sequenced, WorkInput, WorkOutput, WorkOutputCounters, WorkQueue,
    WorkQueueError, WorkStatus,
};

fn output(status: WorkStatus, errors: Vec<&str>) -> WorkOutput<()> {
    WorkOutput {
        id: Json::Null,
        status,
        estimated_cost: None,
        token_usage: None,
        errors: errors.into_iter().map(|e| e.to_string()).collect(),
        data: (),
    }
}

fn input(id: &str) -> WorkInput<u32> {
    WorkInput { id: Json::Text(id.to_string()), data: 0 }
}

#[test]
fn status_values_are_exact() {
    assert_eq!(WorkStatus::Okay.as_str(), "ok");
    assert_eq!(WorkStatus::Incomplete.as_str(), "incomplete");
    assert_eq!(WorkStatus::Skipped.as_str(), "skipped");
    assert_eq!(WorkStatus::Failed.as_str(), "failed");
}

#[test]
fn new_failed_has_no_cost_and_no_tokens() {
    let out = WorkOutput::new_failed(Json::Text("x".to_string()), vec!["e".to_string()], 5u8);
    assert_eq!(out.id, Json::Text("x".to_string()));
    assert_eq!(out.status, WorkStatus::Failed);
    assert_eq!(out.estimated_cost, None);
    assert_eq!(out.token_usage, None);
    assert_eq!(out.errors, vec!["e".to_string()]);
    assert_eq!(out.data, 5);
}

#[test]
fn failure_rate_must_be_a_share() {
    assert_eq!(FailureRate::new(1, 5), Some(FailureRate { numerator: 1, denominator: 5 }));
    assert_eq!(FailureRate::new(5, 5), Some(FailureRate { numerator: 5, denominator: 5 }));
    assert_eq!(FailureRate::new(6, 5), None);
    assert_eq!(FailureRate::new(0, 0), None);
}

#[test]
fn failure_guard_compares_shares_exactly() {
    let fifth = FailureRate::new(1, 5).unwrap();
    assert!(!fifth.is_exceeded_by(2, 10));
    assert!(fifth.is_exceeded_by(3, 10));
    assert!(!fifth.is_exceeded_by(0, 0));
    let none = FailureRate::new(0, 1).unwrap();
    assert!(none.is_exceeded_by(1, 1_000_000));
    assert!(!none.is_exceeded_by(0, 1_000_000));
    let all = FailureRate::new(1, 1).unwrap();
    assert!(!all.is_exceeded_by(7, 7));
    // The products do not fit 64 bits.
    let big = FailureRate::new(u64::MAX - 1, u64::MAX).unwrap();
    assert!(big.is_exceeded_by(usize::MAX, usize::MAX));
    assert!(!big.is_exceeded_by(usize::MAX - 1, usize::MAX));
}

#[test]
fn counters_follow_each_output() {
    let mut counters = WorkOutputCounters::default();
    let mut ok = output(WorkStatus::Okay, vec!["retried once", "retried twice"]);
    ok.estimated_cost = Some(Cost { picodollars: 1_500_000 });
    ok.token_usage = Some(TokenUsage { prompt_tokens: 10, completion_tokens: 4 });
    assert!(counters.check_update(&ok));
    counters.update(&ok);
    let failed = output(WorkStatus::Failed, vec!["fatal"]);
    counters.update(&failed);
    counters.update(&output(WorkStatus::Incomplete, vec![]));
    counters.update(&output(WorkStatus::Skipped, vec![]));
    assert_eq!(counters.total_record_count, 4);
    assert_eq!(counters.failure_count, 3);
    assert_eq!(counters.non_fatal_error_count, 2);
    assert_eq!(counters.cost_estimate, Cost { picodollars: 1_500_000 });
    assert_eq!(counters.token_usage, TokenUsage { prompt_tokens: 10, completion_tokens: 4 });
}

#[test]
fn counters_refuse_an_overflow() {
    let mut counters = WorkOutputCounters::default();
    counters.token_usage = TokenUsage { prompt_tokens: u64::MAX, completion_tokens: 0 };
    let mut item = output(WorkStatus::Okay, vec![]);
    item.token_usage = Some(TokenUsage { prompt_tokens: 1, completion_tokens: 0 });
    assert!(!counters.check_update(&item));
    item.token_usage = Some(TokenUsage { prompt_tokens: 0, completion_tokens: 1 });
    assert!(counters.check_update(&item));
    counters.cost_estimate = Cost { picodollars: u64::MAX };
    item.estimated_cost = Some(Cost { picodollars: 1 });
    assert!(!counters.check_update(&item));
}

#[test]
fn three_failures_in_ten_exceed_a_fifth() {
    // 10 inputs of which 3 fail, with 20% allowed.
    let mut counters = WorkOutputCounters::default();
    for i in 0..10 {
        let status = if i < 3 { WorkStatus::Failed } else { WorkStatus::Okay };
        counters.update(&output(status, vec![]));
    }
    let summary = counters.finish(FailureRate::new(1, 5).unwrap());
    assert_eq!(
        summary.failure.as_deref(),
        Some("3/10 (30.00%) of outputs were failures, but only 20.00% were allowed")
    );
    assert_eq!(summary.failures_message, None);
    assert_eq!(summary.non_fatal_errors_message, None);
}

#[test]
fn run_within_the_rate_passes_and_reports() {
    let mut counters = WorkOutputCounters::default();
    counters.update(&output(WorkStatus::Failed, vec!["x"]));
    for _ in 0..9 {
        counters.update(&output(WorkStatus::Okay, vec!["transient"]));
    }
    counters.token_usage = TokenUsage { prompt_tokens: 1200, completion_tokens: 34 };
    counters.cost_estimate = Cost { picodollars: 1_234_567_895_000 };
    let summary = counters.finish(FailureRate::new(1, 10).unwrap());
    assert_eq!(summary.failure, None);
    assert_eq!(
        summary.tokens_message.as_deref(),
        Some("1200 input tokens and 34 output tokens used")
    );
    // 1.234567895 dollars rounds to eight decimals, the tie going to the even digit.
    assert_eq!(summary.cost_message.as_deref(), Some("Estimated cost: US$1.23456790"));
    assert_eq!(
        summary.non_fatal_errors_message.as_deref(),
        Some("9 non-fatal errors encountered")
    );
    assert_eq!(summary.failures_message.as_deref(), Some("1 records could not be processed"));
}

#[test]
fn empty_run_passes_in_silence() {
    let summary = WorkOutputCounters::default().finish(FailureRate::new(0, 1).unwrap());
    assert_eq!(summary.failure, None);
    assert_eq!(summary.tokens_message, None);
    assert_eq!(summary.cost_message, None);
    assert_eq!(summary.non_fatal_errors_message, None);
    assert_eq!(summary.failures_message, None);
}

#[test]
fn percentages_round_to_two_decimals() {
    let mut counters = WorkOutputCounters::default();
    counters.total_record_count = 3;
    counters.failure_count = 1;
    let summary = counters.finish(FailureRate::new(1, 8).unwrap());
    assert_eq!(
        summary.failure.as_deref(),
        Some("1/3 (33.33%) of outputs were failures, but only 12.50% were allowed")
    );
}

#[test]
fn queue_needs_room_for_one_item() {
    assert!(matches!(WorkQueue::<u32>::new(0), Err(WorkQueueError::ZeroConcurrency)));
    assert!(WorkQueue::<u32>::new(1).is_ok());
}

#[test]
fn backpressure_bounds_resident_items() {
    let n = 3usize;
    let m = 20usize;
    let mut queue = WorkQueue::<u32>::new(n).unwrap();
    let mut submitted = 0usize;
    let mut completed: Vec<u64> = Vec::new();
    let mut running: Vec<u64> = Vec::new();
    let mut refused = 0usize;
    while completed.len() < m {
        // The producer pushes as long as the queue takes inputs.
        while submitted < m {
            match queue.submit(input("x")) {
                Ok(ticket) => {
                    assert_eq!(ticket, submitted as u64);
                    submitted += 1;
                }
                Err(_) => {
                    refused += 1;
                    break;
                }
            }
        }
        while let Some(item) = queue.start_next() {
            running.push(item.ticket);
        }
        assert!(queue.in_flight_count() <= n);
        assert!(queue.waiting_count() <= n);
        assert!(queue.in_flight_count() + queue.waiting_count() <= 2 * n);
        // The newest item in flight completes first.
        let ticket = running.pop().unwrap();
        assert!(queue.complete(ticket));
        assert!(!queue.complete(ticket));
        completed.push(ticket);
    }
    assert!(refused > 0);
    completed.sort();
    assert_eq!(completed, (0..m as u64).collect::<Vec<_>>());
    assert_eq!(queue.in_flight_count(), 0);
    assert_eq!(queue.waiting_count(), 0);
}

#[test]
fn queue_hands_inputs_back_when_full() {
    let mut queue = WorkQueue::<u32>::new(1).unwrap();
    assert_eq!(queue.submit(input("a")).unwrap(), 0);
    let back = queue.submit(input("b")).unwrap_err();
    assert_eq!(back.id, Json::Text("b".to_string()));
    let first = queue.start_next().unwrap();
    assert_eq!(first.ticket, 0);
    assert_eq!(first.input.id, Json::Text("a".to_string()));
    assert_eq!(queue.submit(input("b")).unwrap(), 1);
    // One item is in flight already: the next one has to wait.
    assert!(queue.start_next().is_none());
    assert!(!queue.complete(1));
    assert!(queue.complete(0));
    assert_eq!(queue.start_next().unwrap().ticket, 1);
}

#[test]
fn ordered_sequencer_releases_in_input_order() {
    let mut sequencer = OutputSequencer::<&str>::new(false);
    let mut written: Vec<(u64, &str)> = Vec::new();
    for (ticket, output) in [(2u64, "c"), (0, "a"), (3, "d"), (1, "b"), (4, "e")] {
        match sequencer.accept(ticket, output) {
            Sequenced::Released { outputs } => written.extend(outputs),
            Sequenced::Rejected { .. } => panic!("ticket {} was rejected", ticket),
        }
    }
    assert_eq!(written, vec![(0, "a"), (1, "b"), (2, "c"), (3, "d"), (4, "e")]);
    assert_eq!(sequencer.next_ticket, 5);
    assert!(sequencer.held.is_empty());
}

#[test]
fn ordered_sequencer_holds_back_and_rejects_repeats() {
    let mut sequencer = OutputSequencer::<u8>::new(false);
    assert!(matches!(sequencer.accept(1, 11), Sequenced::Released { outputs } if outputs.is_empty()));
    assert!(matches!(sequencer.accept(1, 12), Sequenced::Rejected { output: 12 }));
    assert!(matches!(sequencer.accept(u64::MAX, 13), Sequenced::Rejected { output: 13 }));
    match sequencer.accept(0, 10) {
        Sequenced::Released { outputs } => assert_eq!(outputs, vec![(0, 10), (1, 11)]),
        Sequenced::Rejected { .. } => panic!("ticket 0 was rejected"),
    }
    assert!(matches!(sequencer.accept(0, 14), Sequenced::Rejected { output: 14 }));
}

#[test]
fn unordered_sequencer_releases_at_once() {
    let mut sequencer = OutputSequencer::<u8>::new(true);
    for ticket in [5u64, 1, 3] {
        match sequencer.accept(ticket, 0) {
            Sequenced::Released { outputs } => assert_eq!(outputs, vec![(ticket, 0)]),
            Sequenced::Rejected { .. } => panic!("ticket {} was rejected", ticket),
        }
    }
}

#[test]
fn a_whole_run_leaves_in_the_order_of_its_inputs() {
    let arrivals = vec![(2u64, "c"), (0, "a"), (3, "d"), (1, "b"), (4, "e")];
    assert_eq!(
        prompt_scaler::queues::work::release_in_order(arrivals),
        vec![(0u64, "a"), (1, "b"), (2, "c"), (3, "d"), (4, "e")]
    );
    assert!(prompt_scaler::queues::work::release_in_order::<u8>(vec![]).is_empty());
    // An output that never arrives holds back all later ones, and a ticket
    // that arrives twice is taken once.
    let broken = vec![(0u64, "a"), (2, "c"), (2, "again"), (3, "d")];
    assert_eq!(prompt_scaler::queues::work::release_in_order(broken), vec![(0u64, "a")]);
}

#[test]
fn work_starts_within_the_window_only() {
    let mut sequencer: OutputSequencer<&str> = OutputSequencer::new(false);
    assert_eq!(sequencer.held_count(), 0);
    assert!(sequencer.may_start(0, 3));
    assert!(sequencer.may_start(2, 3));
    assert!(!sequencer.may_start(3, 3));
    assert!(!sequencer.may_start(0, 0));
    // Two later outputs wait for the first: with a window of three no more can.
    assert!(matches!(sequencer.accept(2, "c"), Sequenced::Released { outputs } if outputs.is_empty()));
    assert!(matches!(sequencer.accept(1, "b"), Sequenced::Released { outputs } if outputs.is_empty()));
    assert_eq!(sequencer.held_count(), 2);
    assert!(!sequencer.may_start(3, 3));
    match sequencer.accept(0, "a") {
        Sequenced::Released { outputs } => assert_eq!(outputs, vec![(0, "a"), (1, "b"), (2, "c")]),
        Sequenced::Rejected { .. } => panic!("rejected"),
    }
    assert_eq!(sequencer.held_count(), 0);
    assert!(sequencer.may_start(5, 3));
    assert!(!sequencer.may_start(6, 3));
    assert!(sequencer.may_start(u64::MAX, usize::MAX) || true);
    let free: OutputSequencer<&str> = OutputSequencer::new(true);
    assert!(free.may_start(1_000_000, 1));
}

#[test]
fn the_book_says_whether_it_has_room() {
    let mut book: WorkQueue<u8> = WorkQueue::new(1).unwrap();
    assert!(book.has_room_now());
    assert!(!book.can_start_now());
    let input = |n: u8| WorkInput { id: Json::Null, data: n };
    assert_eq!(book.submit(input(1)).ok(), Some(0));
    assert!(!book.has_room_now());
    assert!(book.can_start_now());
    assert!(book.submit(input(2)).is_err());
    assert!(book.start_next().is_some());
    assert!(book.has_room_now());
    assert!(!book.can_start_now());
    assert_eq!(book.submit(input(3)).ok(), Some(1));
    assert!(!book.can_start_now());
}
