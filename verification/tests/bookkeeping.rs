use request_duplicator::counters::QueueCounters;
use request_duplicator::priority::Priority;
use request_duplicator::retry::{classify, decide, spend_one, Attempt, AttemptOutcome, TransportResult};
use request_duplicator::target_log::{LogEvent, TargetLog, TargetLogEntry};

#[test]
fn priority_knows_its_tier() {
    assert!(Priority::High.is_high());
    assert!(!Priority::Low.is_high());
}

#[test]
fn transport_errors_are_failures() {
    assert_eq!(classify(TransportResult::ConnectionRefused), Attempt::Failed);
    assert_eq!(classify(TransportResult::TimedOut), Attempt::Failed);
    assert_eq!(classify(TransportResult::ProtocolError), Attempt::Failed);
}

#[test]
fn server_errors_are_failures_and_other_answers_deliveries() {
    assert_eq!(classify(TransportResult::Responded(500)), Attempt::Failed);
    assert_eq!(classify(TransportResult::Responded(503)), Attempt::Failed);
    assert_eq!(classify(TransportResult::Responded(599)), Attempt::Failed);
    assert_eq!(classify(TransportResult::Responded(499)), Attempt::Delivered);
    assert_eq!(classify(TransportResult::Responded(600)), Attempt::Delivered);
    assert_eq!(classify(TransportResult::Responded(200)), Attempt::Delivered);
    assert_eq!(classify(TransportResult::Responded(404)), Attempt::Delivered);
    assert_eq!(classify(TransportResult::Responded(301)), Attempt::Delivered);
}

#[test]
fn budget_is_spent_one_by_one_and_never_below_zero() {
    assert_eq!(spend_one(3), 2);
    assert_eq!(spend_one(1), 0);
    assert_eq!(spend_one(0), 0);
    assert_eq!(spend_one(u32::MAX), u32::MAX - 1);
}

#[test]
fn retry_rule() {
    assert_eq!(decide(3, Attempt::Delivered), AttemptOutcome::Success);
    assert_eq!(decide(0, Attempt::Delivered), AttemptOutcome::Success);
    assert_eq!(decide(3, Attempt::Failed), AttemptOutcome::Retry(2));
    assert_eq!(decide(2, Attempt::Failed), AttemptOutcome::Retry(1));
    assert_eq!(decide(1, Attempt::Failed), AttemptOutcome::Exhausted);
    assert_eq!(decide(0, Attempt::Failed), AttemptOutcome::Exhausted);
}

#[test]
fn counters_count_up_and_down_per_tier() {
    let mut counters = QueueCounters::new();
    assert_eq!(counters.read_queue_count(Priority::High), 0);
    assert_eq!(counters.read_queue_count(Priority::Low), 0);
    counters.enqueue(Priority::High);
    counters.enqueue(Priority::Low);
    counters.enqueue(Priority::Low);
    counters.enqueue(Priority::Low);
    assert_eq!(counters.read_queue_count(Priority::High), 1);
    assert_eq!(counters.read_queue_count(Priority::Low), 3);
    counters.release(Priority::Low, 2);
    assert_eq!(counters, QueueCounters { high: 1, low: 1 });
    counters.release(Priority::High, 1);
    counters.release(Priority::Low, 0);
    assert_eq!(counters, QueueCounters { high: 0, low: 1 });
}

fn line(log: &TargetLog, target: &str) -> Option<(u64, u64, u64)> {
    log.get(&target.to_string()).map(|l| (l.attempts, l.successes, l.failures))
}

#[test]
fn ledger_creates_lines_on_first_event() {
    let mut log = TargetLog::new();
    assert!(log.entries().is_empty());
    assert_eq!(line(&log, "a"), None);
    log.record(&"a".to_string(), LogEvent::FailedAttempt);
    assert_eq!(line(&log, "a"), Some((1, 0, 0)));
    log.record(&"b".to_string(), LogEvent::Delivered);
    assert_eq!(line(&log, "b"), Some((1, 1, 0)));
    log.record(&"c".to_string(), LogEvent::Dropped);
    assert_eq!(line(&log, "c"), Some((0, 0, 1)));
    assert_eq!(log.entries().len(), 3);
}

#[test]
fn ledger_counts_per_target() {
    let mut log = TargetLog::new();
    let a = "a".to_string();
    let b = "b".to_string();
    log.record(&a, LogEvent::FailedAttempt);
    log.record(&b, LogEvent::Delivered);
    log.record(&a, LogEvent::FailedAttempt);
    log.record(&a, LogEvent::Dropped);
    log.record(&b, LogEvent::Delivered);
    log.record(&a, LogEvent::Delivered);
    assert_eq!(line(&log, "a"), Some((3, 1, 1)));
    assert_eq!(line(&log, "b"), Some((2, 2, 0)));
    assert_eq!(log.entries().len(), 2);
    assert_eq!(log.get(&a).unwrap().target, "a");
}

#[test]
fn ledger_lines_stop_at_the_largest_count() {
    let full = TargetLogEntry {
        target: "t".to_string(),
        attempts: u64::MAX,
        successes: u64::MAX - 1,
        failures: u64::MAX,
    };
    let after = full.after(LogEvent::Delivered);
    assert_eq!((after.attempts, after.successes, after.failures), (u64::MAX, u64::MAX, u64::MAX));
    let after = after.after(LogEvent::Dropped);
    assert_eq!((after.attempts, after.successes, after.failures), (u64::MAX, u64::MAX, u64::MAX));
    assert_eq!(after.target, "t");
}

#[test]
fn first_line_of_each_event() {
    let l = TargetLogEntry::first("t".to_string(), LogEvent::Delivered);
    assert_eq!((l.target.as_str(), l.attempts, l.successes, l.failures), ("t", 1, 1, 0));
    let l = TargetLogEntry::first("t".to_string(), LogEvent::FailedAttempt);
    assert_eq!((l.attempts, l.successes, l.failures), (1, 0, 0));
    let l = TargetLogEntry::first("t".to_string(), LogEvent::Dropped);
    assert_eq!((l.attempts, l.successes, l.failures), (0, 0, 1));
}
