use performance_service::queueing::{
    enqueue_outcome, enqueue_response, inactive_days, next_entry, queue_user, EnqueueLookups,
    EnqueueOutcome, QueueDecision, QueueEntry,
};
use performance_service::{ErrorCode, Rework};

const DAY: i64 = 86_400;
const NOW: i64 = 1_700_000_000;

fn rework(updated_at: i64) -> Rework {
    Rework { rework_id: 9, rework_name: "conceptual".to_string(), mode: 0, rx: 0, updated_at }
}

#[test]
fn inactivity_counts_whole_days() {
    assert_eq!(inactive_days(None, NOW), 60);
    assert_eq!(inactive_days(Some(NOW - 70 * DAY), NOW), 70);
    assert_eq!(inactive_days(Some(NOW - DAY + 1), NOW), 0);
    assert_eq!(inactive_days(Some(NOW + 2 * DAY), NOW), -2);
}

#[test]
fn inactive_users_are_skipped() {
    let r = rework(NOW - 100);
    assert_eq!(queue_user(None, NOW, QueueEntry::Absent, &r), QueueDecision::SkipInactive);
    assert_eq!(queue_user(Some(NOW - 60 * DAY), NOW, QueueEntry::Absent, &r), QueueDecision::SkipInactive);
    assert_eq!(queue_user(Some(NOW - 59 * DAY), NOW, QueueEntry::Absent, &r), QueueDecision::Enqueue);
}

#[test]
fn queueing_twice_publishes_once() {
    let r = rework(NOW - 100);
    let last = Some(NOW - DAY);
    let first = queue_user(last, NOW, QueueEntry::Absent, &r);
    let entry = next_entry(QueueEntry::Absent, first);
    let second = queue_user(last, NOW, entry, &r);
    assert_eq!(first, QueueDecision::Enqueue);
    assert_eq!(entry, QueueEntry::InFlight);
    assert_eq!(second, QueueDecision::SkipQueued);
}

#[test]
fn stale_rows_are_queued_again() {
    let last = Some(NOW - DAY);
    let processed = QueueEntry::ProcessedAt(NOW - 50);
    assert_eq!(queue_user(last, NOW, processed, &rework(NOW - 100)), QueueDecision::SkipQueued);
    assert_eq!(queue_user(last, NOW, processed, &rework(NOW - 10)), QueueDecision::Enqueue);
}

fn lookups(session_user: Option<i32>, privileges: Option<i32>, rework_found: bool, decision: QueueDecision) -> EnqueueLookups {
    EnqueueLookups { session_user, privileges, rework_found, decision }
}

fn message_of(outcome: EnqueueOutcome) -> Option<String> {
    enqueue_response(&outcome).ok().and_then(|r| r.message)
}

#[test]
fn session_enqueue_then_already_in_queue() {
    let first = enqueue_outcome(&lookups(Some(42), Some(3), true, QueueDecision::Enqueue));
    let response = enqueue_response(&first).ok().unwrap();
    assert!(response.success);
    assert!(response.message.is_none());
    let second = enqueue_outcome(&lookups(Some(42), Some(3), true, QueueDecision::SkipQueued));
    let response = enqueue_response(&second).ok().unwrap();
    assert!(!response.success);
    assert_eq!(response.message.as_deref(), Some("Already in queue"));
}

#[test]
fn restricted_user_is_refused() {
    let outcome = enqueue_outcome(&lookups(Some(42), Some(0), true, QueueDecision::Enqueue));
    assert_eq!(message_of(outcome).as_deref(), Some("User is restricted"));
}

#[test]
fn each_refusal_has_its_message() {
    let o = enqueue_outcome(&lookups(None, Some(3), true, QueueDecision::Enqueue));
    assert_eq!(message_of(o).as_deref(), Some("Invalid session token"));
    let o = enqueue_outcome(&lookups(Some(1), None, true, QueueDecision::Enqueue));
    assert_eq!(message_of(o).as_deref(), Some("User does not exist"));
    let o = enqueue_outcome(&lookups(Some(1), Some(1), true, QueueDecision::SkipInactive));
    assert_eq!(message_of(o).as_deref(), Some("User is inactive"));
}

#[test]
fn missing_rework_is_not_found() {
    let o = enqueue_outcome(&lookups(Some(1), Some(1), false, QueueDecision::Enqueue));
    match enqueue_response(&o) {
        Err(e) => {
            assert!(matches!(e.error_code, ErrorCode::NotFound));
            assert_eq!(e.http_status(), 404);
        }
        Ok(_) => panic!("expected an error"),
    }
}
