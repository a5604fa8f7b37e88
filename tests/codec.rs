use performance_service::codec::{decode_queue_request, encode_queue_request};
use performance_service::QueueRequest;

#[test]
fn message_layout() {
    let bytes = encode_queue_request(&QueueRequest { user_id: 42, rework_id: 9 });
    assert_eq!(bytes, vec![1, 42, 0, 0, 0, 9, 0, 0, 0]);
}

#[test]
fn negative_ids_use_twos_complement() {
    let bytes = encode_queue_request(&QueueRequest { user_id: -1, rework_id: 258 });
    assert_eq!(bytes, vec![1, 255, 255, 255, 255, 2, 1, 0, 0]);
}

#[test]
fn round_trip_keeps_request() {
    for (u, r) in [(0, 0), (42, 9), (i32::MAX, i32::MIN), (-7, 123_456_789)] {
        let req = QueueRequest { user_id: u, rework_id: r };
        assert_eq!(decode_queue_request(&encode_queue_request(&req)), Some(req));
    }
}

#[test]
fn invalid_payloads_are_rejected() {
    assert_eq!(decode_queue_request(&[]), None);
    assert_eq!(decode_queue_request(&[1, 42, 0, 0, 0, 9, 0, 0]), None);
    assert_eq!(decode_queue_request(&[2, 42, 0, 0, 0, 9, 0, 0, 0]), None);
    assert_eq!(decode_queue_request(&[1, 42, 0, 0, 0, 9, 0, 0, 0, 0]), None);
}
