use performance_service::queueing::{
    enqueue_outcome, enqueue_response, next_entry, queue_user, EnqueueLookups, QueueEntry,
};
use performance_service::sessions::{check_login, resolve_session_token, session_response};
use performance_service::text::username_safe;
use performance_service::Rework;
use performance_service::ErrorCode;

#[test]
fn login_checks_bcrypt_hash() {
    let hash = bcrypt::hash("5f4dcc3b5aa765d61d8327deb882cf99", 4).unwrap();
    let ok = check_login(Some((42, hash.clone())), "5f4dcc3b5aa765d61d8327deb882cf99");
    assert_eq!(ok.ok(), Some(Some(42)));
    let wrong = check_login(Some((42, hash)), "00000000000000000000000000000000");
    assert_eq!(wrong.ok(), Some(None));
}

#[test]
fn login_without_account_fails_quietly() {
    assert_eq!(check_login(None, "x").ok(), Some(None));
}

#[test]
fn unusable_hash_is_an_internal_error() {
    match check_login(Some((1, "not a hash".to_string())), "x") {
        Err(e) => assert!(matches!(e.error_code, ErrorCode::InternalServerError)),
        Ok(_) => panic!("expected an error"),
    }
}

#[test]
fn existing_token_is_reused() {
    let (t, fresh) = resolve_session_token(Some("abc".to_string()));
    assert_eq!(t, "abc");
    assert!(!fresh);
}

#[test]
fn fresh_token_is_a_uuid() {
    let (t, fresh) = resolve_session_token(None);
    assert!(fresh);
    assert_eq!(t.len(), 36);
    for (i, c) in t.chars().enumerate() {
        if [8, 13, 18, 23].contains(&i) {
            assert_eq!(c, '-');
        } else {
            assert!(c.is_ascii_digit() || ('a'..='f').contains(&c), "{}", t);
        }
    }
    assert_eq!(t.as_bytes()[14], b'4');
    assert!(b"89ab".contains(&t.as_bytes()[19]));
    let (u, _) = resolve_session_token(None);
    assert_ne!(t, u);
}

#[test]
fn session_responses() {
    let r = session_response(Some((42, "tok".to_string())));
    assert!(r.success);
    assert_eq!(r.user_id, Some(42));
    assert_eq!(r.session_token.as_deref(), Some("tok"));
    let r = session_response(None);
    assert!(!r.success && r.user_id.is_none() && r.session_token.is_none());
}

#[test]
fn login_then_queue_then_already_queued() {
    let password_md5 = "0cc175b9c0f1b6a831c399e269772661";
    let stored = bcrypt::hash(password_md5, 4).unwrap();
    assert_eq!(username_safe("Alice"), "alice");
    let user_id = check_login(Some((7, stored)), password_md5).ok().unwrap().unwrap();
    let (token, fresh) = resolve_session_token(None);
    assert!(fresh);
    let created = session_response(Some((user_id, token)));
    assert!(created.success);

    let now = 1_700_000_000;
    let rework = Rework { rework_id: 1, rework_name: "r".to_string(), mode: 0, rx: 0, updated_at: now - 3600 };
    let last = Some(now - 86_400);
    let first = queue_user(last, now, QueueEntry::Absent, &rework);
    let l1 = EnqueueLookups { session_user: Some(user_id), privileges: Some(1), rework_found: true, decision: first };
    let r1 = enqueue_response(&enqueue_outcome(&l1)).ok().unwrap();
    assert!(r1.success);

    let second = queue_user(last, now, next_entry(QueueEntry::Absent, first), &rework);
    let l2 = EnqueueLookups { session_user: Some(user_id), privileges: Some(1), rework_found: true, decision: second };
    let r2 = enqueue_response(&enqueue_outcome(&l2)).ok().unwrap();
    assert!(!r2.success);
    assert_eq!(r2.message.as_deref(), Some("Already in queue"));
}
