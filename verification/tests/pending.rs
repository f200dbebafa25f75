use atomic_bomb_engine::pending::{PendingState, MAX_PENDING_PER_CONN};

#[test]
fn replies_take_the_oldest_send_first() {
    let mut p = PendingState::new();
    assert!(p.register("a".to_string(), 10));
    assert!(p.register("a".to_string(), 20));
    assert!(p.register("b".to_string(), 15));
    assert_eq!(p.match_one("a"), Some(10));
    assert_eq!(p.match_one("a"), Some(20));
    assert_eq!(p.match_one("a"), None);
    assert_eq!(p.match_one("b"), Some(15));
}

#[test]
fn unknown_key_matches_nothing() {
    let mut p = PendingState::new();
    assert_eq!(p.match_one("nobody"), None);
    assert!(p.register("k".to_string(), 1));
    assert_eq!(p.match_one("other"), None);
    assert_eq!(p.match_one("k"), Some(1));
}

#[test]
fn expiry_drops_only_old_sends() {
    let mut p = PendingState::new();
    assert!(p.register("k".to_string(), 0));
    assert!(p.register("k".to_string(), 100));
    assert!(p.register("k".to_string(), 200));
    assert!(p.register("j".to_string(), 250));
    // At 300 with a timeout of 150, the sends at 0 and 100 waited too long.
    assert_eq!(p.expire_older_than(150, 300), 2);
    assert_eq!(p.match_one("k"), Some(200));
    assert_eq!(p.match_one("j"), Some(250));
    assert_eq!(p.expire_older_than(150, 300), 0);
}

#[test]
fn expiry_of_empty_state_is_zero() {
    let mut p = PendingState::new();
    assert_eq!(p.expire_older_than(0, 1_000), 0);
}

#[test]
fn a_send_from_the_future_never_expires() {
    let mut p = PendingState::new();
    assert!(p.register("k".to_string(), 500));
    assert_eq!(p.expire_older_than(0, 100), 0);
    assert_eq!(p.match_one("k"), Some(500));
}

#[test]
fn waiting_list_is_capped() {
    assert_eq!(MAX_PENDING_PER_CONN, 100000);
    let mut p = PendingState::new();
    for i in 0..MAX_PENDING_PER_CONN {
        assert!(p.register("k".to_string(), i as u64));
    }
    assert!(!p.register("k".to_string(), 1));
    assert!(!p.register("other".to_string(), 1));
    assert_eq!(p.match_one("k"), Some(0));
    assert!(p.register("other".to_string(), 7));
    assert_eq!(p.match_one("other"), Some(7));
}
