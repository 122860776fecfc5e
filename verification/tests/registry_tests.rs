use soundboard::registry::SessionRegistry;

#[test]
fn new_registry_has_every_guild_idle() {
    let r = SessionRegistry::new();
    assert!(!r.is_active(0));
    assert!(!r.is_active(42));
}

#[test]
fn second_acquire_for_same_guild_is_refused() {
    let mut r = SessionRegistry::new();
    assert!(r.try_acquire(7));
    assert!(!r.try_acquire(7));
    assert!(r.is_active(7));
}

#[test]
fn many_acquires_grant_exactly_one_session() {
    let mut r = SessionRegistry::new();
    let mut granted = 0;
    for _ in 0..10 {
        if r.try_acquire(3) {
            granted += 1;
        }
    }
    assert_eq!(granted, 1);
    assert!(r.is_active(3));
}

#[test]
fn guilds_are_independent() {
    let mut r = SessionRegistry::new();
    assert!(r.try_acquire(1));
    assert!(r.try_acquire(2));
    r.release(1);
    assert!(!r.is_active(1));
    assert!(r.is_active(2));
}

#[test]
fn release_is_idempotent() {
    let mut r = SessionRegistry::new();
    assert!(r.try_acquire(9));
    r.release(9);
    assert!(!r.is_active(9));
    r.release(9);
    assert!(!r.is_active(9));
}

#[test]
fn releasing_an_idle_guild_is_a_no_op() {
    let mut r = SessionRegistry::new();
    r.release(5);
    assert!(!r.is_active(5));
    assert!(r.try_acquire(5));
}

#[test]
fn acquire_after_release_succeeds_again() {
    let mut r = SessionRegistry::new();
    assert!(r.try_acquire(4));
    r.release(4);
    assert!(r.try_acquire(4));
}
