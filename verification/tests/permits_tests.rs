use repomirror::config::normalize_root_url;
use repomirror::permits::PermitPool;

#[test]
fn no_more_than_capacity_permits_are_granted() {
    // Concurrency limit 2 and ten tasks wanting the critical section:
    // at no instant are more than 2 permits out.
    let mut pool = PermitPool::new(2);
    let mut granted = 0;
    for _ in 0..10 {
        if pool.try_acquire() {
            granted += 1;
        }
        assert!(pool.held() <= pool.limit());
    }
    assert_eq!(granted, 2);
    assert_eq!(pool.held(), 2);
}

#[test]
fn released_permits_free_a_slot() {
    let mut pool = PermitPool::new(1);
    assert!(pool.try_acquire());
    assert!(!pool.try_acquire());
    pool.release();
    assert_eq!(pool.held(), 0);
    assert!(pool.try_acquire());
}

#[test]
fn zero_capacity_grants_nothing() {
    let mut pool = PermitPool::new(0);
    assert!(!pool.try_acquire());
    assert_eq!(pool.held(), 0);
}

#[test]
fn root_url_gains_a_trailing_slash() {
    assert_eq!(
        normalize_root_url("http://repo.example.com").as_str(),
        "http://repo.example.com/"
    );
}

#[test]
fn trailing_slash_is_kept_as_is() {
    assert_eq!(
        normalize_root_url("http://repo.example.com/").as_str(),
        "http://repo.example.com/"
    );
}

#[test]
fn empty_root_becomes_a_bare_slash() {
    assert_eq!(normalize_root_url("").as_str(), "/");
}
