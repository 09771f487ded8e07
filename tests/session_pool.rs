use parsec_core::session_pool::SessionPool;

#[test]
fn pool_hands_out_each_session_once() {
    let mut pool = SessionPool::new(2);
    assert_eq!(pool.size(), 2);
    assert_eq!(pool.check_out(), Some(0));
    assert_eq!(pool.check_out(), Some(1));
    assert_eq!(pool.busy(), 2);
    assert_eq!(pool.check_out(), None);
    assert!(pool.check_in(0));
    assert_eq!(pool.busy(), 1);
    assert_eq!(pool.check_out(), Some(0));
}

#[test]
fn pool_refuses_check_in_of_free_session() {
    let mut pool = SessionPool::new(3);
    assert!(!pool.check_in(1));
    assert!(!pool.check_in(7));
    assert_eq!(pool.busy(), 0);
}

#[test]
fn empty_pool_is_always_exhausted() {
    let mut pool = SessionPool::new(0);
    assert_eq!(pool.check_out(), None);
    assert_eq!(pool.busy(), 0);
}
