use es_wifi::pool::{SocketPool, SOCKET_COUNT};
use es_wifi::SocketError;

#[test]
fn open_on_fresh_pool_returns_a_handle() {
    let mut pool = SocketPool::new();
    let h = pool.open().unwrap();
    assert!((h as usize) < SOCKET_COUNT);
}

#[test]
fn second_open_returns_a_different_handle() {
    let mut pool = SocketPool::new();
    let first = pool.open().unwrap();
    let second = pool.open().unwrap();
    assert_ne!(first, second);
}

#[test]
fn released_handle_may_be_reused() {
    let mut pool = SocketPool::new();
    let first = pool.open().unwrap();
    let _second = pool.open().unwrap();
    pool.close(first);
    let third = pool.open().unwrap();
    assert_eq!(third, first);
}

#[test]
fn exhausted_pool_reports_open_error() {
    let mut pool = SocketPool::new();
    for _ in 0..SOCKET_COUNT {
        pool.open().unwrap();
    }
    assert_eq!(pool.open(), Err(SocketError::OpenError));
}

#[test]
fn exhausted_pool_recovers_after_a_close() {
    let mut pool = SocketPool::new();
    for _ in 0..SOCKET_COUNT {
        pool.open().unwrap();
    }
    pool.close(2);
    assert_eq!(pool.open(), Ok(2));
}

#[test]
fn open_handle_is_not_connected_until_marked() {
    let mut pool = SocketPool::new();
    let h = pool.open().unwrap();
    assert!(!pool.is_connected(h));
    pool.set_connected(h);
    assert!(pool.is_connected(h));
}

#[test]
fn close_clears_the_connected_mark() {
    let mut pool = SocketPool::new();
    let h = pool.open().unwrap();
    pool.set_connected(h);
    pool.close(h);
    assert!(!pool.is_connected(h));
}

#[test]
fn close_is_idempotent() {
    let mut pool = SocketPool::new();
    let h = pool.open().unwrap();
    pool.close(h);
    pool.close(h);
    assert_eq!(pool.open(), Ok(h));
}
