use big_slides::errors::BigError;
use big_slides::hub::{ConnectionPool, Handshake, RELOAD_MESSAGE};

#[test]
fn three_clients_one_closed_leaves_two() {
    let mut pool: ConnectionPool<&str> = ConnectionPool::new();
    for client in ["a", "b", "c"] {
        assert_eq!(pool.add_connection(Handshake::Completed(client)), Ok(()));
    }
    assert_eq!(pool.len(), 3);
    let closed = "b";
    let mut delivered = vec![];
    let mut dropped = vec![];
    let mut broadcast = pool.begin_broadcast();
    while let Some(connection) = broadcast.next() {
        let ok = connection != closed;
        if ok {
            delivered.push((connection, RELOAD_MESSAGE));
        }
        if let Some(gone) = broadcast.settle(connection, ok) {
            dropped.push(gone);
        }
    }
    broadcast.finish(&mut pool);
    assert_eq!(delivered, vec![("a", "reload"), ("c", "reload")]);
    assert_eq!(dropped, vec!["b"]);
    assert_eq!(pool.len(), 2);
    assert_eq!(pool.cleanup(), vec!["a", "c"]);
    assert_eq!(pool.len(), 0);
}

fn broadcast_with(pool: &mut ConnectionPool<u32>, healthy: &[bool]) -> Vec<u32> {
    let mut attempted = vec![];
    let mut b = pool.begin_broadcast();
    let mut k = 0;
    while let Some(c) = b.next() {
        attempted.push(c);
        b.settle(c, healthy[k]);
        k += 1;
    }
    b.finish(pool);
    attempted
}

#[test]
fn every_connection_has_its_turn_whatever_fails() {
    for mask in 0u32..16 {
        let healthy: Vec<bool> = (0..4).map(|k| mask & (1 << k) != 0).collect();
        let mut pool: ConnectionPool<u32> = ConnectionPool::new();
        for id in 10..14 {
            pool.add_connection(Handshake::Completed(id)).unwrap();
        }
        let attempted = broadcast_with(&mut pool, &healthy);
        assert_eq!(attempted, vec![10, 11, 12, 13]);
        let expected: Vec<u32> = (0..4).filter(|k| healthy[*k]).map(|k| 10 + k as u32).collect();
        assert_eq!(pool.cleanup(), expected);
    }
}

#[test]
fn a_broadcast_to_nobody_does_nothing() {
    let mut pool: ConnectionPool<u32> = ConnectionPool::new();
    assert_eq!(broadcast_with(&mut pool, &[]), Vec::<u32>::new());
    assert_eq!(pool.len(), 0);
}

#[test]
fn clients_that_join_during_a_broadcast_come_first() {
    let mut pool: ConnectionPool<u32> = ConnectionPool::new();
    pool.add_connection(Handshake::Completed(1)).unwrap();
    pool.add_connection(Handshake::Completed(2)).unwrap();
    let mut b = pool.begin_broadcast();
    let first = b.next().unwrap();
    b.settle(first, true);
    pool.add_connection(Handshake::Completed(3)).unwrap();
    b.finish(&mut pool);
    assert_eq!(pool.cleanup(), vec![3, 1, 2]);
}

#[test]
fn a_handshake_that_is_not_ready_is_passed_over() {
    let mut pool: ConnectionPool<u32> = ConnectionPool::new();
    let not_ready = Handshake::Failed {
        debug: "Interrupted(MidHandshake { error: Io(Kind(WouldBlock)) })".to_string(),
        display: "Interrupted handshake (WouldBlock)".to_string(),
    };
    assert_eq!(pool.add_connection(not_ready), Ok(()));
    assert_eq!(pool.len(), 0);
}

#[test]
fn a_failed_handshake_is_an_error() {
    let mut pool: ConnectionPool<u32> = ConnectionPool::new();
    pool.add_connection(Handshake::Completed(1)).unwrap();
    let failed = Handshake::Failed {
        debug: "Failure(Protocol(WrongHttpMethod))".to_string(),
        display: "WebSocket protocol error: Unsupported HTTP method".to_string(),
    };
    assert_eq!(
        pool.add_connection(failed),
        Err(BigError::WatchError(
            "Failed to accept WebSocket connection: WebSocket protocol error: Unsupported HTTP method"
                .to_string()
        ))
    );
    assert_eq!(
        pool.add_connection(Handshake::StreamFailed("too many open files".to_string())),
        Err(BigError::WatchError("Failed to clone stream: too many open files".to_string()))
    );
    assert_eq!(pool.len(), 1);
}

#[test]
fn the_mark_of_not_ready_is_case_sensitive() {
    let mut pool: ConnectionPool<u32> = ConnectionPool::new();
    let failed =
        Handshake::Failed { debug: "wouldblock".to_string(), display: "d".to_string() };
    assert!(pool.add_connection(failed).is_err());
}

#[test]
fn a_broadcast_sends_to_all_and_keeps_the_healthy() {
    let mut pool: ConnectionPool<(u32, u32)> = ConnectionPool::new();
    for id in 1..=3 {
        pool.add_connection(Handshake::Completed((id, 0))).unwrap();
    }
    // the second connection was closed by its client
    let delivered = pool.broadcast(|(id, received)| ((id, received + 1), id != 2));
    assert_eq!(delivered, vec![true, false, true]);
    assert_eq!(pool.len(), 2);
    let delivered = pool.broadcast(|(id, received)| ((id, received + 1), true));
    assert_eq!(delivered, vec![true, true]);
    assert_eq!(pool.cleanup(), vec![(1, 2), (3, 2)]);
}

#[test]
fn a_broadcast_in_which_every_send_fails_empties_the_pool() {
    let mut pool: ConnectionPool<u32> = ConnectionPool::new();
    for id in 0..5 {
        pool.add_connection(Handshake::Completed(id)).unwrap();
    }
    let seen = std::cell::RefCell::new(vec![]);
    let delivered = pool.broadcast(|id| {
        seen.borrow_mut().push(id);
        (id, false)
    });
    assert_eq!(delivered, vec![false; 5]);
    assert_eq!(*seen.borrow(), vec![0, 1, 2, 3, 4]);
    assert_eq!(pool.len(), 0);
    assert_eq!(pool.broadcast(|id| (id, true)), Vec::<bool>::new());
}
