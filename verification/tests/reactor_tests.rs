use async_demo::connections::{classify, ConnectionTable, EventKind, SERVER_TOKEN};
use async_demo::reactor::{claim_registration, MioReactor, TokenSource};

#[test]
fn registered_waker_is_woken_once() {
    let mut r = MioReactor::new();
    r.register_waker(3, "w3");
    assert_eq!(r.poll(&vec![3]), vec!["w3"]);
    assert_eq!(r.poll(&vec![3]), Vec::<&str>::new());
}

#[test]
fn poll_wakes_in_token_order_and_skips_unknown() {
    let mut r = MioReactor::new();
    r.register_waker(1, "a");
    r.register_waker(2, "b");
    r.register_waker(5, "e");
    assert_eq!(r.poll(&vec![5, 9, 1, 5]), vec!["e", "a"]);
    assert_eq!(r.poll(&vec![1, 2, 5]), vec!["b"]);
}

#[test]
fn reregistering_replaces_waker() {
    let mut r = MioReactor::new();
    r.register_waker(4, "old");
    r.register_waker(4, "new");
    assert_eq!(r.poll(&vec![4]), vec!["new"]);
}

#[test]
fn empty_poll_wakes_nothing() {
    let mut r: MioReactor<&str> = MioReactor::new();
    r.register_waker(1, "a");
    assert_eq!(r.poll(&vec![]), Vec::<&str>::new());
    assert_eq!(r.poll(&vec![1]), vec!["a"]);
}

#[test]
fn tokens_count_up_from_one() {
    let mut s = TokenSource::new();
    let tokens: Vec<usize> = (0..100).map(|_| s.next_token()).collect();
    assert_eq!(tokens, (1..=100).collect::<Vec<usize>>());
}

#[test]
fn socket_is_registered_once() {
    let mut registered = false;
    assert!(claim_registration(&mut registered));
    assert!(registered);
    assert!(!claim_registration(&mut registered));
    assert!(registered);
    for _ in 0..10 {
        assert!(!claim_registration(&mut registered));
    }
    assert!(registered);
}

#[test]
fn server_token_means_accept() {
    assert_eq!(classify(SERVER_TOKEN), EventKind::Accept);
    assert_eq!(classify(7), EventKind::Readable(7));
}

#[test]
fn accepted_connections_get_fresh_tokens() {
    let mut t = ConnectionTable::new();
    assert!(t.can_accept());
    let a = t.accept("a");
    let b = t.accept("b");
    assert_eq!(a, 1);
    assert_eq!(t.upcoming_token(), 3);
    assert_eq!(b, 2);
    assert!(t.contains(1));
    assert!(!t.contains(SERVER_TOKEN));
    assert_eq!(t.take(2), "b");
    assert!(!t.contains(2));
    assert_eq!(t.take(1), "a");
    assert_eq!(t.accept("c"), 3);
}
