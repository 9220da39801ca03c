use mbus::errors::ErrorKind;
use mbus::server::{advance, entry_of, first_step, Entry, Next, Step, SOCKET_MODE};
use mbus::{BroadcastError, BroadcastServer};

fn failure(kind: std::io::ErrorKind) -> std::io::Error {
    std::io::Error::new(kind, "failed".to_string())
}

#[test]
fn a_new_server_keeps_its_path_and_capacity() {
    let server = BroadcastServer::<u64>::new("/tmp/market.sock", 100);
    assert_eq!(server.socket_path(), "/tmp/market.sock");
    assert_eq!(server.capacity(), 100);
}

#[test]
fn a_server_can_have_the_smallest_and_the_largest_capacity() {
    assert_eq!(BroadcastServer::<u64>::with_capacity("/tmp/a.sock", 1).unwrap().capacity(), 1);
    assert!(BroadcastServer::<u64>::with_capacity("/tmp/a.sock", 0).is_none());
    assert!(BroadcastServer::<u64>::with_capacity("/tmp/a.sock", usize::MAX / 2 + 1).is_none());
    assert!(BroadcastServer::<u64>::with_capacity("/tmp/a.sock", usize::MAX).is_none());
}

#[test]
fn the_endpoint_is_open_to_every_local_user() {
    assert_eq!(SOCKET_MODE, 0o666);
    assert_eq!(SOCKET_MODE, 438);
}

#[test]
fn a_leftover_entry_is_removed_first() {
    assert!(matches!(first_step(Entry::Stale), Next::Run(Step::Remove)));
    assert!(matches!(advance(Step::Remove, Ok(())), Next::Run(Step::Bind)));
}

#[test]
fn without_a_leftover_entry_the_server_binds_at_once() {
    assert!(matches!(first_step(Entry::Absent), Next::Run(Step::Bind)));
}

#[test]
fn a_held_endpoint_is_left_alone() {
    match first_step(Entry::Held) {
        Next::Fail(e) => {
            assert_eq!(e.kind(), ErrorKind::AddressInUse);
            assert!(matches!(e, BroadcastError::SocketExists));
        }
        other => panic!("unexpected {:?}", other),
    }
}

#[test]
fn an_entry_that_answers_is_held() {
    assert_eq!(entry_of(true, Ok(())), Entry::Held);
}

#[test]
fn an_entry_that_does_not_answer_is_a_leftover() {
    assert_eq!(entry_of(true, Err(failure(std::io::ErrorKind::ConnectionRefused))), Entry::Stale);
    assert_eq!(entry_of(true, Err(failure(std::io::ErrorKind::NotFound))), Entry::Stale);
}

#[test]
fn no_entry_is_no_entry_whatever_an_attempt_says() {
    assert_eq!(entry_of(false, Ok(())), Entry::Absent);
    assert_eq!(entry_of(false, Err(failure(std::io::ErrorKind::NotFound))), Entry::Absent);
}

#[test]
fn a_second_server_on_a_live_endpoint_fails_and_removes_nothing() {
    let found = entry_of(true, Ok(()));
    let mut taken: Vec<Step> = Vec::new();
    let outcome = match first_step(found) {
        Next::Run(step) => {
            taken.push(step);
            Ok(())
        }
        Next::Fail(e) => Err(e),
    };
    assert!(matches!(outcome, Err(BroadcastError::SocketExists)));
    assert!(taken.is_empty());
}

#[test]
fn binding_is_followed_by_widening_and_then_accepting() {
    assert!(matches!(advance(Step::Bind, Ok(())), Next::Run(Step::Widen)));
    assert!(matches!(advance(Step::Widen, Ok(())), Next::Run(Step::Accept)));
}

#[test]
fn a_server_keeps_accepting() {
    assert!(matches!(advance(Step::Accept, Ok(())), Next::Run(Step::Accept)));
}

#[test]
fn a_leftover_entry_that_cannot_be_removed_is_reported_with_its_cause() {
    match advance(Step::Remove, Err(failure(std::io::ErrorKind::PermissionDenied))) {
        Next::Fail(e) => {
            assert_eq!(e.kind(), ErrorKind::AddressInUse);
            match e {
                BroadcastError::StaleEntry(cause) => {
                    assert_eq!(cause.kind(), std::io::ErrorKind::PermissionDenied)
                }
                other => panic!("unexpected {:?}", other),
            }
        }
        other => panic!("unexpected {:?}", other),
    }
}

#[test]
fn a_failed_bind_is_a_transport_error() {
    match advance(Step::Bind, Err(failure(std::io::ErrorKind::AddrInUse))) {
        Next::Fail(BroadcastError::Io(e)) => assert_eq!(e.kind(), std::io::ErrorKind::AddrInUse),
        other => panic!("unexpected {:?}", other),
    }
}

#[test]
fn a_failed_widening_or_accept_is_a_transport_error() {
    match advance(Step::Widen, Err(failure(std::io::ErrorKind::NotFound))) {
        Next::Fail(BroadcastError::Io(e)) => assert_eq!(e.kind(), std::io::ErrorKind::NotFound),
        other => panic!("unexpected {:?}", other),
    }
    match advance(Step::Accept, Err(failure(std::io::ErrorKind::ConnectionAborted))) {
        Next::Fail(BroadcastError::Io(e)) => {
            assert_eq!(e.kind(), std::io::ErrorKind::ConnectionAborted)
        }
        other => panic!("unexpected {:?}", other),
    }
}

#[test]
fn the_steps_from_a_leftover_entry_to_accepting() {
    let mut step = match first_step(entry_of(true, Err(failure(std::io::ErrorKind::ConnectionRefused)))) {
        Next::Run(first) => first,
        Next::Fail(e) => panic!("unexpected {:?}", e),
    };
    let mut taken = vec![step];
    for _ in 0..4 {
        step = match advance(step, Ok(())) {
            Next::Run(next) => next,
            Next::Fail(e) => panic!("unexpected {:?}", e),
        };
        taken.push(step);
    }
    assert_eq!(taken, vec![Step::Remove, Step::Bind, Step::Widen, Step::Accept, Step::Accept]);
}
