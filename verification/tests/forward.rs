use mbus::forward::{after_write, decide, delivery_of, frame, frame_from, Delivery, Forward};
use mbus::{BroadcastError, BroadcastMessage, BroadcastServer};
use tokio::sync::broadcast::error::{RecvError, TryRecvError};
use tokio::sync::broadcast::Receiver;

/// A message that cannot be encoded.
#[derive(Clone, Debug)]
struct Unencodable;

impl BroadcastMessage for Unencodable {
    fn encode(&self) -> Result<Vec<u8>, bincode::error::EncodeError> {
        Err(bincode::error::EncodeError::Other("unencodable"))
    }

    fn decode(_bytes: &[u8]) -> Result<Self, bincode::error::DecodeError> {
        Ok(Unencodable)
    }
}

/// Runs a forwarding task over what a subscription holds right now, and
/// returns the frames it writes and the lag signals it met.
fn drain(subscription: &mut Receiver<u64>) -> (Vec<Vec<u8>>, Vec<u64>) {
    let mut frames = Vec::new();
    let mut lags = Vec::new();
    loop {
        let received = match subscription.try_recv() {
            Ok(message) => Ok(message),
            Err(TryRecvError::Lagged(missed)) => {
                lags.push(missed);
                Err(RecvError::Lagged(missed))
            }
            Err(TryRecvError::Closed) => Err(RecvError::Closed),
            Err(TryRecvError::Empty) => break,
        };
        match decide(delivery_of(received)) {
            Forward::Send(message) => frames.push(frame(&message).unwrap()),
            Forward::Skip => {}
            Forward::Stop => break,
        }
    }
    (frames, lags)
}

fn decoded(frames: &[Vec<u8>]) -> Vec<u64> {
    frames.iter().map(|f| u64::decode(f).unwrap()).collect()
}

#[test]
fn a_message_is_sent_on() {
    assert!(matches!(decide(Delivery::Message(7u64)), Forward::Send(7)));
}

#[test]
fn a_lag_signal_is_skipped() {
    assert!(matches!(decide(Delivery::<u64>::Lagged(3)), Forward::Skip));
    assert!(matches!(decide(Delivery::<u64>::Lagged(u64::MAX)), Forward::Skip));
}

#[test]
fn the_end_of_the_channel_stops_the_task() {
    assert!(matches!(decide(Delivery::<u64>::Closed), Forward::Stop));
}

#[test]
fn what_recv_returns_is_read_as_a_delivery() {
    assert!(matches!(delivery_of::<u64>(Ok(5)), Delivery::Message(5)));
    assert!(matches!(delivery_of::<u64>(Err(RecvError::Lagged(2))), Delivery::Lagged(2)));
    assert!(matches!(delivery_of::<u64>(Err(RecvError::Closed)), Delivery::Closed));
}

#[test]
fn a_frame_holds_the_encoded_message() {
    assert_eq!(frame(&300u64).unwrap(), vec![251u8, 44, 1]);
    assert_eq!(frame_from(Ok(vec![1u8, 2, 3])).unwrap(), vec![1u8, 2, 3]);
}

#[test]
fn an_encode_failure_is_an_encode_error() {
    let failed = frame(&Unencodable).unwrap_err();
    assert!(matches!(
        failed,
        BroadcastError::Bincode(bincode::error::EncodeError::Other("unencodable"))
    ));
    let failed = frame_from(Err(bincode::error::EncodeError::UnexpectedEnd)).unwrap_err();
    assert!(matches!(failed, BroadcastError::Bincode(bincode::error::EncodeError::UnexpectedEnd)));
}

#[test]
fn a_failed_write_is_a_transport_error() {
    assert!(after_write(Ok(())).is_ok());
    let cause = std::io::Error::new(std::io::ErrorKind::BrokenPipe, "peer gone".to_string());
    match after_write(Err(cause)) {
        Err(BroadcastError::Io(e)) => assert_eq!(e.kind(), std::io::ErrorKind::BrokenPipe),
        other => panic!("unexpected {:?}", other),
    }
}

#[test]
fn messages_arrive_in_publishing_order() {
    let server = BroadcastServer::<u64>::new("/tmp/mbus-order.sock", 8);
    let mut subscription = server.subscribe();
    let publisher = server.sender();
    for v in [10u64, 20, 30, 40, 50] {
        publisher.send(v).unwrap();
    }
    let (frames, lags) = drain(&mut subscription);
    assert_eq!(decoded(&frames), vec![10, 20, 30, 40, 50]);
    assert!(lags.is_empty());
}

#[test]
fn capacity_two_with_four_messages_leaves_the_last_two() {
    let server = BroadcastServer::<u64>::new("/tmp/mbus-lag.sock", 2);
    let mut subscription = server.subscribe();
    let publisher = server.sender();
    let (a, b, c, d) = (1000u64, 2000u64, 3000u64, 4000u64);
    for v in [a, b, c, d] {
        publisher.send(v).unwrap();
    }
    let (frames, lags) = drain(&mut subscription);
    assert_eq!(decoded(&frames), vec![c, d]);
    assert_eq!(lags, vec![2]);
}

#[test]
fn a_subscriber_that_fell_behind_goes_on_with_the_oldest_message_held() {
    let capacity: usize = 4;
    let extra: u64 = 3;
    let server = BroadcastServer::<u64>::new("/tmp/mbus-behind.sock", capacity);
    let mut subscription = server.subscribe();
    let publisher = server.sender();
    for v in 0..(capacity as u64 + extra) {
        publisher.send(v).unwrap();
    }
    let (frames, lags) = drain(&mut subscription);
    assert_eq!(lags, vec![extra]);
    assert_eq!(decoded(&frames), vec![3, 4, 5, 6]);
    publisher.send(99).unwrap();
    let (frames, lags) = drain(&mut subscription);
    assert_eq!(decoded(&frames), vec![99]);
    assert!(lags.is_empty());
}

#[test]
fn capacity_one_leaves_the_most_recent_message() {
    let server = BroadcastServer::<u64>::new("/tmp/mbus-one.sock", 1);
    let mut subscription = server.subscribe();
    let publisher = server.sender();
    for v in [1u64, 2, 3] {
        publisher.send(v).unwrap();
    }
    let (frames, lags) = drain(&mut subscription);
    assert_eq!(decoded(&frames), vec![3]);
    assert_eq!(lags, vec![2]);
}

#[test]
fn a_capacity_that_is_no_power_of_two_holds_more_than_asked() {
    let server = BroadcastServer::<u64>::new("/tmp/mbus-three.sock", 3);
    let mut subscription = server.subscribe();
    let publisher = server.sender();
    for v in [1u64, 2, 3, 4] {
        publisher.send(v).unwrap();
    }
    let (frames, lags) = drain(&mut subscription);
    assert_eq!(decoded(&frames), vec![1, 2, 3, 4]);
    assert!(lags.is_empty());
}

#[test]
fn a_late_subscriber_sees_nothing_from_before() {
    let server = BroadcastServer::<u64>::new("/tmp/mbus-late.sock", 8);
    let mut early = server.subscribe();
    let publisher = server.sender();
    for v in [1u64, 2, 3] {
        publisher.send(v).unwrap();
    }
    let mut late = server.subscribe();
    let (frames, lags) = drain(&mut late);
    assert!(frames.is_empty());
    assert!(lags.is_empty());
    publisher.send(4).unwrap();
    assert_eq!(decoded(&drain(&mut late).0), vec![4]);
    assert_eq!(decoded(&drain(&mut early).0), vec![1, 2, 3, 4]);
}

#[test]
fn publishing_without_a_subscriber_drops_the_message() {
    let server = BroadcastServer::<u64>::new("/tmp/mbus-nobody.sock", 4);
    let publisher = server.sender();
    assert!(publisher.send(1).is_err());
    let mut subscription = server.subscribe();
    assert_eq!(publisher.send(2).unwrap(), 1);
    assert_eq!(decoded(&drain(&mut subscription).0), vec![2]);
}

#[test]
fn a_subscriber_that_leaves_does_not_disturb_another() {
    let server = BroadcastServer::<u64>::new("/tmp/mbus-two.sock", 4);
    let mut stays = server.subscribe();
    let leaves = server.subscribe();
    let publisher = server.sender();
    assert_eq!(publisher.send(1).unwrap(), 2);
    drop(leaves);
    assert_eq!(publisher.send(2).unwrap(), 1);
    assert_eq!(decoded(&drain(&mut stays).0), vec![1, 2]);
}

#[test]
fn every_handle_publishes_into_the_same_channel() {
    let server = BroadcastServer::<u64>::new("/tmp/mbus-handles.sock", 4);
    let mut subscription = server.subscribe();
    let first = server.sender();
    let second = server.sender();
    assert!(first.same_channel(&second));
    first.send(1).unwrap();
    second.send(2).unwrap();
    assert_eq!(decoded(&drain(&mut subscription).0), vec![1, 2]);
}

#[test]
fn the_task_stops_once_the_channel_is_closed_and_empty() {
    let (publisher, mut subscription) = tokio::sync::broadcast::channel::<u64>(4);
    publisher.send(8).unwrap();
    drop(publisher);
    let first = decide(delivery_of(subscription.try_recv().map_err(|_| RecvError::Closed)));
    assert!(matches!(first, Forward::Send(8)));
    let second = match subscription.try_recv() {
        Err(TryRecvError::Closed) => decide(delivery_of::<u64>(Err(RecvError::Closed))),
        other => panic!("unexpected {:?}", other),
    };
    assert!(matches!(second, Forward::Stop));
}

#[test]
fn servers_do_not_share_a_channel() {
    let first = BroadcastServer::<u64>::new("/tmp/mbus-first.sock", 4);
    let second = BroadcastServer::<u64>::new("/tmp/mbus-second.sock", 4);
    let mut of_first = first.subscribe();
    let mut of_second = second.subscribe();
    assert!(!first.sender().same_channel(&second.sender()));
    first.sender().send(1).unwrap();
    second.sender().send(2).unwrap();
    assert_eq!(decoded(&drain(&mut of_first).0), vec![1]);
    assert_eq!(decoded(&drain(&mut of_second).0), vec![2]);
}

#[test]
fn a_subscription_belongs_to_the_channel_of_its_server() {
    let server = BroadcastServer::<u64>::new("/tmp/mbus-own.sock", 4);
    let first = server.subscribe();
    let second = server.subscribe();
    assert!(first.same_channel(&second));
    assert_eq!(server.sender().receiver_count(), 2);
}
