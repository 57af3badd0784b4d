use sysinfo_publisher::publisher::{
    Ack, Action, ConnectionState, Event, PublishError, PublisherChannel,
};
use sysinfo_publisher::scheduler::{LoopStats, TickOutcome};

/// Drives one publish as the process loop does, with the broker's answers.
fn publish(ch: &mut PublisherChannel, connect: Event, delivery: Event) -> Result<Ack, PublishError> {
    let mut action = ch.handle(Event::PublishRequested);
    loop {
        action = match action {
            Action::Connect => ch.handle(connect),
            Action::DeclareAndPublish => ch.handle(delivery),
            Action::Finish(r) => return r,
            Action::Wait => panic!("the channel stalled"),
        };
    }
}

#[test]
fn new_channel_is_disconnected() {
    assert_eq!(PublisherChannel::new().state(), ConnectionState::Disconnected);
}

#[test]
fn retries_until_connected_then_acks() {
    let k = 3;
    let mut ch = PublisherChannel::new();
    let mut results = vec![];
    for i in 0..k {
        let failure = if i % 2 == 0 { Event::ConnectFailed } else { Event::ConnectTimedOut };
        results.push(publish(&mut ch, failure, Event::DeliveryConfirmed));
        assert_eq!(ch.state(), ConnectionState::Backoff);
    }
    results.push(publish(&mut ch, Event::ConnectSucceeded, Event::DeliveryConfirmed));
    assert_eq!(ch.state(), ConnectionState::Connected);
    assert_eq!(results.len(), k + 1);
    assert!(results[..k].iter().all(|r| *r == Err(PublishError::Unavailable)));
    assert_eq!(results[k], Ok(Ack {}));
}

#[test]
fn connect_timeout_is_unavailable() {
    let mut ch = PublisherChannel::new();
    assert!(matches!(ch.handle(Event::PublishRequested), Action::Connect));
    assert_eq!(ch.state(), ConnectionState::Connecting);
    let a = ch.handle(Event::ConnectTimedOut);
    assert!(matches!(a, Action::Finish(Err(PublishError::Unavailable))));
    assert_eq!(ch.state(), ConnectionState::Backoff);
}

#[test]
fn connected_channel_publishes_without_reconnecting() {
    let mut ch = PublisherChannel::new();
    assert_eq!(publish(&mut ch, Event::ConnectSucceeded, Event::DeliveryConfirmed), Ok(Ack {}));
    assert!(matches!(ch.handle(Event::PublishRequested), Action::DeclareAndPublish));
}

#[test]
fn delivery_failure_drops_the_connection() {
    let mut ch = PublisherChannel::new();
    let r = publish(&mut ch, Event::ConnectSucceeded, Event::DeliveryFailed);
    assert_eq!(r, Err(PublishError::DeliveryFailed));
    assert_eq!(ch.state(), ConnectionState::Disconnected);
}

#[test]
fn close_disconnects_and_stray_events_wait() {
    let mut ch = PublisherChannel::new();
    assert!(matches!(ch.handle(Event::DeliveryConfirmed), Action::Wait));
    assert_eq!(ch.state(), ConnectionState::Disconnected);
    publish(&mut ch, Event::ConnectSucceeded, Event::DeliveryConfirmed).unwrap();
    assert!(matches!(ch.handle(Event::Closed), Action::Wait));
    assert_eq!(ch.state(), ConnectionState::Disconnected);
}

#[test]
fn unreachable_broker_gives_only_unavailable_ticks() {
    let n = 7;
    let mut ch = PublisherChannel::new();
    let mut stats = LoopStats::new();
    for _ in 0..n {
        let r = publish(&mut ch, Event::ConnectFailed, Event::DeliveryConfirmed);
        stats.record(TickOutcome::Published(r));
    }
    assert_eq!(stats.ticks, n);
    assert_eq!(stats.unavailable, n);
    assert_eq!(stats.acks, 0);
    assert_eq!(stats.delivery_failed, 0);
}

#[test]
fn stats_count_each_outcome() {
    let mut stats = LoopStats::new();
    stats.record(TickOutcome::Published(Ok(Ack {})));
    stats.record(TickOutcome::Published(Err(PublishError::DeliveryFailed)));
    stats.record(TickOutcome::SamplingFailed(
        sysinfo_publisher::snapshot::SamplingError::ClockBeforeEpoch,
    ));
    assert_eq!(
        stats,
        LoopStats { ticks: 3, acks: 1, unavailable: 0, delivery_failed: 1, sampling_failed: 1 }
    );
}
