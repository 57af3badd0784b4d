//! The decisions of the publisher channel: a state machine from the events of
//! its connection to the next thing to do. Connecting, declaring the queue and
//! publishing are done by the caller, which hands back what came of them.
use vstd::prelude::*;

verus! {

/// Where the channel's connection to the broker stands.
#[derive(Clone, Copy, Debug, PartialEq, Eq, Structural)]
pub enum ConnectionState {
    Disconnected,
    Connecting,
    Connected,
    /// The last connect failed; the next publish tries again.
    Backoff,
}

/// The broker confirmed that it took the message.
#[derive(Clone, Copy, Debug, PartialEq, Eq, Structural)]
pub struct Ack {}

/// Why a message was not delivered.
#[derive(Clone, Copy, Debug, PartialEq, Eq, Structural)]
pub enum PublishError {
    /// No connection could be made, or none in time.
    Unavailable,
    /// The connection broke, or the broker did not confirm the message.
    DeliveryFailed,
}

/// What happened, as the caller reports it.
#[derive(Clone, Copy, Debug, PartialEq, Eq, Structural)]
pub enum Event {
    PublishRequested,
    ConnectSucceeded,
    ConnectFailed,
    ConnectTimedOut,
    DeliveryConfirmed,
    DeliveryFailed,
    Closed,
}

/// What the caller is to do next.
#[derive(Clone, Copy, Debug)]
pub enum Action {
    /// Open a connection, bounded by the connect timeout.
    Connect,
    /// Declare the queue and publish the message, awaiting the broker's confirmation.
    DeclareAndPublish,
    /// The publish is over, with this result.
    Finish(Result<Ack, PublishError>),
    /// Nothing: the event does not bear on the current state.
    Wait,
}

/// The transition of the channel on one event.
pub open spec fn next(state: ConnectionState, event: Event) -> (ConnectionState, Action) {
    match (state, event) {
        (_, Event::Closed) => (ConnectionState::Disconnected, Action::Wait),
        (ConnectionState::Disconnected, Event::PublishRequested) => (
            ConnectionState::Connecting,
            Action::Connect,
        ),
        (ConnectionState::Backoff, Event::PublishRequested) => (
            ConnectionState::Connecting,
            Action::Connect,
        ),
        (ConnectionState::Connected, Event::PublishRequested) => (
            ConnectionState::Connected,
            Action::DeclareAndPublish,
        ),
        (ConnectionState::Connecting, Event::ConnectSucceeded) => (
            ConnectionState::Connected,
            Action::DeclareAndPublish,
        ),
        (ConnectionState::Connecting, Event::ConnectFailed) => (
            ConnectionState::Backoff,
            Action::Finish(Err(PublishError::Unavailable)),
        ),
        (ConnectionState::Connecting, Event::ConnectTimedOut) => (
            ConnectionState::Backoff,
            Action::Finish(Err(PublishError::Unavailable)),
        ),
        (ConnectionState::Connected, Event::DeliveryConfirmed) => (
            ConnectionState::Connected,
            Action::Finish(Ok(Ack {  })),
        ),
        (ConnectionState::Connected, Event::DeliveryFailed) => (
            ConnectionState::Disconnected,
            Action::Finish(Err(PublishError::DeliveryFailed)),
        ),
        (s, _) => (s, Action::Wait),
    }
}

/// The channel: the one owner of the connection state.
pub struct PublisherChannel {
    state: ConnectionState,
}

impl View for PublisherChannel {
    type V = ConnectionState;

    closed spec fn view(&self) -> ConnectionState {
        self.state
    }
}

impl PublisherChannel {
    /// A channel with no connection yet.
    pub fn new() -> (r: PublisherChannel)
        ensures
            r@ == ConnectionState::Disconnected,
    {
        PublisherChannel { state: ConnectionState::Disconnected }
    }

    pub fn state(&self) -> (r: ConnectionState)
        ensures
            r == self@,
    {
        self.state
    }

    /// Takes one event and says what to do next.
    pub fn handle(&mut self, event: Event) -> (r: Action)
        ensures
            (final(self)@, r) == next(old(self)@, event),
    {
        let (s, a) = match (self.state, event) {
            (_, Event::Closed) => (ConnectionState::Disconnected, Action::Wait),
            (ConnectionState::Disconnected, Event::PublishRequested) => (
                ConnectionState::Connecting,
                Action::Connect,
            ),
            (ConnectionState::Backoff, Event::PublishRequested) => (
                ConnectionState::Connecting,
                Action::Connect,
            ),
            (ConnectionState::Connected, Event::PublishRequested) => (
                ConnectionState::Connected,
                Action::DeclareAndPublish,
            ),
            (ConnectionState::Connecting, Event::ConnectSucceeded) => (
                ConnectionState::Connected,
                Action::DeclareAndPublish,
            ),
            (ConnectionState::Connecting, Event::ConnectFailed) => (
                ConnectionState::Backoff,
                Action::Finish(Err(PublishError::Unavailable)),
            ),
            (ConnectionState::Connecting, Event::ConnectTimedOut) => (
                ConnectionState::Backoff,
                Action::Finish(Err(PublishError::Unavailable)),
            ),
            (ConnectionState::Connected, Event::DeliveryConfirmed) => (
                ConnectionState::Connected,
                Action::Finish(Ok(Ack {  })),
            ),
            (ConnectionState::Connected, Event::DeliveryFailed) => (
                ConnectionState::Disconnected,
                Action::Finish(Err(PublishError::DeliveryFailed)),
            ),
            (s, _) => (s, Action::Wait),
        };
        self.state = s;
        a
    }
}

/// How the broker answers during one publish.
#[derive(Clone, Copy, Debug, PartialEq, Eq, Structural)]
pub enum BrokerReply {
    /// It refuses the connection.
    Refuses,
    /// The connect does not return within the timeout.
    TimesOut,
    /// It takes the connection (or it is already open) and confirms the message or not.
    Accepts { confirms: bool },
}

pub open spec fn connect_event(b: BrokerReply) -> Event {
    match b {
        BrokerReply::Refuses => Event::ConnectFailed,
        BrokerReply::TimesOut => Event::ConnectTimedOut,
        BrokerReply::Accepts { .. } => Event::ConnectSucceeded,
    }
}

pub open spec fn delivery_event(b: BrokerReply) -> Event {
    match b {
        BrokerReply::Accepts { confirms: true } => Event::DeliveryConfirmed,
        _ => Event::DeliveryFailed,
    }
}

/// One publish, driven to its end as the caller drives it: a request, a
/// connect where the channel asks for one, then the delivery where it asks for it.
pub open spec fn publish_once(s: ConnectionState, b: BrokerReply) -> (
    ConnectionState,
    Result<Ack, PublishError>,
) {
    let (s1, a1) = next(s, Event::PublishRequested);
    let (s2, a2) = if a1 == Action::Connect {
        next(s1, connect_event(b))
    } else {
        (s1, a1)
    };
    let (s3, a3) = if a2 == Action::DeclareAndPublish {
        next(s2, delivery_event(b))
    } else {
        (s2, a2)
    };
    match a3 {
        Action::Finish(r) => (s3, r),
        _ => (s3, Err(PublishError::Unavailable)),
    }
}

/// A run of publishes, one per tick: the state at the end and each result.
pub open spec fn run(s: ConnectionState, bs: Seq<BrokerReply>) -> (
    ConnectionState,
    Seq<Result<Ack, PublishError>>,
)
    decreases bs.len(),
{
    if bs.len() == 0 {
        (s, Seq::empty())
    } else {
        let (s1, rs) = run(s, bs.drop_last());
        let (s2, r) = publish_once(s1, bs.last());
        (s2, rs.push(r))
    }
}

pub open spec fn unreachable(b: BrokerReply) -> bool {
    b == BrokerReply::Refuses || b == BrokerReply::TimesOut
}

pub open spec fn all_unavailable(n: nat) -> Seq<Result<Ack, PublishError>> {
    Seq::new(n, |i: int| Err(PublishError::Unavailable))
}

/// A connect that times out ends the publish at once as unavailable, and the
/// channel waits for the next publish to try again.
pub proof fn lemma_timeout_is_unavailable(s: ConnectionState)
    requires
        s != ConnectionState::Connected,
        s != ConnectionState::Connecting,
    ensures
        publish_once(s, BrokerReply::TimesOut) == (
            ConnectionState::Backoff,
            Err::<Ack, PublishError>(PublishError::Unavailable),
        ),
        next(ConnectionState::Connecting, Event::ConnectTimedOut) == (
            ConnectionState::Backoff,
            Action::Finish(Err(PublishError::Unavailable)),
        ),
{
}

/// While the broker cannot be reached, every publish is unavailable: n ticks
/// give n `Unavailable` results and no `Ack`, and the channel is never connected.
pub proof fn lemma_unreachable_broker(bs: Seq<BrokerReply>)
    requires
        forall|i: int| 0 <= i < bs.len() ==> unreachable(#[trigger] bs[i]),
    ensures
        run(ConnectionState::Disconnected, bs).1 == all_unavailable(bs.len()),
        bs.len() == 0 ==> run(ConnectionState::Disconnected, bs).0 == ConnectionState::Disconnected,
        bs.len() > 0 ==> run(ConnectionState::Disconnected, bs).0 == ConnectionState::Backoff,
    decreases bs.len(),
{
    if bs.len() > 0 {
        lemma_unreachable_broker(bs.drop_last());
        assert(unreachable(bs[bs.len() - 1]));
        assert(all_unavailable((bs.len() - 1) as nat).push(Err(PublishError::Unavailable))
            =~= all_unavailable(bs.len()));
    } else {
        assert(all_unavailable(0) =~= Seq::empty());
    }
}

/// A broker that cannot be reached for k publishes and then takes and confirms
/// the message: the channel gives k `Unavailable` results, then connects and
/// returns `Ack` on that first successful attempt.
pub proof fn lemma_retry_until_connected(fails: Seq<BrokerReply>)
    requires
        forall|i: int| 0 <= i < fails.len() ==> unreachable(#[trigger] fails[i]),
    ensures
        run(ConnectionState::Disconnected, fails.push(BrokerReply::Accepts { confirms: true }))
            == (
            ConnectionState::Connected,
            all_unavailable(fails.len()).push(Ok::<Ack, PublishError>(Ack {  })),
        ),
{
    lemma_unreachable_broker(fails);
    let bs = fails.push(BrokerReply::Accepts { confirms: true });
    assert(bs.drop_last() =~= fails);
}

} // verus!
