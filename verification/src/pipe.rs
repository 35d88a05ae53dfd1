//! The life of one WebSocket connection through the proxy, as a machine
//! from state and event to next state and action. The caller performs the
//! action and reports what happened next.

use vstd::prelude::*;
use vstd::string::*;
use crate::proxy::{protocol_name, ProxyRequest, ProxyRequestView};
use crate::text::{decimal, decimal_string, texts};
use crate::registry::{consumer_label, Consumer, ConsumerView};

verus! {

/// Where a connection stands.
#[derive(Debug, Clone, Copy, PartialEq, Eq, Structural)]
pub enum PipeState {
    /// The upgrade was answered; the backend is not connected yet.
    Upgrading,
    /// Both directions are open. `held` says that a frame of the client
    /// waits for its tokens.
    Open { held: bool },
    /// The connection is over.
    Closed,
}

/// What happened on a connection.
#[derive(Debug, Clone, Copy, PartialEq, Eq, Structural)]
pub enum PipeEvent {
    /// The upgrade completed and the backend accepted the connection.
    Connected,
    /// The upgrade or the connection to the backend failed.
    ConnectFailed,
    /// A frame arrived from the client.
    ClientFrame,
    /// One token was taken from every bucket of the consumer.
    TokensTaken,
    /// The limiter refused: the port is gone or its tier is not usable.
    LimiterFailed,
    /// A frame arrived from the backend.
    TargetFrame,
    /// One direction ended: its stream closed or failed, or a send failed.
    HalfEnded,
}

/// What to do next.
#[derive(Debug, Clone, Copy, PartialEq, Eq, Structural)]
pub enum PipeAction {
    /// Nothing.
    Idle,
    /// Increment the gauge of open connections.
    OpenGauge,
    /// Take one token from every bucket of the consumer, then report.
    Acquire,
    /// Send the held frame to the backend.
    ForwardToTarget,
    /// Count the frame and send it to the client.
    CountAndForwardToClient,
    /// Stop both directions and decrement the gauge of open connections.
    CloseGauge,
}

/// The next state and the action for an event.
pub open spec fn step_of(state: PipeState, event: PipeEvent) -> (PipeState, PipeAction) {
    match state {
        PipeState::Upgrading => match event {
            PipeEvent::Connected => (PipeState::Open { held: false }, PipeAction::OpenGauge),
            PipeEvent::ConnectFailed => (PipeState::Closed, PipeAction::Idle),
            _ => (state, PipeAction::Idle),
        },
        PipeState::Open { held } => match event {
            PipeEvent::ClientFrame => if held {
                (state, PipeAction::Idle)
            } else {
                (PipeState::Open { held: true }, PipeAction::Acquire)
            },
            PipeEvent::TokensTaken => if held {
                (PipeState::Open { held: false }, PipeAction::ForwardToTarget)
            } else {
                (state, PipeAction::Idle)
            },
            PipeEvent::LimiterFailed => if held {
                (PipeState::Closed, PipeAction::CloseGauge)
            } else {
                (state, PipeAction::Idle)
            },
            PipeEvent::TargetFrame => (state, PipeAction::CountAndForwardToClient),
            PipeEvent::HalfEnded => (PipeState::Closed, PipeAction::CloseGauge),
            _ => (state, PipeAction::Idle),
        },
        PipeState::Closed => (state, PipeAction::Idle),
    }
}

/// Takes one step of a connection.
pub fn step(state: PipeState, event: PipeEvent) -> (r: (PipeState, PipeAction))
    ensures
        r == step_of(state, event),
{
    match state {
        PipeState::Upgrading => match event {
            PipeEvent::Connected => (PipeState::Open { held: false }, PipeAction::OpenGauge),
            PipeEvent::ConnectFailed => (PipeState::Closed, PipeAction::Idle),
            _ => (state, PipeAction::Idle),
        },
        PipeState::Open { held } => match event {
            PipeEvent::ClientFrame => if held {
                (state, PipeAction::Idle)
            } else {
                (PipeState::Open { held: true }, PipeAction::Acquire)
            },
            PipeEvent::TokensTaken => if held {
                (PipeState::Open { held: false }, PipeAction::ForwardToTarget)
            } else {
                (state, PipeAction::Idle)
            },
            PipeEvent::LimiterFailed => if held {
                (PipeState::Closed, PipeAction::CloseGauge)
            } else {
                (state, PipeAction::Idle)
            },
            PipeEvent::TargetFrame => (state, PipeAction::CountAndForwardToClient),
            PipeEvent::HalfEnded => (PipeState::Closed, PipeAction::CloseGauge),
            _ => (state, PipeAction::Idle),
        },
        PipeState::Closed => (state, PipeAction::Idle),
    }
}

/// The state of a fresh connection after a run of events.
pub open spec fn state_after(events: Seq<PipeEvent>) -> PipeState
    decreases events.len(),
{
    if events.len() == 0 {
        PipeState::Upgrading
    } else {
        step_of(state_after(events.drop_last()), events.last()).0
    }
}

/// The action that the last event of a run leads to.
pub open spec fn last_action(events: Seq<PipeEvent>) -> PipeAction
    recommends
        events.len() > 0,
{
    step_of(state_after(events.drop_last()), events.last()).1
}

/// How often a run of events led to the action `a`.
pub open spec fn times(events: Seq<PipeEvent>, a: PipeAction) -> nat
    decreases events.len(),
{
    if events.len() == 0 {
        0
    } else {
        times(events.drop_last(), a) + if last_action(events) == a {
            1nat
        } else {
            0nat
        }
    }
}

/// The gauge of open connections is in balance: whatever happens on a
/// connection, the gauge is incremented at most once, never decremented
/// before, and decremented exactly once when an opened connection is over.
pub proof fn lemma_gauge_balance(events: Seq<PipeEvent>)
    ensures
        match state_after(events) {
            PipeState::Upgrading => times(events, PipeAction::OpenGauge) == 0 && times(
                events,
                PipeAction::CloseGauge,
            ) == 0,
            PipeState::Open { held } => times(events, PipeAction::OpenGauge) == 1 && times(
                events,
                PipeAction::CloseGauge,
            ) == 0,
            PipeState::Closed => times(events, PipeAction::OpenGauge) == times(
                events,
                PipeAction::CloseGauge,
            ) && times(events, PipeAction::OpenGauge) <= 1,
        },
    decreases events.len(),
{
    if events.len() > 0 {
        lemma_gauge_balance(events.drop_last());
    }
}

/// No frame of the client goes to the backend but in answer to the report
/// that its tokens were taken, and that report is the answer to the one
/// `Acquire` that the frame led to: frames sent on never outnumber the
/// acquisitions, and a frame is held exactly while the two numbers differ.
pub proof fn lemma_frame_after_tokens(events: Seq<PipeEvent>)
    ensures
        events.len() > 0 && last_action(events) == PipeAction::ForwardToTarget ==> events.last()
            == PipeEvent::TokensTaken && state_after(events.drop_last()) == (PipeState::Open {
            held: true,
        }),
        times(events, PipeAction::ForwardToTarget) <= times(events, PipeAction::Acquire),
        state_after(events) == (PipeState::Open { held: true }) ==> times(
            events,
            PipeAction::ForwardToTarget,
        ) + 1 == times(events, PipeAction::Acquire),
        state_after(events) == (PipeState::Open { held: false }) ==> times(
            events,
            PipeAction::ForwardToTarget,
        ) == times(events, PipeAction::Acquire),
        state_after(events) == PipeState::Upgrading ==> times(events, PipeAction::Acquire) == 0,
    decreases events.len(),
{
    if events.len() > 0 {
        lemma_frame_after_tokens(events.drop_last());
    }
}

/// Once a connection is over nothing more is done for it.
pub proof fn lemma_closed_is_final(event: PipeEvent)
    ensures
        step_of(PipeState::Closed, event) == (PipeState::Closed, PipeAction::Idle),
{
}

/// The labels of a connection in the WebSocket metrics: namespace,
/// instance, route, consumer and tier. A request without a consumer is
/// labelled with an empty consumer.
pub open spec fn ws_labels_of(req: ProxyRequestView) -> Seq<Seq<char>> {
    let consumer = label_consumer(req.consumer);
    seq![req.namespace, req.instance, req.host, consumer_label(consumer), consumer.tier]
}

/// The consumer that labels a request: its own, or the empty one.
pub open spec fn label_consumer(consumer: Option<ConsumerView>) -> ConsumerView {
    match consumer {
        Some(c) => c,
        None => ConsumerView {
            namespace: Seq::<char>::empty(),
            port_name: Seq::<char>::empty(),
            tier: Seq::<char>::empty(),
            key: Seq::<char>::empty(),
            hash_key: Seq::<char>::empty(),
        },
    }
}

/// The consumer that labels a request, owned.
fn consumer_for_labels(req: &ProxyRequest) -> (r: Consumer)
    ensures
        r@ == label_consumer(req@.consumer),
{
    match &req.consumer {
        Some(c) => c.clone(),
        None => Consumer::default(),
    }
}

/// The labels under which a connection is counted, when its gauge is
/// incremented, when it is decremented, and for each of its frames.
pub fn ws_labels(req: &ProxyRequest) -> (r: Vec<String>)
    ensures
        texts(r@) == ws_labels_of(req@),
{
    let consumer: Consumer = consumer_for_labels(req);
    let mut out: Vec<String> = Vec::new();
    out.push(req.namespace.clone());
    out.push(req.instance.clone());
    out.push(req.host.clone());
    out.push(consumer.to_string());
    out.push(consumer.tier.clone());
    assert(texts(out@) =~= ws_labels_of(req@));
    out
}

/// The labels of a completed request in the HTTP metrics: namespace,
/// instance, route, status code, protocol, consumer and tier.
pub open spec fn http_labels_of(req: ProxyRequestView, status_code: u16) -> Seq<Seq<char>> {
    let consumer = label_consumer(req.consumer);
    seq![
        req.namespace,
        req.instance,
        req.host,
        decimal(status_code as nat),
        protocol_name(req.protocol),
        consumer_label(consumer),
        consumer.tier,
    ]
}

/// The labels under which a completed request is counted.
pub fn http_labels(req: &ProxyRequest, status_code: u16) -> (r: Vec<String>)
    ensures
        texts(r@) == http_labels_of(req@, status_code),
{
    let consumer: Consumer = consumer_for_labels(req);
    let mut out: Vec<String> = Vec::new();
    out.push(req.namespace.clone());
    out.push(req.instance.clone());
    out.push(req.host.clone());
    out.push(decimal_string(status_code as u64));
    out.push(req.protocol.to_string());
    out.push(consumer.to_string());
    out.push(consumer.tier.clone());
    assert(texts(out@) =~= http_labels_of(req@, status_code));
    out
}

/// The headers of the answer to an upgrade, in order: `Connection:
/// Upgrade`, `Upgrade: websocket` and `Sec-WebSocket-Accept` with the
/// accept key derived from the client's key.
pub fn upgrade_headers(accept: &str) -> (r: Vec<(String, String)>)
    ensures
        r@.len() == 3,
        r@[0].0@ == "connection"@ && r@[0].1@ == "Upgrade"@,
        r@[1].0@ == "upgrade"@ && r@[1].1@ == "websocket"@,
        r@[2].0@ == "sec-websocket-accept"@ && r@[2].1@ == accept@,
{
    let mut out: Vec<(String, String)> = Vec::new();
    out.push(("connection".to_owned(), "Upgrade".to_owned()));
    out.push(("upgrade".to_owned(), "websocket".to_owned()));
    out.push(("sec-websocket-accept".to_owned(), accept.to_owned()));
    out
}

/// The accept key that the WebSocket handshake derives from the key of
/// the client.
pub uninterp spec fn websocket_accept(client_key: Seq<u8>) -> Seq<char>;

/// Calls `derive_accept_key` of `tungstenite`. The accept key depends on
/// the key of the client alone.
#[verifier::external_body]
fn derive_accept(client_key: &[u8]) -> (r: String)
    ensures
        r@ == websocket_accept(client_key@),
{
    tokio_tungstenite::tungstenite::handshake::derive_accept_key(client_key)
}

/// The headers of the answer to an upgrade whose request carried the key
/// `client_key`, or `None` where the request carried no key.
pub fn upgrade_answer(client_key: Option<&[u8]>) -> (r: Option<Vec<(String, String)>>)
    ensures
        match r {
            Some(h) => client_key is Some && h@.len() == 3 && h@[0].0@ == "connection"@ && h@[0].1@
                == "Upgrade"@ && h@[1].0@ == "upgrade"@ && h@[1].1@ == "websocket"@ && h@[2].0@
                == "sec-websocket-accept"@ && h@[2].1@ == websocket_accept(client_key->0@),
            None => client_key is None,
        },
{
    match client_key {
        Some(key) => {
            let accept: String = derive_accept(key);
            Some(upgrade_headers(accept.as_str()))
        },
        None => None,
    }
}

/// The status code of the answer to an upgrade: `101 Switching Protocols`.
pub const SWITCHING_PROTOCOLS: u16 = 101;

/// The address of the backend's WebSocket: `ws://{instance}{uri}`.
pub open spec fn backend_url(instance: Seq<char>, uri: Seq<char>) -> Seq<char> {
    "ws://"@ + instance + uri
}

/// Builds the address of the backend's WebSocket.
pub fn build_backend_url(instance: &str, uri: &str) -> (r: String)
    ensures
        r@ == backend_url(instance@, uri@),
{
    let mut out: String = String::from_str("ws://");
    out.append(instance);
    out.append(uri);
    out
}

} // verus!
