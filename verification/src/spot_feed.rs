//! The decisions of the live spot-price feed over a WebSocket: what to do
//! on each thing that happens to an open connection. The socket, the
//! broadcast channel and the waiting stay with the caller, which hands each
//! event to `spot_feed_step` and performs the action it gets back.

use vstd::prelude::*;

verus! {

/// Something that happened to an open spot-price connection.
#[derive(Debug)]
pub enum SpotFeedEvent {
    /// The connection was opened; the caller has built the current snapshot.
    Connected(String),
    /// The simulator broadcast a fresh price payload.
    Broadcast(String),
    /// This subscriber fell behind the broadcast buffer and ticks were skipped.
    Lagged,
    /// The broadcast channel closed: no more ticks will come.
    ChannelClosed,
    /// The client closed the socket (a close frame, or the stream ended).
    ClientClose,
    /// Receiving from the client failed.
    ClientError,
    /// The client sent some other message; the feed is read-only.
    ClientOther,
    /// Sending a payload to the client failed.
    SendFailed,
}

/// What the caller does next.
#[derive(Debug)]
pub enum SpotFeedAction {
    /// Send this text frame to the client, then wait for the next event.
    Send(String),
    /// Send nothing and wait for the next event.
    Continue,
    /// End the connection.
    Stop,
}

/// The action owed for each event. A client that lagged behind the buffer
/// is not resynced: the skipped ticks are dropped and the feed carries on
/// with the next broadcast.
pub open spec fn spot_feed_action(e: SpotFeedEvent) -> SpotFeedAction {
    match e {
        SpotFeedEvent::Connected(snapshot) => SpotFeedAction::Send(snapshot),
        SpotFeedEvent::Broadcast(payload) => SpotFeedAction::Send(payload),
        SpotFeedEvent::Lagged => SpotFeedAction::Continue,
        SpotFeedEvent::ChannelClosed => SpotFeedAction::Stop,
        SpotFeedEvent::ClientClose => SpotFeedAction::Stop,
        SpotFeedEvent::ClientError => SpotFeedAction::Stop,
        SpotFeedEvent::ClientOther => SpotFeedAction::Continue,
        SpotFeedEvent::SendFailed => SpotFeedAction::Stop,
    }
}

/// Decides what to do on one event of a spot-price connection.
pub fn spot_feed_step(event: SpotFeedEvent) -> (action: SpotFeedAction)
    ensures
        action == spot_feed_action(event),
{
    match event {
        SpotFeedEvent::Connected(snapshot) => SpotFeedAction::Send(snapshot),
        SpotFeedEvent::Broadcast(payload) => SpotFeedAction::Send(payload),
        SpotFeedEvent::Lagged => SpotFeedAction::Continue,
        SpotFeedEvent::ChannelClosed => SpotFeedAction::Stop,
        SpotFeedEvent::ClientClose => SpotFeedAction::Stop,
        SpotFeedEvent::ClientError => SpotFeedAction::Stop,
        SpotFeedEvent::ClientOther => SpotFeedAction::Continue,
        SpotFeedEvent::SendFailed => SpotFeedAction::Stop,
    }
}

/// The feed is read-only and sends nothing of its own: every frame it sends
/// is, unchanged, the snapshot taken on connect or a broadcast payload, and
/// nothing the client sends other than a close or an error ends it.
pub proof fn lemma_spot_feed_forwards_only(e: SpotFeedEvent)
    ensures
        spot_feed_action(e) matches SpotFeedAction::Send(p) ==> (e == SpotFeedEvent::Connected(p)
            || e == SpotFeedEvent::Broadcast(p)),
        e is ClientOther ==> spot_feed_action(e) is Continue,
        spot_feed_action(e) is Stop <==> (e is ChannelClosed || e is ClientClose
            || e is ClientError || e is SendFailed),
{
}

/// Every tick reaches the client: a broadcast of any payload is sent on
/// as that very payload, and so is the snapshot taken on connect.
pub proof fn lemma_spot_feed_sends_every_payload(payload: String, snapshot: String)
    ensures
        spot_feed_action(SpotFeedEvent::Broadcast(payload)) == SpotFeedAction::Send(payload),
        spot_feed_action(SpotFeedEvent::Connected(snapshot)) == SpotFeedAction::Send(snapshot),
{
}

} // verus!
