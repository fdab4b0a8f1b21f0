//! Transport layer for synchronization.

pub mod client;
pub mod compatibility;
pub mod hybrid;
pub mod integration;
pub mod leptos_ws_pro;
pub mod memory;
pub mod multi;
pub mod websocket;

use std::collections::VecDeque;
use vstd::prelude::*;
use vstd::string::*;

verus! {

/// Transport failures.
#[derive(Debug)]
pub enum TransportError {
    ConnectionFailed(String),
    SendFailed(String),
    ReceiveFailed(String),
    SerializationFailed(String),
    NotConnected,
}

impl TransportError {
    /// The text the error displays.
    pub open spec fn message_text(&self) -> Seq<char> {
        match self {
            TransportError::ConnectionFailed(s) => "Connection failed: "@ + s@,
            TransportError::SendFailed(s) => "Send failed: "@ + s@,
            TransportError::ReceiveFailed(s) => "Receive failed: "@ + s@,
            TransportError::SerializationFailed(s) => "Serialization failed: "@ + s@,
            TransportError::NotConnected => "Not connected"@,
        }
    }

    /// The text the error displays.
    pub fn message(&self) -> (r: String)
        ensures
            r@ == self.message_text(),
            r@ == match self {
                TransportError::ConnectionFailed(s) => "Connection failed: "@ + s@,
                TransportError::SendFailed(s) => "Send failed: "@ + s@,
                TransportError::ReceiveFailed(s) => "Receive failed: "@ + s@,
                TransportError::SerializationFailed(s) => "Serialization failed: "@ + s@,
                TransportError::NotConnected => "Not connected"@,
            },
    {
        match self {
            TransportError::ConnectionFailed(s) => String::from_str("Connection failed: ").concat(
                s.as_str(),
            ),
            TransportError::SendFailed(s) => String::from_str("Send failed: ").concat(s.as_str()),
            TransportError::ReceiveFailed(s) => String::from_str("Receive failed: ").concat(
                s.as_str(),
            ),
            TransportError::SerializationFailed(s) => String::from_str(
                "Serialization failed: ",
            ).concat(s.as_str()),
            TransportError::NotConnected => String::from_str("Not connected"),
        }
    }
}

/// What sends and receives raw messages between replicas.
pub trait SyncTransport: Sized {
    spec fn spec_connected(&self) -> bool;

    /// What a send of `data` does: `after` is the transport afterwards and
    /// `r` the answer.
    spec fn send_outcome(&self, data: Seq<u8>, after: Self, r: Result<(), TransportError>) -> bool;

    /// What a receive does: `after` is the transport afterwards and `r` the
    /// answer.
    spec fn receive_outcome(&self, after: Self, r: Result<Vec<Vec<u8>>, TransportError>) -> bool;

    /// Send data to remote peers.
    fn send(&mut self, data: &[u8]) -> (r: Result<(), TransportError>)
        ensures
            old(self).send_outcome(data@, *final(self), r),
    ;

    /// Receive the data that arrived from remote peers.
    fn receive(&mut self) -> (r: Result<Vec<Vec<u8>>, TransportError>)
        ensures
            old(self).receive_outcome(*final(self), r),
    ;

    /// Check if transport is connected.
    fn is_connected(&self) -> (r: bool)
        ensures
            r == self.spec_connected(),
    ;
}

/// The byte contents of a sequence of messages.
pub open spec fn bytes_of(msgs: Seq<Vec<u8>>) -> Seq<Seq<u8>> {
    msgs.map_values(|m: Vec<u8>| m@)
}

/// Takes every message out of a queue, oldest first.
pub fn drain_queue(queue: &mut VecDeque<Vec<u8>>) -> (r: Vec<Vec<u8>>)
    ensures
        r@ == old(queue)@,
        final(queue)@ == Seq::<Vec<u8>>::empty(),
{
    let mut out: Vec<Vec<u8>> = Vec::new();
    while queue.len() > 0
        invariant
            out@ + queue@ == old(queue)@,
        decreases queue@.len(),
    {
        let ghost before = queue@;
        match queue.pop_front() {
            Some(m) => {
                out.push(m);
                assert(out@ + queue@ =~= old(queue)@) by {
                    assert(before =~= seq![m] + queue@);
                }
            },
            None => {},
        }
    }
    assert(out@ =~= old(queue)@);
    out
}

/// Transport configuration (durations in milliseconds).
#[derive(Clone, Debug, PartialEq, Eq)]
pub struct TransportConfig {
    pub url: Option<String>,
    pub timeout_ms: u64,
    pub retry_attempts: u32,
    pub heartbeat_interval_ms: u64,
}

impl Default for TransportConfig {
    fn default() -> (r: Self)
        ensures
            r.url is None,
            r.timeout_ms == 30_000,
            r.retry_attempts == 3,
            r.heartbeat_interval_ms == 30_000,
    {
        TransportConfig {
            url: None,
            timeout_ms: 30_000,
            retry_attempts: 3,
            heartbeat_interval_ms: 30_000,
        }
    }
}

/// Builds the transports.
pub struct TransportFactory;

impl TransportFactory {
    pub fn websocket(url: String) -> (r: websocket::WebSocketTransport)
        ensures
            r.spec_url() == url@,
            r.spec_state() == websocket::ConnectionState::Disconnected,
    {
        websocket::WebSocketTransport::new(url)
    }

    pub fn leptos_ws_pro(config: leptos_ws_pro::LeptosWsProConfig) -> (r: hybrid::HybridTransport)
        ensures
            r matches hybrid::HybridTransport::LeptosWsPro(t) && t.spec_config() == config,
    {
        hybrid::HybridTransport::with_leptos_ws_pro(config)
    }

    pub fn compatibility(config: leptos_ws_pro::LeptosWsProConfig) -> (r: hybrid::HybridTransport)
        ensures
            r matches hybrid::HybridTransport::Compatibility(c) && c.spec_transport().spec_config()
                == config,
    {
        hybrid::HybridTransport::with_compatibility(config)
    }

    pub fn in_memory() -> (r: memory::InMemoryTransport)
        ensures
            r.spec_is_connected(),
            r.queue() == Seq::<Seq<u8>>::empty(),
    {
        memory::InMemoryTransport::new()
    }

    /// A leptos-ws-pro transport to the URL with an in-memory fallback.
    pub fn hybrid(primary_url: String) -> (r: hybrid::HybridTransport)
        ensures
            r matches hybrid::HybridTransport::Fallback { primary, fallback } && (*primary matches hybrid::HybridTransport::LeptosWsPro(
                t,
            ) && t.spec_config().url == primary_url && t.spec_config().max_reconnect_attempts == 5)
                && (*fallback matches hybrid::HybridTransport::InMemory(m) && m.spec_is_connected()),
    {
        let primary = hybrid::HybridTransport::with_leptos_ws_pro(
            leptos_ws_pro::LeptosWsProConfig::with_url(primary_url),
        );
        let fallback = hybrid::HybridTransport::with_in_memory();
        hybrid::HybridTransport::with_fallback(primary, fallback)
    }
}

} // verus!
