//! The leptos-ws-pro style WebSocket transport and the adapter that speaks
//! the JSON message protocol over it.

use super::websocket::{ConnectReport, ConnectionState};
use super::{bytes_of, drain_queue, SyncTransport, TransportError};
use std::collections::VecDeque;
use crate::text::{seq_contains_seq, str_contains};
use vstd::prelude::*;
use vstd::slice::slice_to_vec;
use vstd::string::*;

verus! {

/// Errors of the leptos-ws-pro transport.
#[derive(Debug)]
pub enum LeptosWsProError {
    ConnectionFailed(String),
    SendFailed(String),
    ReceiveFailed(String),
    SerializationFailed(String),
    NotConnected,
    WebSocketError(String),
}

impl LeptosWsProError {
    pub open spec fn spec_to_transport(self) -> TransportError {
        match self {
            LeptosWsProError::ConnectionFailed(m) => TransportError::ConnectionFailed(m),
            LeptosWsProError::SendFailed(m) => TransportError::SendFailed(m),
            LeptosWsProError::ReceiveFailed(m) => TransportError::ReceiveFailed(m),
            LeptosWsProError::SerializationFailed(m) => TransportError::SerializationFailed(m),
            LeptosWsProError::NotConnected => TransportError::NotConnected,
            LeptosWsProError::WebSocketError(m) => TransportError::ConnectionFailed(m),
        }
    }
}

impl From<LeptosWsProError> for TransportError {
    fn from(err: LeptosWsProError) -> (r: Self) {
        match err {
            LeptosWsProError::ConnectionFailed(msg) => TransportError::ConnectionFailed(msg),
            LeptosWsProError::SendFailed(msg) => TransportError::SendFailed(msg),
            LeptosWsProError::ReceiveFailed(msg) => TransportError::ReceiveFailed(msg),
            LeptosWsProError::SerializationFailed(msg) => TransportError::SerializationFailed(msg),
            LeptosWsProError::NotConnected => TransportError::NotConnected,
            LeptosWsProError::WebSocketError(msg) => TransportError::ConnectionFailed(msg),
        }
    }
}

impl vstd::std_specs::convert::FromSpecImpl<LeptosWsProError> for TransportError {
    open spec fn obeys_from_spec() -> bool {
        true
    }

    open spec fn from_spec(v: LeptosWsProError) -> TransportError {
        v.spec_to_transport()
    }
}

/// Configuration for the leptos-ws-pro transport (durations in milliseconds).
#[derive(Debug, PartialEq, Eq)]
pub struct LeptosWsProConfig {
    pub url: String,
    pub timeout_ms: u64,
    pub max_reconnect_attempts: usize,
    pub heartbeat_interval_ms: u64,
    pub connection_timeout_ms: u64,
    pub retry_delay_ms: u64,
}

impl Clone for LeptosWsProConfig {
    fn clone(&self) -> (r: Self)
        ensures
            r == *self,
    {
        LeptosWsProConfig {
            url: self.url.clone(),
            timeout_ms: self.timeout_ms,
            max_reconnect_attempts: self.max_reconnect_attempts,
            heartbeat_interval_ms: self.heartbeat_interval_ms,
            connection_timeout_ms: self.connection_timeout_ms,
            retry_delay_ms: self.retry_delay_ms,
        }
    }
}

impl LeptosWsProConfig {
    /// The default settings with the given URL.
    pub fn with_url(url: String) -> (r: Self)
        ensures
            r.url == url,
            r.timeout_ms == 30_000,
            r.max_reconnect_attempts == 5,
            r.heartbeat_interval_ms == 30_000,
            r.connection_timeout_ms == 10_000,
            r.retry_delay_ms == 1000,
    {
        LeptosWsProConfig {
            url,
            timeout_ms: 30_000,
            max_reconnect_attempts: 5,
            heartbeat_interval_ms: 30_000,
            connection_timeout_ms: 10_000,
            retry_delay_ms: 1000,
        }
    }
}

impl Default for LeptosWsProConfig {
    fn default() -> (r: Self)
        ensures
            r.url@ == "ws://localhost:8080"@,
            r.timeout_ms == 30_000,
            r.max_reconnect_attempts == 5,
            r.heartbeat_interval_ms == 30_000,
            r.connection_timeout_ms == 10_000,
            r.retry_delay_ms == 1000,
    {
        Self::with_url(String::from_str("ws://localhost:8080"))
    }
}

/// How long one connection attempt takes, in milliseconds.
pub const ATTEMPT_MS: u64 = 100;

/// The servers that refuse connections: URLs naming an invalid host or port 9999.
pub open spec fn url_refused(url: Seq<char>) -> bool {
    seq_contains_seq(url, "invalid"@) || seq_contains_seq(url, "9999"@)
}

/// The waits of `n` failed attempts each followed by a retry delay.
pub open spec fn retry_waits(n: nat, delay: u64) -> Seq<u64> {
    Seq::new(2 * n, |i: int| if i % 2 == 0 { ATTEMPT_MS } else { delay })
}

/// leptos-ws-pro based WebSocket transport. While connected, what is sent
/// comes back from the server (an echo) and is handed out by `receive`.
#[derive(Debug)]
pub struct LeptosWsProTransport {
    config: LeptosWsProConfig,
    connection_state: ConnectionState,
    message_queue: VecDeque<Vec<u8>>,
}

impl LeptosWsProTransport {
    pub closed spec fn spec_config(&self) -> LeptosWsProConfig {
        self.config
    }

    pub closed spec fn spec_state(&self) -> ConnectionState {
        self.connection_state
    }

    pub closed spec fn queue(&self) -> Seq<Seq<u8>> {
        bytes_of(self.message_queue@)
    }

    pub fn new(config: LeptosWsProConfig) -> (r: Self)
        ensures
            r.spec_config() == config,
            r.spec_state() == ConnectionState::Disconnected,
            r.queue() == Seq::<Seq<u8>>::empty(),
    {
        let r = LeptosWsProTransport {
            config,
            connection_state: ConnectionState::Disconnected,
            message_queue: VecDeque::new(),
        };
        assert(r.queue() =~= Seq::<Seq<u8>>::empty());
        r
    }

    pub fn with_url(url: String) -> (r: Self)
        ensures
            r.spec_config().url == url,
            r.spec_config().max_reconnect_attempts == 5,
            r.spec_config().retry_delay_ms == 1000,
            r.spec_config().heartbeat_interval_ms == 30_000,
            r.spec_state() == ConnectionState::Disconnected,
            r.queue() == Seq::<Seq<u8>>::empty(),
    {
        Self::new(LeptosWsProConfig::with_url(url))
    }

    pub fn url(&self) -> (r: &str)
        ensures
            r@ == self.spec_config().url@,
    {
        self.config.url.as_str()
    }

    pub fn heartbeat_interval_ms(&self) -> (r: u64)
        ensures
            r == self.spec_config().heartbeat_interval_ms,
    {
        self.config.heartbeat_interval_ms
    }

    pub fn connection_state(&self) -> (r: ConnectionState)
        ensures
            r == self.spec_state(),
    {
        self.connection_state
    }

    /// One connection attempt (it takes `ATTEMPT_MS`): refused by servers
    /// whose URL names an invalid host or port 9999.
    pub fn attempt_connection(&self) -> (r: Result<(), LeptosWsProError>)
        ensures
            !url_refused(self.spec_config().url@) ==> r is Ok,
            url_refused(self.spec_config().url@) ==> (r matches Err(
                LeptosWsProError::ConnectionFailed(m),
            ) && m@ == "Connection refused"@),
    {
        let url = self.config.url.as_str();
        if str_contains(url, "invalid") || str_contains(url, "9999") {
            Err(LeptosWsProError::ConnectionFailed(String::from_str("Connection refused")))
        } else {
            Ok(())
        }
    }

    /// Connects, retrying up to the configured number of attempts with the
    /// configured delay between attempts.
    pub fn connect(&mut self) -> (r: ConnectReport<LeptosWsProError>)
        ensures
            final(self).spec_config() == old(self).spec_config(),
            final(self).queue() == old(self).queue(),
            old(self).spec_state() == ConnectionState::Connected ==> r.result is Ok
                && r.waits_ms@.len() == 0 && final(self).spec_state() == ConnectionState::Connected,
            old(self).spec_state() != ConnectionState::Connected
                && old(self).spec_config().max_reconnect_attempts == 0 ==> (r.result matches Err(
                LeptosWsProError::ConnectionFailed(m),
            ) && m@ == "Max reconnection attempts exceeded"@ && r.waits_ms@.len() == 0
                && final(self).spec_state() == ConnectionState::Failed),
            old(self).spec_state() != ConnectionState::Connected
                && old(self).spec_config().max_reconnect_attempts > 0 && !url_refused(
                old(self).spec_config().url@,
            ) ==> r.result is Ok && r.waits_ms@ == seq![ATTEMPT_MS] && final(self).spec_state()
                == ConnectionState::Connected,
            old(self).spec_state() != ConnectionState::Connected
                && old(self).spec_config().max_reconnect_attempts > 0 && url_refused(
                old(self).spec_config().url@,
            ) ==> (r.result matches Err(LeptosWsProError::ConnectionFailed(m)) && m@
                == "Connection refused"@ && r.waits_ms@ == retry_waits(
                (old(self).spec_config().max_reconnect_attempts - 1) as nat,
                old(self).spec_config().retry_delay_ms,
            ).push(ATTEMPT_MS) && final(self).spec_state() == ConnectionState::Failed),
    {
        let mut waits: Vec<u64> = Vec::new();
        if self.connection_state == ConnectionState::Connected {
            return ConnectReport { result: Ok(()), waits_ms: waits };
        }
        self.connection_state = ConnectionState::Connecting;
        let max = self.config.max_reconnect_attempts;
        let delay = self.config.retry_delay_ms;
        let mut attempt: usize = 0;
        while attempt < max
            invariant
                self.config == old(self).config,
                self.message_queue == old(self).message_queue,
                max == self.config.max_reconnect_attempts,
                delay == self.config.retry_delay_ms,
                attempt <= max,
                attempt == 0 || attempt < max,
                attempt > 0 ==> url_refused(self.config.url@),
                old(self).connection_state != ConnectionState::Connected,
                waits@ == retry_waits(attempt as nat, delay),
            decreases max - attempt,
        {
            waits.push(ATTEMPT_MS);
            match self.attempt_connection() {
                Ok(()) => {
                    self.connection_state = ConnectionState::Connected;
                    assert(waits@ =~= seq![ATTEMPT_MS]);
                    return ConnectReport { result: Ok(()), waits_ms: waits };
                },
                Err(e) => {
                    if attempt + 1 < max {
                        self.connection_state = ConnectionState::Reconnecting;
                        waits.push(delay);
                        assert(waits@ =~= retry_waits((attempt + 1) as nat, delay));
                    } else {
                        self.connection_state = ConnectionState::Failed;
                        assert(waits@ =~= retry_waits(attempt as nat, delay).push(ATTEMPT_MS));
                        return ConnectReport { result: Err(e), waits_ms: waits };
                    }
                },
            }
            attempt = attempt + 1;
        }
        assert(waits@ =~= Seq::<u64>::empty());
        self.connection_state = ConnectionState::Failed;
        ConnectReport {
            result: Err(
                LeptosWsProError::ConnectionFailed(
                    String::from_str("Max reconnection attempts exceeded"),
                ),
            ),
            waits_ms: waits,
        }
    }

    /// Disconnects and drops every queued message.
    pub fn disconnect(&mut self) -> (r: Result<(), LeptosWsProError>)
        ensures
            r is Ok,
            final(self).spec_state() == ConnectionState::Disconnected,
            final(self).queue() == Seq::<Seq<u8>>::empty(),
            final(self).spec_config() == old(self).spec_config(),
    {
        self.connection_state = ConnectionState::Disconnected;
        self.message_queue.clear();
        assert(self.queue() =~= Seq::<Seq<u8>>::empty());
        Ok(())
    }

    /// Sends a message; refused unless connected. The server echoes it back.
    pub fn send_message(&mut self, data: &[u8]) -> (r: Result<(), LeptosWsProError>)
        ensures
            final(self).spec_config() == old(self).spec_config(),
            final(self).spec_state() == old(self).spec_state(),
            old(self).spec_state() == ConnectionState::Connected ==> r is Ok && final(self).queue()
                == old(self).queue().push(data@),
            old(self).spec_state() != ConnectionState::Connected ==> (r matches Err(
                LeptosWsProError::NotConnected,
            ) && final(self).queue() == old(self).queue()),
    {
        if self.connection_state != ConnectionState::Connected {
            return Err(LeptosWsProError::NotConnected);
        }
        self.message_queue.push_back(slice_to_vec(data));
        assert(self.queue() =~= old(self).queue().push(data@));
        Ok(())
    }

    /// Hands back the messages that arrived, oldest first; nothing while not
    /// connected.
    pub fn receive_messages(&mut self) -> (r: Result<Vec<Vec<u8>>, LeptosWsProError>)
        ensures
            final(self).spec_config() == old(self).spec_config(),
            final(self).spec_state() == old(self).spec_state(),
            old(self).spec_state() == ConnectionState::Connected ==> (r matches Ok(msgs) && bytes_of(
                msgs@,
            ) == old(self).queue() && final(self).queue() == Seq::<Seq<u8>>::empty()),
            old(self).spec_state() != ConnectionState::Connected ==> (r matches Ok(msgs)
                && msgs@.len() == 0 && final(self).queue() == old(self).queue()),
    {
        if self.connection_state != ConnectionState::Connected {
            return Ok(Vec::new());
        }
        let out = drain_queue(&mut self.message_queue);
        assert(self.queue() =~= Seq::<Seq<u8>>::empty());
        Ok(out)
    }

    pub fn is_connected_sync(&self) -> (r: bool)
        ensures
            r == (self.spec_state() == ConnectionState::Connected),
    {
        self.connection_state == ConnectionState::Connected
    }
}

impl SyncTransport for LeptosWsProTransport {
    open spec fn spec_connected(&self) -> bool {
        self.spec_state() == ConnectionState::Connected
    }

    open spec fn send_outcome(&self, data: Seq<u8>, after: Self, r: Result<(), TransportError>) -> bool {
        &&& after.spec_state() == self.spec_state()
        &&& after.spec_config() == self.spec_config()
        &&& self.spec_state() == ConnectionState::Connected ==> r is Ok && after.queue() == self.queue().push(data)
        &&& self.spec_state() != ConnectionState::Connected ==> (r matches Err(TransportError::NotConnected)
            && after.queue() == self.queue())
    }

    open spec fn receive_outcome(&self, after: Self, r: Result<Vec<Vec<u8>>, TransportError>) -> bool {
        &&& after.spec_state() == self.spec_state()
        &&& after.spec_config() == self.spec_config()
        &&& self.spec_state() == ConnectionState::Connected ==> (r matches Ok(msgs) && bytes_of(msgs@) == self.queue()
            && after.queue() == Seq::<Seq<u8>>::empty())
        &&& self.spec_state() != ConnectionState::Connected ==> (r matches Ok(msgs) && msgs@.len() == 0
            && after.queue() == self.queue())
    }

    fn send(&mut self, data: &[u8]) -> (r: Result<(), TransportError>)
        ensures
            final(self).spec_state() == old(self).spec_state(),
            final(self).spec_config() == old(self).spec_config(),
            old(self).spec_state() == ConnectionState::Connected ==> r is Ok && final(self).queue()
                == old(self).queue().push(data@),
            old(self).spec_state() != ConnectionState::Connected ==> (r matches Err(
                TransportError::NotConnected,
            ) && final(self).queue() == old(self).queue()),
    {
        match self.send_message(data) {
            Ok(()) => Ok(()),
            Err(e) => Err(TransportError::from(e)),
        }
    }

    fn receive(&mut self) -> (r: Result<Vec<Vec<u8>>, TransportError>)
        ensures
            final(self).spec_state() == old(self).spec_state(),
            final(self).spec_config() == old(self).spec_config(),
            old(self).spec_state() == ConnectionState::Connected ==> (r matches Ok(msgs) && bytes_of(
                msgs@,
            ) == old(self).queue() && final(self).queue() == Seq::<Seq<u8>>::empty()),
            old(self).spec_state() != ConnectionState::Connected ==> (r matches Ok(msgs)
                && msgs@.len() == 0 && final(self).queue() == old(self).queue()),
    {
        match self.receive_messages() {
            Ok(m) => Ok(m),
            Err(e) => Err(TransportError::from(e)),
        }
    }

    fn is_connected(&self) -> (r: bool) {
        self.is_connected_sync()
    }
}

/// Speaks the JSON message protocol over a leptos-ws-pro transport: the
/// frames it is given are sent as they are.
#[derive(Debug)]
pub struct MessageProtocolAdapter {
    transport: LeptosWsProTransport,
}

impl MessageProtocolAdapter {
    pub closed spec fn spec_transport(&self) -> LeptosWsProTransport {
        self.transport
    }

    pub fn new(transport: LeptosWsProTransport) -> (r: Self)
        ensures
            r.spec_transport() == transport,
    {
        MessageProtocolAdapter { transport }
    }

    pub fn transport(&self) -> (r: &LeptosWsProTransport)
        ensures
            *r == self.spec_transport(),
    {
        &self.transport
    }

    pub fn transport_mut(&mut self) -> (r: &mut LeptosWsProTransport)
        ensures
            *r == old(self).spec_transport(),
            final(self).spec_transport() == *final(r),
    {
        &mut self.transport
    }

    /// Sends one encoded protocol frame.
    pub fn send_frame(&mut self, frame: &[u8]) -> (r: Result<(), LeptosWsProError>)
        ensures
            final(self).spec_transport().spec_state() == old(self).spec_transport().spec_state(),
            final(self).spec_transport().spec_config() == old(self).spec_transport().spec_config(),
            old(self).spec_transport().spec_state() == ConnectionState::Connected ==> r is Ok
                && final(self).spec_transport().queue() == old(self).spec_transport().queue().push(
                frame@,
            ),
            old(self).spec_transport().spec_state() != ConnectionState::Connected ==> (r matches Err(
                LeptosWsProError::NotConnected,
            ) && final(self).spec_transport().queue() == old(self).spec_transport().queue()),
    {
        self.transport.send_message(frame)
    }

    /// The frames that arrived, oldest first.
    pub fn receive_frames(&mut self) -> (r: Result<Vec<Vec<u8>>, LeptosWsProError>)
        ensures
            final(self).spec_transport().spec_state() == old(self).spec_transport().spec_state(),
            final(self).spec_transport().spec_config() == old(self).spec_transport().spec_config(),
            old(self).spec_transport().spec_state() == ConnectionState::Connected ==> (r matches Ok(
                msgs,
            ) && bytes_of(msgs@) == old(self).spec_transport().queue()
                && final(self).spec_transport().queue() == Seq::<Seq<u8>>::empty()),
            old(self).spec_transport().spec_state() != ConnectionState::Connected ==> (r matches Ok(
                msgs,
            ) && msgs@.len() == 0 && final(self).spec_transport().queue() == old(self).spec_transport().queue()),
    {
        self.transport.receive_messages()
    }
}

} // verus!
