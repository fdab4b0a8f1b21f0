//! WebSocket transport: connection state, retry schedule and message queue.

use super::{bytes_of, drain_queue, SyncTransport, TransportError};
use std::collections::VecDeque;
use vstd::prelude::*;
use vstd::slice::slice_to_vec;
use vstd::string::*;

verus! {

/// Errors of the WebSocket transport.
#[derive(Debug)]
pub enum WebSocketError {
    ConnectionFailed(String),
    SendFailed(String),
    ReceiveFailed(String),
    NotConnected,
    SerializationFailed(String),
    WebSocketError(String),
}

impl WebSocketError {
    /// The transport error this error stands for.
    pub open spec fn spec_to_transport(self) -> TransportError {
        match self {
            WebSocketError::ConnectionFailed(m) => TransportError::ConnectionFailed(m),
            WebSocketError::SendFailed(m) => TransportError::SendFailed(m),
            WebSocketError::ReceiveFailed(m) => TransportError::ReceiveFailed(m),
            WebSocketError::NotConnected => TransportError::NotConnected,
            WebSocketError::SerializationFailed(m) => TransportError::SerializationFailed(m),
            WebSocketError::WebSocketError(m) => TransportError::ConnectionFailed(m),
        }
    }
}

impl From<WebSocketError> for TransportError {
    fn from(err: WebSocketError) -> (r: Self) {
        match err {
            WebSocketError::ConnectionFailed(msg) => TransportError::ConnectionFailed(msg),
            WebSocketError::SendFailed(msg) => TransportError::SendFailed(msg),
            WebSocketError::ReceiveFailed(msg) => TransportError::ReceiveFailed(msg),
            WebSocketError::NotConnected => TransportError::NotConnected,
            WebSocketError::SerializationFailed(msg) => TransportError::SerializationFailed(msg),
            WebSocketError::WebSocketError(msg) => TransportError::ConnectionFailed(msg),
        }
    }
}

impl vstd::std_specs::convert::FromSpecImpl<WebSocketError> for TransportError {
    open spec fn obeys_from_spec() -> bool {
        true
    }

    open spec fn from_spec(v: WebSocketError) -> TransportError {
        v.spec_to_transport()
    }
}

/// Connection states of the WebSocket-style transports.
#[derive(Clone, Copy, Debug, PartialEq, Eq, Structural)]
pub enum ConnectionState {
    Disconnected,
    Connecting,
    Connected,
    Reconnecting,
    Failed,
}

/// Configuration for the WebSocket transport (durations in milliseconds).
#[derive(Clone, Copy, Debug, PartialEq, Eq, Structural)]
pub struct WebSocketConfig {
    pub auto_reconnect: bool,
    pub max_reconnect_attempts: usize,
    pub reconnect_delay_ms: u64,
    pub heartbeat_interval_ms: u64,
    pub connection_timeout_ms: u64,
}

impl Default for WebSocketConfig {
    fn default() -> (r: Self)
        ensures
            r.auto_reconnect,
            r.max_reconnect_attempts == 5,
            r.reconnect_delay_ms == 1000,
            r.heartbeat_interval_ms == 30_000,
            r.connection_timeout_ms == 10_000,
    {
        WebSocketConfig {
            auto_reconnect: true,
            max_reconnect_attempts: 5,
            reconnect_delay_ms: 1000,
            heartbeat_interval_ms: 30_000,
            connection_timeout_ms: 10_000,
        }
    }
}

/// `n` copies of the same wait.
pub open spec fn repeated_waits(n: nat, ms: u64) -> Seq<u64> {
    Seq::new(n, |i: int| ms)
}

/// What a connection attempt sequence did: its result and the waits, in
/// order, that separate the attempts.
pub struct ConnectReport<E> {
    pub result: Result<(), E>,
    pub waits_ms: Vec<u64>,
}

/// WebSocket transport.
///
/// On native targets without a WebSocket backend every connection attempt
/// fails; messages that arrive are queued and handed out by `receive`.
#[derive(Debug)]
pub struct WebSocketTransport {
    url: String,
    connection_state: ConnectionState,
    message_queue: VecDeque<Vec<u8>>,
    config: WebSocketConfig,
}

impl WebSocketTransport {
    pub closed spec fn spec_url(&self) -> Seq<char> {
        self.url@
    }

    pub closed spec fn spec_state(&self) -> ConnectionState {
        self.connection_state
    }

    pub closed spec fn spec_config(&self) -> WebSocketConfig {
        self.config
    }

    pub closed spec fn queue(&self) -> Seq<Seq<u8>> {
        bytes_of(self.message_queue@)
    }

    pub fn new(url: String) -> (r: Self)
        ensures
            r.spec_url() == url@,
            r.spec_state() == ConnectionState::Disconnected,
            r.queue() == Seq::<Seq<u8>>::empty(),
            r.spec_config().max_reconnect_attempts == 5,
            r.spec_config().reconnect_delay_ms == 1000,
    {
        Self::with_config(url, WebSocketConfig::default())
    }

    pub fn with_config(url: String, config: WebSocketConfig) -> (r: Self)
        ensures
            r.spec_url() == url@,
            r.spec_state() == ConnectionState::Disconnected,
            r.queue() == Seq::<Seq<u8>>::empty(),
            r.spec_config() == config,
    {
        let r = WebSocketTransport {
            url,
            connection_state: ConnectionState::Disconnected,
            message_queue: VecDeque::new(),
            config,
        };
        assert(r.queue() =~= Seq::<Seq<u8>>::empty());
        r
    }

    pub fn with_reconnect_config(url: String, max_attempts: usize, delay_ms: u32) -> (r: Self)
        ensures
            r.spec_url() == url@,
            r.spec_state() == ConnectionState::Disconnected,
            r.queue() == Seq::<Seq<u8>>::empty(),
            r.spec_config().max_reconnect_attempts == max_attempts,
            r.spec_config().reconnect_delay_ms == delay_ms,
            r.spec_config().auto_reconnect,
            r.spec_config().heartbeat_interval_ms == 30_000,
            r.spec_config().connection_timeout_ms == 10_000,
    {
        let config = WebSocketConfig {
            max_reconnect_attempts: max_attempts,
            reconnect_delay_ms: delay_ms as u64,
            ..WebSocketConfig::default()
        };
        Self::with_config(url, config)
    }

    pub fn url(&self) -> (r: &str)
        ensures
            r@ == self.spec_url(),
    {
        self.url.as_str()
    }

    pub fn config(&self) -> (r: WebSocketConfig)
        ensures
            r == self.spec_config(),
    {
        self.config
    }

    /// One connection attempt. This build has no native WebSocket backend,
    /// so the attempt is refused.
    pub fn attempt_connection(&self) -> (r: Result<(), WebSocketError>)
        ensures
            r matches Err(WebSocketError::ConnectionFailed(m)) && m@
                == "WebSocket feature not enabled"@,
    {
        Err(WebSocketError::ConnectionFailed(String::from_str("WebSocket feature not enabled")))
    }

    /// Connects, retrying up to the configured number of attempts with the
    /// configured delay between attempts.
    pub fn connect(&mut self) -> (r: ConnectReport<WebSocketError>)
        ensures
            final(self).spec_url() == old(self).spec_url(),
            final(self).spec_config() == old(self).spec_config(),
            final(self).queue() == old(self).queue(),
            old(self).spec_state() == ConnectionState::Connected ==> r.result is Ok
                && r.waits_ms@.len() == 0 && final(self).spec_state() == ConnectionState::Connected,
            old(self).spec_state() != ConnectionState::Connected ==> {
                &&& final(self).spec_state() == ConnectionState::Failed
                &&& old(self).spec_config().max_reconnect_attempts == 0 ==> (r.result matches Err(
                    WebSocketError::ConnectionFailed(m),
                ) && m@ == "Max reconnection attempts exceeded"@ && r.waits_ms@.len() == 0)
                &&& old(self).spec_config().max_reconnect_attempts > 0 ==> (r.result matches Err(
                    WebSocketError::ConnectionFailed(m),
                ) && m@ == "WebSocket feature not enabled"@ && r.waits_ms@ == repeated_waits(
                    (old(self).spec_config().max_reconnect_attempts - 1) as nat,
                    old(self).spec_config().reconnect_delay_ms,
                ))
            },
    {
        let mut waits: Vec<u64> = Vec::new();
        if self.connection_state == ConnectionState::Connected {
            return ConnectReport { result: Ok(()), waits_ms: waits };
        }
        self.connection_state = ConnectionState::Connecting;
        let max = self.config.max_reconnect_attempts;
        let delay = self.config.reconnect_delay_ms;
        let mut attempt: usize = 0;
        while attempt < max
            invariant
                self.url == old(self).url,
                self.config == old(self).config,
                self.message_queue == old(self).message_queue,
                max == self.config.max_reconnect_attempts,
                delay == self.config.reconnect_delay_ms,
                attempt <= max,
                attempt == 0 || attempt < max,
                old(self).connection_state != ConnectionState::Connected,
                waits@ == repeated_waits(attempt as nat, delay),
            decreases max - attempt,
        {
            match self.attempt_connection() {
                Ok(()) => {
                    self.connection_state = ConnectionState::Connected;
                    return ConnectReport { result: Ok(()), waits_ms: waits };
                },
                Err(e) => {
                    if attempt + 1 < max {
                        self.connection_state = ConnectionState::Reconnecting;
                        waits.push(delay);
                        assert(waits@ =~= repeated_waits((attempt + 1) as nat, delay));
                    } else {
                        self.connection_state = ConnectionState::Failed;
                        return ConnectReport { result: Err(e), waits_ms: waits };
                    }
                },
            }
            attempt = attempt + 1;
        }
        assert(waits@ =~= Seq::<u64>::empty());
        self.connection_state = ConnectionState::Failed;
        ConnectReport {
            result: Err(
                WebSocketError::ConnectionFailed(
                    String::from_str("Max reconnection attempts exceeded"),
                ),
            ),
            waits_ms: waits,
        }
    }

    /// Disconnects and drops every queued message.
    pub fn disconnect(&mut self) -> (r: Result<(), WebSocketError>)
        ensures
            r is Ok,
            final(self).spec_state() == ConnectionState::Disconnected,
            final(self).queue() == Seq::<Seq<u8>>::empty(),
            final(self).spec_url() == old(self).spec_url(),
            final(self).spec_config() == old(self).spec_config(),
    {
        self.connection_state = ConnectionState::Disconnected;
        self.message_queue.clear();
        assert(self.queue() =~= Seq::<Seq<u8>>::empty());
        Ok(())
    }

    /// Sends binary data; refused unless connected.
    pub fn send_binary(&self, data: &[u8]) -> (r: Result<(), WebSocketError>)
        ensures
            self.spec_state() == ConnectionState::Connected <==> r is Ok,
            r matches Err(e) ==> e is NotConnected,
    {
        if self.connection_state != ConnectionState::Connected {
            return Err(WebSocketError::NotConnected);
        }
        Ok(())
    }

    /// Sends text; refused unless connected.
    pub fn send_text(&self, text: &str) -> (r: Result<(), WebSocketError>)
        ensures
            self.spec_state() == ConnectionState::Connected <==> r is Ok,
            r matches Err(e) ==> e is NotConnected,
    {
        if self.connection_state != ConnectionState::Connected {
            return Err(WebSocketError::NotConnected);
        }
        Ok(())
    }

    /// Queues a message that arrived from the server.
    pub fn push_incoming(&mut self, data: Vec<u8>)
        ensures
            final(self).queue() == old(self).queue().push(data@),
            final(self).spec_state() == old(self).spec_state(),
            final(self).spec_url() == old(self).spec_url(),
            final(self).spec_config() == old(self).spec_config(),
    {
        let ghost d = data@;
        self.message_queue.push_back(data);
        assert(self.queue() =~= old(self).queue().push(d));
    }

    pub fn connection_state(&self) -> (r: ConnectionState)
        ensures
            r == self.spec_state(),
    {
        self.connection_state
    }

    pub fn is_connected_sync(&self) -> (r: bool)
        ensures
            r == (self.spec_state() == ConnectionState::Connected),
    {
        self.connection_state == ConnectionState::Connected
    }

    /// Hands back every queued message, oldest first, and empties the queue.
    pub fn drain_queue(&mut self) -> (r: Vec<Vec<u8>>)
        ensures
            bytes_of(r@) == old(self).queue(),
            final(self).queue() == Seq::<Seq<u8>>::empty(),
            final(self).spec_state() == old(self).spec_state(),
            final(self).spec_url() == old(self).spec_url(),
            final(self).spec_config() == old(self).spec_config(),
    {
        let out = drain_queue(&mut self.message_queue);
        assert(self.queue() =~= Seq::<Seq<u8>>::empty());
        out
    }
}

impl SyncTransport for WebSocketTransport {
    open spec fn spec_connected(&self) -> bool {
        self.spec_state() == ConnectionState::Connected
    }

    open spec fn send_outcome(&self, data: Seq<u8>, after: Self, r: Result<(), TransportError>) -> bool {
        &&& after == *self
        &&& (self.spec_state() == ConnectionState::Connected <==> r is Ok)
        &&& (r matches Err(e) ==> e is NotConnected)
    }

    open spec fn receive_outcome(&self, after: Self, r: Result<Vec<Vec<u8>>, TransportError>) -> bool {
        &&& r matches Ok(msgs) && bytes_of(msgs@) == self.queue()
        &&& after.queue() == Seq::<Seq<u8>>::empty()
        &&& after.spec_state() == self.spec_state()
        &&& after.spec_url() == self.spec_url()
        &&& after.spec_config() == self.spec_config()
    }

    fn send(&mut self, data: &[u8]) -> (r: Result<(), TransportError>)
        ensures
            *final(self) == *old(self),
            old(self).spec_state() == ConnectionState::Connected <==> r is Ok,
            r matches Err(e) ==> e is NotConnected,
    {
        match self.send_binary(data) {
            Ok(()) => Ok(()),
            Err(e) => Err(TransportError::from(e)),
        }
    }

    fn receive(&mut self) -> (r: Result<Vec<Vec<u8>>, TransportError>)
        ensures
            r matches Ok(msgs) && bytes_of(msgs@) == old(self).queue(),
            final(self).queue() == Seq::<Seq<u8>>::empty(),
            final(self).spec_state() == old(self).spec_state(),
            final(self).spec_url() == old(self).spec_url(),
            final(self).spec_config() == old(self).spec_config(),
    {
        Ok(self.drain_queue())
    }

    fn is_connected(&self) -> (r: bool) {
        self.is_connected_sync()
    }
}

} // verus!
