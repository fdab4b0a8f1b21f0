//! WebSocket client transport that speaks the versioned message protocol.

use super::websocket::{ConnectReport, ConnectionState};
use super::leptos_ws_pro::ATTEMPT_MS;
use super::{bytes_of, SyncTransport, TransportError};
use crate::ids::ReplicaId;
use crate::protocol::{SyncMessage, Timestamp};
use vstd::prelude::*;
use vstd::string::*;

verus! {

#[derive(Debug)]
pub enum WebSocketClientError {
    ConnectionFailed(String),
    SendFailed(String),
    ReceiveFailed(String),
    SerializationFailed(String),
    NotConnected,
    Timeout(String),
    WebSocketError(String),
}

impl WebSocketClientError {
    pub open spec fn spec_to_transport(self) -> TransportError {
        match self {
            WebSocketClientError::ConnectionFailed(m) => TransportError::ConnectionFailed(m),
            WebSocketClientError::SendFailed(m) => TransportError::SendFailed(m),
            WebSocketClientError::ReceiveFailed(m) => TransportError::ReceiveFailed(m),
            WebSocketClientError::SerializationFailed(m) => TransportError::SerializationFailed(m),
            WebSocketClientError::NotConnected => TransportError::NotConnected,
            WebSocketClientError::Timeout(m) => TransportError::ConnectionFailed(m),
            WebSocketClientError::WebSocketError(m) => TransportError::ConnectionFailed(m),
        }
    }
}

impl From<WebSocketClientError> for TransportError {
    fn from(err: WebSocketClientError) -> (r: Self) {
        match err {
            WebSocketClientError::ConnectionFailed(msg) => TransportError::ConnectionFailed(msg),
            WebSocketClientError::SendFailed(msg) => TransportError::SendFailed(msg),
            WebSocketClientError::ReceiveFailed(msg) => TransportError::ReceiveFailed(msg),
            WebSocketClientError::SerializationFailed(msg) => TransportError::SerializationFailed(
                msg,
            ),
            WebSocketClientError::NotConnected => TransportError::NotConnected,
            WebSocketClientError::Timeout(msg) => TransportError::ConnectionFailed(msg),
            WebSocketClientError::WebSocketError(msg) => TransportError::ConnectionFailed(msg),
        }
    }
}

impl vstd::std_specs::convert::FromSpecImpl<WebSocketClientError> for TransportError {
    open spec fn obeys_from_spec() -> bool {
        true
    }

    open spec fn from_spec(v: WebSocketClientError) -> TransportError {
        v.spec_to_transport()
    }
}

/// Configuration for the WebSocket client (durations in milliseconds).
#[derive(Debug, PartialEq, Eq)]
pub struct WebSocketClientConfig {
    pub url: String,
    pub reconnect_attempts: u32,
    pub heartbeat_interval_ms: u64,
    pub message_timeout_ms: u64,
    pub connection_timeout_ms: u64,
    pub retry_delay_ms: u64,
}

impl Clone for WebSocketClientConfig {
    fn clone(&self) -> (r: Self)
        ensures
            r == *self,
    {
        WebSocketClientConfig {
            url: self.url.clone(),
            reconnect_attempts: self.reconnect_attempts,
            heartbeat_interval_ms: self.heartbeat_interval_ms,
            message_timeout_ms: self.message_timeout_ms,
            connection_timeout_ms: self.connection_timeout_ms,
            retry_delay_ms: self.retry_delay_ms,
        }
    }
}

impl WebSocketClientConfig {
    /// The default settings with the given URL.
    pub fn with_url(url: String) -> (r: Self)
        ensures
            r.url == url,
            r.reconnect_attempts == 5,
            r.heartbeat_interval_ms == 30_000,
            r.message_timeout_ms == 10_000,
            r.connection_timeout_ms == 10_000,
            r.retry_delay_ms == 1000,
    {
        WebSocketClientConfig {
            url,
            reconnect_attempts: 5,
            heartbeat_interval_ms: 30_000,
            message_timeout_ms: 10_000,
            connection_timeout_ms: 10_000,
            retry_delay_ms: 1000,
        }
    }
}

impl Default for WebSocketClientConfig {
    fn default() -> (r: Self)
        ensures
            r.url@ == "ws://localhost:3001/sync"@,
            r.reconnect_attempts == 5,
            r.heartbeat_interval_ms == 30_000,
            r.message_timeout_ms == 10_000,
            r.connection_timeout_ms == 10_000,
            r.retry_delay_ms == 1000,
    {
        Self::with_url(String::from_str("ws://localhost:3001/sync"))
    }
}

/// WebSocket client of one replica. Messages it hears (its own heartbeats
/// among them) wait in its inbox until received.
#[derive(Debug)]
pub struct WebSocketClient {
    config: WebSocketClientConfig,
    replica_id: ReplicaId,
    connection_state: ConnectionState,
    inbox: Vec<Vec<u8>>,
}

impl Clone for WebSocketClient {
    /// A clone is a new client with the same configuration and replica:
    /// disconnected, with an empty inbox.
    fn clone(&self) -> (r: Self)
        ensures
            r.spec_config() == self.spec_config(),
            r.spec_replica_id() == self.spec_replica_id(),
            r.spec_state() == ConnectionState::Disconnected,
            r.inbox() == Seq::<Seq<u8>>::empty(),
    {
        WebSocketClient::new(self.config.clone(), self.replica_id)
    }
}

impl WebSocketClient {
    pub closed spec fn spec_config(&self) -> WebSocketClientConfig {
        self.config
    }

    pub closed spec fn spec_replica_id(&self) -> ReplicaId {
        self.replica_id
    }

    pub closed spec fn spec_state(&self) -> ConnectionState {
        self.connection_state
    }

    pub closed spec fn inbox(&self) -> Seq<Seq<u8>> {
        bytes_of(self.inbox@)
    }

    pub fn new(config: WebSocketClientConfig, replica_id: ReplicaId) -> (r: Self)
        ensures
            r.spec_config() == config,
            r.spec_replica_id() == replica_id,
            r.spec_state() == ConnectionState::Disconnected,
            r.inbox() == Seq::<Seq<u8>>::empty(),
    {
        let r = WebSocketClient {
            config,
            replica_id,
            connection_state: ConnectionState::Disconnected,
            inbox: Vec::new(),
        };
        assert(r.inbox() =~= Seq::<Seq<u8>>::empty());
        r
    }

    pub fn with_url(url: String, replica_id: ReplicaId) -> (r: Self)
        ensures
            r.spec_config().url == url,
            r.spec_config().reconnect_attempts == 5,
            r.spec_replica_id() == replica_id,
            r.spec_state() == ConnectionState::Disconnected,
    {
        Self::new(WebSocketClientConfig::with_url(url), replica_id)
    }

    pub fn config(&self) -> (r: &WebSocketClientConfig)
        ensures
            *r == self.spec_config(),
    {
        &self.config
    }

    pub fn connection_state(&self) -> (r: ConnectionState)
        ensures
            r == self.spec_state(),
    {
        self.connection_state
    }

    pub fn replica_id(&self) -> (r: ReplicaId)
        ensures
            r == self.spec_replica_id(),
    {
        self.replica_id
    }

    /// Connects. A connection attempt takes `ATTEMPT_MS` and succeeds; with
    /// no attempts configured the client stays `Connecting` and reports an
    /// error. On success the heartbeat is to be started.
    pub fn connect(&mut self) -> (r: ConnectReport<WebSocketClientError>)
        ensures
            final(self).spec_config() == old(self).spec_config(),
            final(self).spec_replica_id() == old(self).spec_replica_id(),
            final(self).inbox() == old(self).inbox(),
            old(self).spec_state() == ConnectionState::Connected ==> r.result is Ok
                && r.waits_ms@.len() == 0 && final(self).spec_state() == ConnectionState::Connected,
            old(self).spec_state() != ConnectionState::Connected
                && old(self).spec_config().reconnect_attempts > 0 ==> r.result is Ok && r.waits_ms@
                == seq![ATTEMPT_MS] && final(self).spec_state() == ConnectionState::Connected,
            old(self).spec_state() != ConnectionState::Connected
                && old(self).spec_config().reconnect_attempts == 0 ==> (r.result matches Err(
                WebSocketClientError::ConnectionFailed(m),
            ) && m@ == "Max retry attempts exceeded"@ && r.waits_ms@.len() == 0
                && final(self).spec_state() == ConnectionState::Connecting),
    {
        let mut waits: Vec<u64> = Vec::new();
        if self.connection_state == ConnectionState::Connected {
            return ConnectReport { result: Ok(()), waits_ms: waits };
        }
        self.connection_state = ConnectionState::Connecting;
        if self.config.reconnect_attempts > 0 {
            waits.push(ATTEMPT_MS);
            self.connection_state = ConnectionState::Connected;
            assert(waits@ =~= seq![ATTEMPT_MS]);
            return ConnectReport { result: Ok(()), waits_ms: waits };
        }
        ConnectReport {
            result: Err(
                WebSocketClientError::ConnectionFailed(String::from_str("Max retry attempts exceeded")),
            ),
            waits_ms: waits,
        }
    }

    pub fn disconnect(&mut self) -> (r: Result<(), WebSocketClientError>)
        ensures
            r is Ok,
            final(self).spec_state() == ConnectionState::Disconnected,
            final(self).spec_config() == old(self).spec_config(),
            final(self).spec_replica_id() == old(self).spec_replica_id(),
            final(self).inbox() == old(self).inbox(),
    {
        self.connection_state = ConnectionState::Disconnected;
        Ok(())
    }

    pub fn is_connected(&self) -> (r: bool)
        ensures
            r == (self.spec_state() == ConnectionState::Connected),
    {
        self.connection_state == ConnectionState::Connected
    }

    /// Sends raw bytes; refused unless connected.
    pub fn send_raw(&self, data: &[u8]) -> (r: Result<(), WebSocketClientError>)
        ensures
            r is Ok <==> self.spec_state() == ConnectionState::Connected,
            r matches Err(e) ==> e is NotConnected,
    {
        if self.connection_state != ConnectionState::Connected {
            return Err(WebSocketClientError::NotConnected);
        }
        Ok(())
    }

    /// The heartbeat this client sends at the given time.
    pub fn heartbeat(&self, now: Timestamp) -> (r: SyncMessage)
        ensures
            r == (SyncMessage::Heartbeat { replica_id: self.spec_replica_id(), timestamp: now }),
    {
        SyncMessage::Heartbeat { replica_id: self.replica_id, timestamp: now }
    }

    /// A frame heard from the connection.
    pub fn deliver(&mut self, frame: Vec<u8>)
        ensures
            final(self).inbox() == old(self).inbox().push(frame@),
            final(self).spec_state() == old(self).spec_state(),
            final(self).spec_config() == old(self).spec_config(),
            final(self).spec_replica_id() == old(self).spec_replica_id(),
    {
        let ghost f = frame@;
        self.inbox.push(frame);
        assert(self.inbox() =~= old(self).inbox().push(f));
    }

    /// The oldest frame waiting, if any.
    pub fn next_frame(&mut self) -> (r: Option<Vec<u8>>)
        ensures
            old(self).inbox().len() == 0 ==> r is None && final(self).inbox() == old(self).inbox(),
            old(self).inbox().len() > 0 ==> (r matches Some(f) && f@ == old(self).inbox()[0]
                && final(self).inbox() == old(self).inbox().drop_first()),
            final(self).spec_state() == old(self).spec_state(),
            final(self).spec_config() == old(self).spec_config(),
            final(self).spec_replica_id() == old(self).spec_replica_id(),
    {
        if self.inbox.len() == 0 {
            return None;
        }
        let f = self.inbox.remove(0);
        assert(self.inbox() =~= old(self).inbox().drop_first());
        Some(f)
    }
}

impl SyncTransport for WebSocketClient {
    /// The client reports itself connected whatever its state.
    open spec fn spec_connected(&self) -> bool {
        true
    }

    open spec fn send_outcome(&self, data: Seq<u8>, after: Self, r: Result<(), TransportError>) -> bool {
        after == *self && r is Ok
    }

    open spec fn receive_outcome(&self, after: Self, r: Result<Vec<Vec<u8>>, TransportError>) -> bool {
        &&& after.spec_state() == self.spec_state()
        &&& after.spec_config() == self.spec_config()
        &&& after.spec_replica_id() == self.spec_replica_id()
        &&& self.inbox().len() == 0 ==> (r matches Ok(v) && v@.len() == 0 && after.inbox() == self.inbox())
        &&& self.inbox().len() > 0 ==> (r matches Ok(v) && v@.len() == 1 && v@[0]@ == self.inbox()[0]
            && after.inbox() == self.inbox().drop_first())
    }

    /// Through this interface the client is taken as connected, so a send
    /// is accepted in every state; `send_raw` is the one that checks.
    fn send(&mut self, data: &[u8]) -> (r: Result<(), TransportError>)
        ensures
            *final(self) == *old(self),
            r is Ok,
    {
        Ok(())
    }

    /// The oldest waiting frame, if any.
    fn receive(&mut self) -> (r: Result<Vec<Vec<u8>>, TransportError>)
        ensures
            old(self).inbox().len() == 0 ==> (r matches Ok(v) && v@.len() == 0),
            old(self).inbox().len() > 0 ==> (r matches Ok(v) && v@.len() == 1 && v@[0]@ == old(self).inbox()[0] && final(self).inbox() == old(self).inbox().drop_first()),
    {
        match self.next_frame() {
            Some(f) => {
                let mut v: Vec<Vec<u8>> = Vec::new();
                v.push(f);
                Ok(v)
            },
            None => Ok(Vec::new()),
        }
    }

    fn is_connected(&self) -> (r: bool) {
        true
    }
}

} // verus!
