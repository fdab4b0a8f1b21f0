//! The synchronization engine driven over a WebSocket client.
//!
//! The periodic task (receive, handle, send batches) is run by the caller;
//! this module decides what each step does.

use super::client::{WebSocketClient, WebSocketClientConfig, WebSocketClientError};
use super::websocket::{ConnectReport, ConnectionState};
use super::TransportError;
use crate::ids::ReplicaId;
use crate::protocol::{CrdtType, SyncMessage, Timestamp};
use crate::storage::Storage;
use crate::sync::engine::{SyncEngine, SyncEngineError};
use vstd::prelude::*;
use vstd::string::*;

verus! {

#[derive(Debug)]
pub enum WebSocketIntegrationError {
    SyncEngine(SyncEngineError),
    Transport(TransportError),
    WebSocketClient(WebSocketClientError),
    Serialization(serde_json::Error),
    Integration(String),
}

/// Configuration of the integration (the interval in milliseconds).
#[derive(Debug)]
pub struct WebSocketIntegrationConfig {
    pub client_config: WebSocketClientConfig,
    pub sync_interval_ms: u64,
    pub delta_batch_size: usize,
    pub enable_compression: bool,
    pub enable_heartbeat: bool,
}

impl Clone for WebSocketIntegrationConfig {
    fn clone(&self) -> (r: Self)
        ensures
            r == *self,
    {
        WebSocketIntegrationConfig {
            client_config: self.client_config.clone(),
            sync_interval_ms: self.sync_interval_ms,
            delta_batch_size: self.delta_batch_size,
            enable_compression: self.enable_compression,
            enable_heartbeat: self.enable_heartbeat,
        }
    }
}

impl Default for WebSocketIntegrationConfig {
    /// The default client, a sync every 100 ms, batches of 10 deltas, no
    /// compression, heartbeats on.
    fn default() -> (r: Self)
        ensures
            r.client_config.url@ == "ws://localhost:3001/sync"@,
            r.client_config.reconnect_attempts == 5,
            r.sync_interval_ms == 100,
            r.delta_batch_size == 10,
            !r.enable_compression,
            r.enable_heartbeat,
    {
        WebSocketIntegrationConfig {
            client_config: WebSocketClientConfig::default(),
            sync_interval_ms: 100,
            delta_batch_size: 10,
            enable_compression: false,
            enable_heartbeat: true,
        }
    }
}

/// The delta message a replica sends for a collection.
pub open spec fn delta_message(
    collection_id: Seq<char>,
    crdt_type: CrdtType,
    delta: Seq<u8>,
    timestamp: Timestamp,
    replica_id: ReplicaId,
    m: SyncMessage,
) -> bool {
    m matches SyncMessage::Delta { collection_id: c, crdt_type: t, delta: d, timestamp: ts, replica_id: r }
        && c@ == collection_id && t == crdt_type && d@ == delta && ts == timestamp && r == replica_id
}

/// A sync engine whose peers are reached through a WebSocket client.
pub struct WebSocketSyncEngine {
    sync_engine: SyncEngine<WebSocketClient>,
    websocket_client: WebSocketClient,
    config: WebSocketIntegrationConfig,
    is_running: bool,
}

impl WebSocketSyncEngine {
    pub closed spec fn spec_config(&self) -> WebSocketIntegrationConfig {
        self.config
    }

    pub closed spec fn running(&self) -> bool {
        self.is_running
    }

    pub closed spec fn client(&self) -> WebSocketClient {
        self.websocket_client
    }

    pub closed spec fn engine(&self) -> SyncEngine<WebSocketClient> {
        self.sync_engine
    }

    /// A stopped engine whose client (and the engine's own copy of it) has
    /// the configured settings and the given replica id.
    pub fn new(storage: Storage, config: WebSocketIntegrationConfig, replica_id: ReplicaId) -> (r: Self)
        ensures
            !r.running(),
            r.spec_config() == config,
            r.client().spec_config() == config.client_config,
            r.client().spec_replica_id() == replica_id,
            r.client().spec_state() == ConnectionState::Disconnected,
            r.engine().wf(),
            r.engine().spec_transport().spec_config() == config.client_config,
            r.engine().spec_transport().spec_replica_id() == replica_id,
            r.engine().spec_storage() == storage,
    {
        let websocket_client = WebSocketClient::new(config.client_config.clone(), replica_id);
        let sync_engine = SyncEngine::new(storage, websocket_client.clone());
        WebSocketSyncEngine { sync_engine, websocket_client, config, is_running: false }
    }

    /// Starts: a running engine is left as it is; otherwise the client
    /// connects (the report's waits are the caller's to sleep), and on
    /// success the engine runs.
    pub fn start(&mut self) -> (r: ConnectReport<WebSocketIntegrationError>)
        ensures
            old(self).running() ==> r.result is Ok && r.waits_ms@.len() == 0 && *final(self)
                == *old(self),
            !old(self).running() ==> final(self).running() == r.result is Ok,
            !old(self).running() && old(self).client().spec_state() != ConnectionState::Connected
                && old(self).client().spec_config().reconnect_attempts == 0 ==> (r.result matches Err(
                WebSocketIntegrationError::WebSocketClient(WebSocketClientError::ConnectionFailed(m)),
            ) && m@ == "Max retry attempts exceeded"@),
            !old(self).running() && (old(self).client().spec_state() == ConnectionState::Connected
                || old(self).client().spec_config().reconnect_attempts > 0) ==> r.result is Ok
                && final(self).client().spec_state() == ConnectionState::Connected,
            final(self).spec_config() == old(self).spec_config(),
            final(self).engine() == old(self).engine(),
            final(self).client().spec_replica_id() == old(self).client().spec_replica_id(),
    {
        if self.is_running {
            return ConnectReport { result: Ok(()), waits_ms: Vec::new() };
        }
        let report = self.websocket_client.connect();
        let waits = report.waits_ms;
        match report.result {
            Ok(()) => {
                self.is_running = true;
                ConnectReport { result: Ok(()), waits_ms: waits }
            },
            Err(e) => ConnectReport {
                result: Err(WebSocketIntegrationError::WebSocketClient(e)),
                waits_ms: waits,
            },
        }
    }

    /// Stops: a stopped engine is left as it is; otherwise the client
    /// disconnects and the engine no longer runs.
    pub fn stop(&mut self) -> (r: Result<(), WebSocketIntegrationError>)
        ensures
            r is Ok,
            !final(self).running(),
            !old(self).running() ==> *final(self) == *old(self),
            old(self).running() ==> final(self).client().spec_state()
                == ConnectionState::Disconnected,
            final(self).spec_config() == old(self).spec_config(),
            final(self).engine() == old(self).engine(),
            final(self).client().spec_replica_id() == old(self).client().spec_replica_id(),
    {
        if !self.is_running {
            return Ok(());
        }
        let _ = self.websocket_client.disconnect();
        self.is_running = false;
        Ok(())
    }

    /// The delta message for a collection, from this replica at `now`.
    pub fn send_delta(
        &self,
        collection_id: String,
        crdt_type: CrdtType,
        delta: Vec<u8>,
        now: Timestamp,
    ) -> (r: SyncMessage)
        ensures
            delta_message(
                collection_id@,
                crdt_type,
                delta@,
                now,
                self.client().spec_replica_id(),
                r,
            ),
    {
        SyncMessage::Delta {
            collection_id,
            crdt_type,
            delta,
            timestamp: now,
            replica_id: self.websocket_client.replica_id(),
        }
    }

    /// Sends an encoded message through the client; refused unless the
    /// client is connected.
    pub fn send_frame(&self, frame: &[u8]) -> (r: Result<(), WebSocketIntegrationError>)
        ensures
            r is Ok <==> self.client().spec_state() == ConnectionState::Connected,
            r matches Err(e) ==> (e matches WebSocketIntegrationError::WebSocketClient(
                WebSocketClientError::NotConnected,
            )),
    {
        match self.websocket_client.send_raw(frame) {
            Ok(()) => Ok(()),
            Err(e) => Err(WebSocketIntegrationError::WebSocketClient(e)),
        }
    }

    /// The delta messages for a batch of buffered deltas, in order; the
    /// buffer is emptied.
    pub fn delta_batch(&self, buffer: &mut Vec<(String, CrdtType, Vec<u8>)>, now: Timestamp) -> (r: Vec<
        SyncMessage,
    >)
        ensures
            final(buffer)@.len() == 0,
            r@.len() == old(buffer)@.len(),
            forall|i: int| 0 <= i < r@.len() ==> delta_message(
                old(buffer)@[i].0@,
                old(buffer)@[i].1,
                old(buffer)@[i].2@,
                now,
                self.client().spec_replica_id(),
                #[trigger] r@[i],
            ),
    {
        let ghost all = buffer@;
        let mut out: Vec<SyncMessage> = Vec::new();
        while buffer.len() > 0
            invariant
                out@.len() + buffer@.len() == all.len(),
                buffer@ == all.skip(out@.len() as int),
                forall|i: int| 0 <= i < out@.len() ==> delta_message(
                    all[i].0@,
                    all[i].1,
                    all[i].2@,
                    now,
                    self.client().spec_replica_id(),
                    #[trigger] out@[i],
                ),
            decreases buffer.len(),
        {
            let ghost k: int = out@.len() as int;
            let (collection_id, crdt_type, delta) = buffer.remove(0);
            assert(buffer@ =~= all.skip(k + 1));
            out.push(self.send_delta(collection_id, crdt_type, delta, now));
        }
        out
    }

    /// Handles a message from the connection. Deltas, heartbeats and peers
    /// joining or leaving are only noted; nothing fails.
    pub fn handle_incoming_message(&self, message: SyncMessage) -> (r: Result<
        (),
        WebSocketIntegrationError,
    >)
        ensures
            r is Ok,
    {
        Ok(())
    }

    pub fn sync_engine(&self) -> (r: &SyncEngine<WebSocketClient>)
        ensures
            *r == self.engine(),
    {
        &self.sync_engine
    }

    pub fn websocket_client(&self) -> (r: &WebSocketClient)
        ensures
            *r == self.client(),
    {
        &self.websocket_client
    }

    pub fn is_running(&self) -> (r: bool)
        ensures
            r == self.running(),
    {
        self.is_running
    }

    pub fn is_connected(&self) -> (r: bool)
        ensures
            r == (self.client().spec_state() == ConnectionState::Connected),
    {
        self.websocket_client.is_connected()
    }
}

/// Builder of a WebSocket sync engine.
pub struct WebSocketSyncEngineBuilder {
    config: WebSocketIntegrationConfig,
    replica_id: Option<ReplicaId>,
}

impl WebSocketSyncEngineBuilder {
    pub closed spec fn spec_config(&self) -> WebSocketIntegrationConfig {
        self.config
    }

    pub closed spec fn spec_replica_id(&self) -> Option<ReplicaId> {
        self.replica_id
    }

    pub fn new() -> (r: Self)
        ensures
            r.spec_replica_id() is None,
            r.spec_config().sync_interval_ms == 100,
            r.spec_config().delta_batch_size == 10,
            r.spec_config().client_config.url@ == "ws://localhost:3001/sync"@,
    {
        WebSocketSyncEngineBuilder { config: WebSocketIntegrationConfig::default(), replica_id: None }
    }

    pub fn with_config(self, config: WebSocketIntegrationConfig) -> (r: Self)
        ensures
            r.spec_config() == config,
            r.spec_replica_id() == self.spec_replica_id(),
    {
        WebSocketSyncEngineBuilder { config, replica_id: self.replica_id }
    }

    pub fn with_replica_id(self, replica_id: ReplicaId) -> (r: Self)
        ensures
            r.spec_config() == self.spec_config(),
            r.spec_replica_id() == Some(replica_id),
    {
        WebSocketSyncEngineBuilder { config: self.config, replica_id: Some(replica_id) }
    }

    pub fn with_url(self, url: String) -> (r: Self)
        ensures
            r.spec_config().client_config.url == url,
            r.spec_config().client_config.reconnect_attempts
                == self.spec_config().client_config.reconnect_attempts,
            r.spec_config().sync_interval_ms == self.spec_config().sync_interval_ms,
            r.spec_config().delta_batch_size == self.spec_config().delta_batch_size,
            r.spec_replica_id() == self.spec_replica_id(),
    {
        let mut b = self;
        b.config.client_config.url = url;
        b
    }

    /// The engine, with the chosen replica id or a fresh random one.
    pub fn build(self, storage: Storage) -> (r: WebSocketSyncEngine)
        ensures
            !r.running(),
            r.spec_config() == self.spec_config(),
            self.spec_replica_id() matches Some(id) ==> r.client().spec_replica_id() == id,
            r.engine().spec_storage() == storage,
    {
        let replica_id = match self.replica_id {
            Some(id) => id,
            None => ReplicaId::random(),
        };
        WebSocketSyncEngine::new(storage, self.config, replica_id)
    }
}

impl Default for WebSocketSyncEngineBuilder {
    fn default() -> (r: Self)
        ensures
            r.spec_replica_id() is None,
            r.spec_config().sync_interval_ms == 100,
    {
        Self::new()
    }
}

} // verus!
