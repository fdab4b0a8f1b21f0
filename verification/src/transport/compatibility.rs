//! The compatibility layer: the JSON message protocol that existing sync
//! servers speak, carried over the leptos-ws-pro transport.

use super::leptos_ws_pro::{
    url_refused, LeptosWsProConfig, LeptosWsProError, LeptosWsProTransport,
    MessageProtocolAdapter,
};
use super::websocket::{ConnectReport, ConnectionState};
use super::{bytes_of, SyncTransport, TransportError};
use crate::json::{
    encode_json_texts, encode_json_texts_with, encode_json_texts_with_value, json_has_field, json_has_field_of, json_str_field,
    json_str_field_of, json_text_object_of, json_text_object_with_of, json_text_object_with_value_of,
    text_of_field,
};
use crate::text::{str_eq, texts};
use vstd::prelude::*;
use vstd::slice::slice_to_vec;
use vstd::string::*;

verus! {

#[derive(Debug)]
pub enum CompatibilityError {
    Transport(TransportError),
    Serialization(String),
    Protocol(String),
}

impl CompatibilityError {
    pub open spec fn spec_to_transport(self) -> TransportError {
        match self {
            CompatibilityError::Transport(t) => t,
            CompatibilityError::Serialization(m) => TransportError::SerializationFailed(m),
            CompatibilityError::Protocol(m) => TransportError::ConnectionFailed(m),
        }
    }
}

impl From<CompatibilityError> for TransportError {
    fn from(err: CompatibilityError) -> (r: Self) {
        match err {
            CompatibilityError::Transport(t) => t,
            CompatibilityError::Serialization(msg) => TransportError::SerializationFailed(msg),
            CompatibilityError::Protocol(msg) => TransportError::ConnectionFailed(msg),
        }
    }
}

impl vstd::std_specs::convert::FromSpecImpl<CompatibilityError> for TransportError {
    open spec fn obeys_from_spec() -> bool {
        true
    }

    open spec fn from_spec(v: CompatibilityError) -> TransportError {
        v.spec_to_transport()
    }
}

/// Server information of the JSON protocol.
#[derive(Clone, Debug, PartialEq, Eq)]
pub struct ServerInfo {
    pub version: String,
    pub max_connections: usize,
    pub heartbeat_interval: u64,
}

/// Messages of the JSON protocol (tagged by a `type` field).
/// `data` holds the JSON text of the synchronized payload.
#[derive(Clone, Debug, PartialEq, Eq)]
pub enum SyncMessage {
    Sync { peer_id: String, data: String, timestamp: String },
    Presence { peer_id: String, action: String, timestamp: String },
    Heartbeat { timestamp: String },
    Welcome { peer_id: String, timestamp: String, server_info: ServerInfo },
    BinaryAck { peer_id: String, size: usize, timestamp: String },
}

/// The fields of an outgoing JSON message that decide how it is sent:
/// the `type`, `peer_id` and `action` fields when they are strings, and
/// whether a `data` field is present.
#[derive(Clone, Debug, PartialEq, Eq)]
pub struct WireFields {
    pub message_type: Option<String>,
    pub peer_id: Option<String>,
    pub action: Option<String>,
    pub has_data: bool,
}

/// The deciding fields of a message, as text.
pub struct WireFieldsView {
    pub message_type: Option<Seq<char>>,
    pub peer_id: Option<Seq<char>>,
    pub action: Option<Seq<char>>,
    pub has_data: bool,
}

/// The text of an optional string.
pub open spec fn text_of(s: Option<String>) -> Option<Seq<char>> {
    match s {
        Some(t) => Some(t@),
        None => None,
    }
}

impl View for WireFields {
    type V = WireFieldsView;

    open spec fn view(&self) -> WireFieldsView {
        WireFieldsView {
            message_type: text_of(self.message_type),
            peer_id: text_of(self.peer_id),
            action: text_of(self.action),
            has_data: self.has_data,
        }
    }
}

/// The view of optional fields.
pub open spec fn fields_view(f: Option<WireFields>) -> Option<WireFieldsView> {
    match f {
        Some(x) => Some(x@),
        None => None,
    }
}

/// Calls `chrono::Utc::now` and hands back its RFC 3339 text
/// (`to_rfc3339`). Nothing is stated of the text: it is the clock.
#[verifier::external_body]
fn now_rfc3339() -> String {
    chrono::Utc::now().to_rfc3339()
}

/// A string field that is present and a string.
pub open spec fn present(f: Option<Option<Seq<char>>>) -> Option<Seq<char>> {
    match f {
        Some(Some(s)) => Some(s),
        _ => None,
    }
}

/// The fields that decide how a frame is sent: the string fields `type`,
/// `peer_id` and `action`, and whether there is a `data` field (`None`: the
/// bytes are not JSON).
pub open spec fn spec_wire_fields(data: Seq<u8>) -> Option<WireFieldsView> {
    match json_str_field_of(data, "type"@) {
        None => None,
        Some(t) => Some(
            WireFieldsView {
                message_type: t,
                peer_id: present(json_str_field_of(data, "peer_id"@)),
                action: present(json_str_field_of(data, "action"@)),
                has_data: json_has_field_of(data, "data"@),
            },
        ),
    }
}

/// A present string field, as an owned string.
fn present_field(f: Option<Option<String>>) -> (r: Option<String>)
    ensures
        text_of(r) == present(text_of_field(f)),
{
    match f {
        Some(Some(s)) => Some(s),
        _ => None,
    }
}

/// Reads the fields that decide how a frame is sent.
pub fn wire_fields(data: &[u8]) -> (r: Option<WireFields>)
    ensures
        fields_view(r) == spec_wire_fields(data@),
{
    match json_str_field(data, "type") {
        None => None,
        Some(t) => Some(
            WireFields {
                message_type: t,
                peer_id: present_field(json_str_field(data, "peer_id")),
                action: present_field(json_str_field(data, "action")),
                has_data: json_has_field(data, "data"),
            },
        ),
    }
}

/// How an outgoing message is sent.
#[derive(Clone, Debug, PartialEq, Eq)]
pub enum OutgoingRoute {
    /// Re-framed as a sync message of the given peer, carrying the data.
    Sync { peer_id: String },
    /// Re-framed as a presence message.
    Presence { peer_id: String, action: String },
    /// Re-framed as a heartbeat.
    Heartbeat,
    /// Sent as it is.
    Raw,
}

/// How a message is sent, as text.
pub enum RouteView {
    Sync { peer_id: Seq<char> },
    Presence { peer_id: Seq<char>, action: Seq<char> },
    Heartbeat,
    Raw,
}

impl View for OutgoingRoute {
    type V = RouteView;

    open spec fn view(&self) -> RouteView {
        match self {
            OutgoingRoute::Sync { peer_id } => RouteView::Sync { peer_id: peer_id@ },
            OutgoingRoute::Presence { peer_id, action } => RouteView::Presence {
                peer_id: peer_id@,
                action: action@,
            },
            OutgoingRoute::Heartbeat => RouteView::Heartbeat,
            OutgoingRoute::Raw => RouteView::Raw,
        }
    }
}

/// The route of an outgoing message, given its fields (`None`: the bytes are
/// not JSON): a sync with a peer and data, a presence with a peer and an
/// action, and a heartbeat are re-framed; anything else is sent as it is.
pub open spec fn spec_route(fields: Option<WireFieldsView>) -> RouteView {
    match fields {
        None => RouteView::Raw,
        Some(f) => match f.message_type {
            None => RouteView::Raw,
            Some(t) => if t == "sync"@ && f.peer_id is Some && f.has_data {
                RouteView::Sync { peer_id: f.peer_id->0 }
            } else if t == "presence"@ && f.peer_id is Some && f.action is Some {
                RouteView::Presence { peer_id: f.peer_id->0, action: f.action->0 }
            } else if t == "heartbeat"@ {
                RouteView::Heartbeat
            } else {
                RouteView::Raw
            },
        },
    }
}

/// The frame that goes out for the bytes `data` at the time `timestamp`: a
/// sync message is rebuilt as `type`, `peer_id`, `timestamp` and the frame's
/// `data`; a presence message as `type`, `peer_id`, `action` and `timestamp`;
/// a heartbeat as `type` and `timestamp`; anything else goes as it is.
pub open spec fn spec_outgoing_frame(data: Seq<u8>, timestamp: Seq<char>) -> Seq<u8> {
    match spec_route(spec_wire_fields(data)) {
        RouteView::Sync { peer_id } => json_text_object_with_of(
            seq!["type"@, "peer_id"@, "timestamp"@],
            seq!["sync"@, peer_id, timestamp],
            data,
            "data"@,
        ),
        RouteView::Presence { peer_id, action } => json_text_object_of(
            seq!["type"@, "peer_id"@, "action"@, "timestamp"@],
            seq!["presence"@, peer_id, action, timestamp],
        ),
        RouteView::Heartbeat => json_text_object_of(
            seq!["type"@, "timestamp"@],
            seq!["heartbeat"@, timestamp],
        ),
        RouteView::Raw => data,
    }
}

/// What sending the frame `f` did to a leptos-ws-pro transport: queued
/// when connected, refused otherwise.
pub open spec fn frame_sent(
    a: LeptosWsProTransport,
    b: LeptosWsProTransport,
    r: Result<(), TransportError>,
    f: Seq<u8>,
) -> bool {
    &&& b.spec_state() == a.spec_state()
    &&& b.spec_config() == a.spec_config()
    &&& a.spec_state() == ConnectionState::Connected ==> r is Ok && b.queue() == a.queue().push(f)
    &&& a.spec_state() != ConnectionState::Connected ==> (r matches Err(TransportError::NotConnected)
        && b.queue() == a.queue())
}

/// A transport that speaks the JSON protocol over leptos-ws-pro.
#[derive(Debug)]
pub struct CompatibilityTransport {
    adapter: MessageProtocolAdapter,
}

impl CompatibilityTransport {
    pub closed spec fn spec_transport(&self) -> LeptosWsProTransport {
        self.adapter.spec_transport()
    }

    pub fn new(config: LeptosWsProConfig) -> (r: Self)
        ensures
            r.spec_transport().spec_config() == config,
            r.spec_transport().spec_state() == ConnectionState::Disconnected,
            r.spec_transport().queue() == Seq::<Seq<u8>>::empty(),
    {
        CompatibilityTransport { adapter: MessageProtocolAdapter::new(LeptosWsProTransport::new(config)) }
    }

    pub fn with_url(url: String) -> (r: Self)
        ensures
            r.spec_transport().spec_config().url == url,
            r.spec_transport().spec_config().max_reconnect_attempts == 5,
            r.spec_transport().spec_state() == ConnectionState::Disconnected,
    {
        Self::new(LeptosWsProConfig::with_url(url))
    }

    /// Connects the underlying transport.
    pub fn connect(&mut self) -> (r: ConnectReport<CompatibilityError>)
        ensures
            final(self).spec_transport().spec_config() == old(self).spec_transport().spec_config(),
            old(self).spec_transport().spec_state() == ConnectionState::Connected ==> r.result is Ok,
            old(self).spec_transport().spec_state() != ConnectionState::Connected ==> (r.result is Ok
                <==> (old(self).spec_transport().spec_config().max_reconnect_attempts > 0
                && !url_refused(old(self).spec_transport().spec_config().url@))),
            r.result is Ok ==> final(self).spec_transport().spec_state()
                == ConnectionState::Connected,
            r.result is Err ==> final(self).spec_transport().spec_state() == ConnectionState::Failed,
            r.result matches Err(e) ==> e is Transport,
    {
        let report = self.adapter.transport_mut().connect();
        let result = match report.result {
            Ok(()) => Ok(()),
            Err(e) => Err(CompatibilityError::Transport(TransportError::from(e))),
        };
        ConnectReport { result, waits_ms: report.waits_ms }
    }

    pub fn disconnect(&mut self) -> (r: Result<(), CompatibilityError>)
        ensures
            r is Ok,
            final(self).spec_transport().spec_state() == ConnectionState::Disconnected,
            final(self).spec_transport().queue() == Seq::<Seq<u8>>::empty(),
    {
        match self.adapter.transport_mut().disconnect() {
            Ok(()) => Ok(()),
            Err(e) => Err(CompatibilityError::Transport(TransportError::from(e))),
        }
    }

    /// Decides how an outgoing message is sent, given its fields.
    pub fn route_outgoing(fields: Option<WireFields>) -> (r: OutgoingRoute)
        ensures
            r@ == spec_route(fields_view(fields)),
    {
        proof {
            reveal_strlit("sync");
            reveal_strlit("presence");
            reveal_strlit("heartbeat");
        }
        match fields {
            None => OutgoingRoute::Raw,
            Some(f) => match f.message_type {
                None => OutgoingRoute::Raw,
                Some(t) => {
                    if str_eq(t.as_str(), "sync") && f.peer_id.is_some() && f.has_data {
                        OutgoingRoute::Sync { peer_id: f.peer_id.unwrap() }
                    } else if str_eq(t.as_str(), "presence") && f.peer_id.is_some()
                        && f.action.is_some() {
                        OutgoingRoute::Presence { peer_id: f.peer_id.unwrap(), action: f.action.unwrap() }
                    } else if str_eq(t.as_str(), "heartbeat") {
                        OutgoingRoute::Heartbeat
                    } else {
                        OutgoingRoute::Raw
                    }
                },
            },
        }
    }

    /// Decides how the bytes of an outgoing frame are sent, by the fields
    /// of their JSON parse.
    pub fn outgoing_route(data: &[u8]) -> (r: OutgoingRoute)
        ensures
            r@ == spec_route(spec_wire_fields(data@)),
    {
        Self::route_outgoing(wire_fields(data))
    }

    /// The heartbeat frame of the JSON protocol at the time `timestamp`.
    pub fn heartbeat_frame(timestamp: &str) -> (r: Vec<u8>)
        ensures
            r@ == json_text_object_of(seq!["type"@, "timestamp"@], seq!["heartbeat"@, timestamp@]),
    {
        let mut keys: Vec<String> = Vec::new();
        let mut values: Vec<String> = Vec::new();
        keys.push(String::from_str("type"));
        keys.push(String::from_str("timestamp"));
        values.push(String::from_str("heartbeat"));
        values.push(String::from_str(timestamp));
        assert(texts(keys@) =~= seq!["type"@, "timestamp"@]);
        assert(texts(values@) =~= seq!["heartbeat"@, timestamp@]);
        encode_json_texts(&keys, &values)
    }

    /// The presence frame of the JSON protocol for a peer's action at the
    /// time `timestamp`.
    pub fn presence_frame(peer_id: &str, action: &str, timestamp: &str) -> (r: Vec<u8>)
        ensures
            r@ == json_text_object_of(
                seq!["type"@, "peer_id"@, "action"@, "timestamp"@],
                seq!["presence"@, peer_id@, action@, timestamp@],
            ),
    {
        let mut keys: Vec<String> = Vec::new();
        let mut values: Vec<String> = Vec::new();
        keys.push(String::from_str("type"));
        keys.push(String::from_str("peer_id"));
        keys.push(String::from_str("action"));
        keys.push(String::from_str("timestamp"));
        values.push(String::from_str("presence"));
        values.push(String::from_str(peer_id));
        values.push(String::from_str(action));
        values.push(String::from_str(timestamp));
        assert(texts(keys@) =~= seq!["type"@, "peer_id"@, "action"@, "timestamp"@]);
        assert(texts(values@) =~= seq!["presence"@, peer_id@, action@, timestamp@]);
        encode_json_texts(&keys, &values)
    }

    /// The sync frame of the JSON protocol for a peer, carrying the JSON
    /// value whose text is `data_json`, at the time `timestamp`.
    pub fn sync_frame(peer_id: &str, data_json: &[u8], timestamp: &str) -> (r: Vec<u8>)
        ensures
            r@ == json_text_object_with_value_of(
                seq!["type"@, "peer_id"@, "timestamp"@],
                seq!["sync"@, peer_id@, timestamp@],
                "data"@,
                data_json@,
            ),
    {
        let mut keys: Vec<String> = Vec::new();
        let mut values: Vec<String> = Vec::new();
        keys.push(String::from_str("type"));
        keys.push(String::from_str("peer_id"));
        keys.push(String::from_str("timestamp"));
        values.push(String::from_str("sync"));
        values.push(String::from_str(peer_id));
        values.push(String::from_str(timestamp));
        assert(texts(keys@) =~= seq!["type"@, "peer_id"@, "timestamp"@]);
        assert(texts(values@) =~= seq!["sync"@, peer_id@, timestamp@]);
        encode_json_texts_with_value(&keys, &values, "data", data_json)
    }

    /// Sends a sync message for a peer, carrying the JSON value whose text is
    /// `data_json` (JSON `null` where it is not JSON text), at the time
    /// `timestamp`.
    pub fn send_sync(&mut self, peer_id: &str, data_json: &[u8], timestamp: &str) -> (r: Result<(), CompatibilityError>)
        ensures
            frame_sent(
                old(self).spec_transport(),
                final(self).spec_transport(),
                match r { Ok(()) => Ok(()), Err(e) => Err(e.spec_to_transport()) },
                json_text_object_with_value_of(
                    seq!["type"@, "peer_id"@, "timestamp"@],
                    seq!["sync"@, peer_id@, timestamp@],
                    "data"@,
                    data_json@,
                ),
            ),
            r matches Err(e) ==> e is Transport,
    {
        let frame = Self::sync_frame(peer_id, data_json, timestamp);
        match self.send_frame(&frame) {
            Ok(()) => Ok(()),
            Err(e) => Err(CompatibilityError::Transport(e)),
        }
    }

    /// Sends a presence message of a peer's action at the time `timestamp`.
    pub fn send_presence(&mut self, peer_id: &str, action: &str, timestamp: &str) -> (r: Result<(), CompatibilityError>)
        ensures
            frame_sent(
                old(self).spec_transport(),
                final(self).spec_transport(),
                match r { Ok(()) => Ok(()), Err(e) => Err(e.spec_to_transport()) },
                json_text_object_of(
                    seq!["type"@, "peer_id"@, "action"@, "timestamp"@],
                    seq!["presence"@, peer_id@, action@, timestamp@],
                ),
            ),
            r matches Err(e) ==> e is Transport,
    {
        let frame = Self::presence_frame(peer_id, action, timestamp);
        match self.send_frame(&frame) {
            Ok(()) => Ok(()),
            Err(e) => Err(CompatibilityError::Transport(e)),
        }
    }

    /// Sends a heartbeat at the time `timestamp`.
    pub fn send_heartbeat(&mut self, timestamp: &str) -> (r: Result<(), CompatibilityError>)
        ensures
            frame_sent(
                old(self).spec_transport(),
                final(self).spec_transport(),
                match r { Ok(()) => Ok(()), Err(e) => Err(e.spec_to_transport()) },
                json_text_object_of(seq!["type"@, "timestamp"@], seq!["heartbeat"@, timestamp@]),
            ),
            r matches Err(e) ==> e is Transport,
    {
        let frame = Self::heartbeat_frame(timestamp);
        match self.send_frame(&frame) {
            Ok(()) => Ok(()),
            Err(e) => Err(CompatibilityError::Transport(e)),
        }
    }

    /// The frame that goes out for the bytes `data` at the time `timestamp`.
    pub fn outgoing_frame(data: &[u8], timestamp: &str) -> (r: Vec<u8>)
        ensures
            r@ == spec_outgoing_frame(data@, timestamp@),
    {
        let route = Self::outgoing_route(data);
        match route {
            OutgoingRoute::Raw => {
                assert(spec_route(spec_wire_fields(data@)) == RouteView::Raw);
                slice_to_vec(data)
            },
            OutgoingRoute::Heartbeat => Self::heartbeat_frame(timestamp),
            OutgoingRoute::Presence { peer_id, action } => Self::presence_frame(
                peer_id.as_str(),
                action.as_str(),
                timestamp,
            ),
            OutgoingRoute::Sync { peer_id } => {
                let mut keys: Vec<String> = Vec::new();
                let mut values: Vec<String> = Vec::new();
                keys.push(String::from_str("type"));
                keys.push(String::from_str("peer_id"));
                keys.push(String::from_str("timestamp"));
                let ghost p = peer_id@;
                values.push(String::from_str("sync"));
                values.push(peer_id);
                values.push(String::from_str(timestamp));
                assert(texts(values@) =~= seq!["sync"@, p, timestamp@]);
                assert(texts(keys@) =~= seq!["type"@, "peer_id"@, "timestamp"@]);
                let f = encode_json_texts_with(&keys, &values, data, "data");
                assert(f@ == spec_outgoing_frame(data@, timestamp@));
                f
            },
        }
    }

    /// Sends the bytes `data` at the time `timestamp`: a sync, presence or
    /// heartbeat message of the JSON protocol is rebuilt as a protocol
    /// message (see `spec_outgoing_frame`); anything else goes as it is.
    pub fn send_message(&mut self, data: &[u8], timestamp: &str) -> (r: Result<(), TransportError>)
        ensures
            frame_sent(
                old(self).spec_transport(),
                final(self).spec_transport(),
                r,
                spec_outgoing_frame(data@, timestamp@),
            ),
    {
        let frame = Self::outgoing_frame(data, timestamp);
        self.send_frame(&frame)
    }

    /// Sends one frame of the protocol.
    pub fn send_frame(&mut self, frame: &[u8]) -> (r: Result<(), TransportError>)
        ensures
            final(self).spec_transport().spec_state() == old(self).spec_transport().spec_state(),
            final(self).spec_transport().spec_config() == old(self).spec_transport().spec_config(),
            old(self).spec_transport().spec_state() == ConnectionState::Connected ==> r is Ok
                && final(self).spec_transport().queue() == old(self).spec_transport().queue().push(
                frame@,
            ),
            old(self).spec_transport().spec_state() != ConnectionState::Connected ==> (r matches Err(
                TransportError::NotConnected,
            ) && final(self).spec_transport().queue() == old(self).spec_transport().queue()),
    {
        match self.adapter.send_frame(frame) {
            Ok(()) => Ok(()),
            Err(e) => Err(TransportError::from(e)),
        }
    }

    /// The frames that arrived, oldest first; none while not connected.
    pub fn receive_frames(&mut self) -> (r: Result<Vec<Vec<u8>>, TransportError>)
        ensures
            final(self).spec_transport().spec_state() == old(self).spec_transport().spec_state(),
            final(self).spec_transport().spec_config() == old(self).spec_transport().spec_config(),
            old(self).spec_transport().spec_state() == ConnectionState::Connected ==> (r matches Ok(
                msgs,
            ) && bytes_of(msgs@) == old(self).spec_transport().queue()
                && final(self).spec_transport().queue() == Seq::<Seq<u8>>::empty()),
            old(self).spec_transport().spec_state() != ConnectionState::Connected ==> (r matches Ok(
                msgs,
            ) && msgs@.len() == 0 && final(self).spec_transport().queue() == old(self).spec_transport().queue()),
    {
        match self.adapter.receive_frames() {
            Ok(m) => Ok(m),
            Err(e) => Err(TransportError::from(e)),
        }
    }

    pub fn leptos_ws_pro_transport(&self) -> (r: &LeptosWsProTransport)
        ensures
            *r == self.spec_transport(),
    {
        self.adapter.transport()
    }

    pub fn message_adapter(&self) -> (r: &MessageProtocolAdapter)
        ensures
            r.spec_transport() == self.spec_transport(),
    {
        &self.adapter
    }
}

impl SyncTransport for CompatibilityTransport {
    open spec fn spec_connected(&self) -> bool {
        self.spec_transport().spec_state() == ConnectionState::Connected
    }

    open spec fn send_outcome(&self, data: Seq<u8>, after: Self, r: Result<(), TransportError>) -> bool {
        exists|ts: Seq<char>|
            frame_sent(self.spec_transport(), after.spec_transport(), r, #[trigger] spec_outgoing_frame(data, ts))
    }

    open spec fn receive_outcome(&self, after: Self, r: Result<Vec<Vec<u8>>, TransportError>) -> bool {
        &&& after.spec_transport().spec_state() == self.spec_transport().spec_state()
        &&& after.spec_transport().spec_config() == self.spec_transport().spec_config()
        &&& self.spec_transport().spec_state() == ConnectionState::Connected ==> (r matches Ok(msgs) && bytes_of(msgs@)
            == self.spec_transport().queue() && after.spec_transport().queue() == Seq::<Seq<u8>>::empty())
        &&& self.spec_transport().spec_state() != ConnectionState::Connected ==> (r matches Ok(msgs) && msgs@.len() == 0
            && after.spec_transport().queue() == self.spec_transport().queue())
    }

    /// Sends the bytes stamped with the current time (see `send_message`).
    fn send(&mut self, data: &[u8]) -> (r: Result<(), TransportError>)
        ensures
            exists|ts: Seq<char>|
                frame_sent(
                    old(self).spec_transport(),
                    final(self).spec_transport(),
                    r,
                    #[trigger] spec_outgoing_frame(data@, ts),
                ),
    {
        let ts = now_rfc3339();
        let r = self.send_message(data, ts.as_str());
        assert(frame_sent(old(self).spec_transport(), self.spec_transport(), r, spec_outgoing_frame(data@, ts@)));
        r
    }

    fn receive(&mut self) -> (r: Result<Vec<Vec<u8>>, TransportError>)
        ensures
            final(self).spec_transport().spec_state() == old(self).spec_transport().spec_state(),
            final(self).spec_transport().spec_config() == old(self).spec_transport().spec_config(),
            old(self).spec_transport().spec_state() == ConnectionState::Connected ==> (r matches Ok(
                msgs,
            ) && bytes_of(msgs@) == old(self).spec_transport().queue()
                && final(self).spec_transport().queue() == Seq::<Seq<u8>>::empty()),
            old(self).spec_transport().spec_state() != ConnectionState::Connected ==> (r matches Ok(
                msgs,
            ) && msgs@.len() == 0 && final(self).spec_transport().queue() == old(self).spec_transport().queue()),
    {
        self.receive_frames()
    }

    fn is_connected(&self) -> (r: bool) {
        self.adapter.transport().is_connected_sync()
    }
}

/// Moves an application onto the compatibility transport.
#[derive(Debug)]
pub struct MigrationHelper {
    new_transport: CompatibilityTransport,
    migration_complete: bool,
}

impl MigrationHelper {
    pub closed spec fn spec_complete(&self) -> bool {
        self.migration_complete
    }

    pub closed spec fn spec_new_transport(&self) -> CompatibilityTransport {
        self.new_transport
    }

    pub fn new(config: LeptosWsProConfig) -> (r: Self)
        ensures
            !r.spec_complete(),
            r.spec_new_transport().spec_transport().spec_config() == config,
            r.spec_new_transport().spec_transport().spec_state() == ConnectionState::Disconnected,
    {
        MigrationHelper { new_transport: CompatibilityTransport::new(config), migration_complete: false }
    }

    /// Connects the new transport; the migration is complete when that succeeds.
    pub fn migrate(&mut self) -> (r: ConnectReport<CompatibilityError>)
        ensures
            final(self).spec_complete() == (old(self).spec_complete() || r.result is Ok),
            old(self).spec_new_transport().spec_transport().spec_state()
                != ConnectionState::Connected ==> (r.result is Ok <==> (old(self).spec_new_transport().spec_transport().spec_config().max_reconnect_attempts > 0
                && !url_refused(old(self).spec_new_transport().spec_transport().spec_config().url@))),
    {
        let report = self.new_transport.connect();
        if report.result.is_ok() {
            self.migration_complete = true;
        }
        report
    }

    pub fn is_migration_complete(&self) -> (r: bool)
        ensures
            r == self.spec_complete(),
    {
        self.migration_complete
    }

    pub fn new_transport(&self) -> (r: &CompatibilityTransport)
        ensures
            *r == self.spec_new_transport(),
    {
        &self.new_transport
    }
}

} // verus!
