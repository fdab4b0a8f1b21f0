//! The WebSocket message protocol for CRDT synchronization, and its
//! versioned envelope.

use crate::ids::ReplicaId;
use vstd::prelude::*;

verus! {

/// A point in time as seconds and nanoseconds since the Unix epoch.
#[derive(Clone, Copy, Debug, PartialEq, Eq, Structural)]
pub struct Timestamp {
    pub secs: u64,
    pub nanos: u32,
}

impl Timestamp {
    /// The Unix epoch itself.
    pub fn unix_epoch() -> (r: Self)
        ensures
            r.secs == 0 && r.nanos == 0,
    {
        Timestamp { secs: 0, nanos: 0 }
    }
}

/// CRDT types that can be synchronized.
#[derive(Clone, Copy, Debug, PartialEq, Eq, Structural)]
pub enum CrdtType {
    LwwRegister,
    LwwMap,
    GCounter,
    RGA,
    LSEQ,
    YjsTree,
    DAG,
    Graph,
    Tree,
}

/// User information for peer identification.
#[derive(Debug, PartialEq, Eq)]
pub struct UserInfo {
    pub user_id: String,
    pub username: Option<String>,
    pub display_name: Option<String>,
    pub avatar_url: Option<String>,
}

impl Clone for UserInfo {
    fn clone(&self) -> (r: Self)
        ensures
            r == *self,
    {
        UserInfo {
            user_id: self.user_id.clone(),
            username: self.username.clone(),
            display_name: self.display_name.clone(),
            avatar_url: self.avatar_url.clone(),
        }
    }
}

/// Server information sent in a welcome message.
#[derive(Clone, Debug, PartialEq, Eq)]
pub struct ServerInfo {
    pub version: String,
    pub max_connections: Option<usize>,
    pub features: Vec<String>,
}

/// Presence action types.
#[derive(Clone, Copy, Debug, PartialEq, Eq, Structural)]
pub enum PresenceAction {
    Join,
    Leave,
    Update,
}

/// WebSocket synchronization messages.
#[derive(Clone, Debug, PartialEq, Eq)]
pub enum SyncMessage {
    /// CRDT delta message
    Delta {
        collection_id: String,
        crdt_type: CrdtType,
        delta: Vec<u8>,
        timestamp: Timestamp,
        replica_id: ReplicaId,
    },
    /// Heartbeat message to maintain connection
    Heartbeat { replica_id: ReplicaId, timestamp: Timestamp },
    /// Peer joining the session
    PeerJoin { replica_id: ReplicaId, user_info: Option<UserInfo> },
    /// Peer leaving the session
    PeerLeave { replica_id: ReplicaId },
    /// Welcome message from server
    Welcome { peer_id: ReplicaId, timestamp: Timestamp, server_info: Option<ServerInfo> },
    /// Presence update
    Presence { peer_id: ReplicaId, action: PresenceAction, timestamp: Timestamp },
    /// Binary data acknowledgment
    BinaryAck { peer_id: ReplicaId, size: usize, timestamp: Timestamp },
}

impl SyncMessage {
    /// The name of the message's type in the message schema.
    pub open spec fn spec_message_type(&self) -> Seq<char> {
        match self {
            SyncMessage::Delta { .. } => "delta"@,
            SyncMessage::Heartbeat { .. } => "heartbeat"@,
            SyncMessage::PeerJoin { .. } => "peer_join"@,
            SyncMessage::PeerLeave { .. } => "peer_leave"@,
            SyncMessage::Welcome { .. } => "welcome"@,
            SyncMessage::Presence { .. } => "presence"@,
            SyncMessage::BinaryAck { .. } => "binary_ack"@,
        }
    }

    pub fn message_type(&self) -> (r: &'static str)
        ensures
            r@ == self.spec_message_type(),
    {
        match self {
            SyncMessage::Delta { .. } => "delta",
            SyncMessage::Heartbeat { .. } => "heartbeat",
            SyncMessage::PeerJoin { .. } => "peer_join",
            SyncMessage::PeerLeave { .. } => "peer_leave",
            SyncMessage::Welcome { .. } => "welcome",
            SyncMessage::Presence { .. } => "presence",
            SyncMessage::BinaryAck { .. } => "binary_ack",
        }
    }
}

/// The protocol version this library speaks.
pub const PROTOCOL_VERSION: u32 = 1;

/// Message envelope with protocol versioning.
#[derive(Clone, Debug, PartialEq, Eq)]
pub struct MessageWrapper {
    pub version: u32,
    pub message: SyncMessage,
    pub message_id: Option<String>,
}

impl MessageWrapper {
    pub const PROTOCOL_VERSION: u32 = 1;

    pub fn new(message: SyncMessage) -> (r: Self)
        ensures
            r.version == PROTOCOL_VERSION,
            r.message == message,
            r.message_id is None,
    {
        MessageWrapper { version: PROTOCOL_VERSION, message, message_id: None }
    }

    pub fn with_id(message: SyncMessage, message_id: String) -> (r: Self)
        ensures
            r.version == PROTOCOL_VERSION,
            r.message == message,
            r.message_id == Some(message_id),
    {
        MessageWrapper { version: PROTOCOL_VERSION, message, message_id: Some(message_id) }
    }
}

/// Why an envelope was refused.
#[derive(Clone, Debug, PartialEq, Eq)]
pub enum CodecError {
    /// The envelope's bytes are not a well-formed envelope.
    Malformed(String),
    /// The envelope was written by a newer protocol.
    UnsupportedVersion { version: u32, supported: u32 },
}

/// The envelope in which a message is sent.
pub open spec fn wrapped(message: SyncMessage) -> MessageWrapper {
    MessageWrapper { version: PROTOCOL_VERSION, message, message_id: None }
}

/// What a received envelope gives: its message, unless it comes from a
/// newer protocol version.
pub open spec fn accepted(wrapper: MessageWrapper) -> Result<SyncMessage, CodecError> {
    if wrapper.version > PROTOCOL_VERSION {
        Err(CodecError::UnsupportedVersion { version: wrapper.version, supported: PROTOCOL_VERSION })
    } else {
        Ok(wrapper.message)
    }
}

/// Envelope handling: what is sent and what is accepted.
pub struct MessageCodec;

impl MessageCodec {
    pub fn wrap(message: SyncMessage) -> (r: MessageWrapper)
        ensures
            r == wrapped(message),
    {
        MessageWrapper::new(message)
    }

    pub fn unwrap_envelope(wrapper: MessageWrapper) -> (r: Result<SyncMessage, CodecError>)
        ensures
            r == accepted(wrapper),
    {
        if wrapper.version > PROTOCOL_VERSION {
            Err(CodecError::UnsupportedVersion { version: wrapper.version, supported: PROTOCOL_VERSION })
        } else {
            Ok(wrapper.message)
        }
    }
}

/// A message sent in an envelope is accepted by the receiver as it was
/// sent, whatever identifier the envelope carries.
pub proof fn law_envelope_round_trip(message: SyncMessage, id: Option<String>)
    ensures
        accepted(wrapped(message)) == Ok::<SyncMessage, CodecError>(message),
        accepted(MessageWrapper { message_id: id, ..wrapped(message) }) == Ok::<SyncMessage, CodecError>(
            message,
        ),
{
}

} // verus!
