//! The rules of the standalone relay server: whom it admits, which frames it
//! takes, what it does with each kind of message, and the counts it keeps.

use crate::json::{encode_json_texts_with, json_str_field, json_str_field_of, json_text_object_with_of};
use crate::text::{str_eq, texts};
use crate::transport::compatibility::text_of;
use vstd::prelude::*;
use vstd::string::*;

verus! {

/// Most peers connected at once.
pub const MAX_CONNECTIONS: usize = 1000;

/// Time between server heartbeats, in milliseconds.
pub const HEARTBEAT_INTERVAL_MS: u64 = 30_000;

/// Time after which a silent peer is dropped, in milliseconds.
pub const CONNECTION_TIMEOUT_MS: u64 = 300_000;

/// Largest frame taken, in bytes.
pub const MAX_MESSAGE_SIZE: usize = 1_048_576;

/// A new peer is admitted while fewer than the maximum are connected.
pub fn accepts_connection(active: usize) -> (r: bool)
    ensures
        r == (active < MAX_CONNECTIONS),
{
    active < MAX_CONNECTIONS
}

/// A frame is taken unless it is larger than the maximum.
pub fn within_size_limit(len: usize) -> (r: bool)
    ensures
        r == (len <= MAX_MESSAGE_SIZE),
{
    len <= MAX_MESSAGE_SIZE
}

/// What the relay does with a message, by its `type` field.
#[derive(Clone, Copy, Debug, PartialEq, Eq, Structural)]
pub enum RelayAction {
    /// Relay the data to every peer, as the sender's, and count it.
    RelaySync,
    /// A heartbeat: nothing to relay.
    Heartbeat,
    /// Relay the presence action to every peer, as the sender's.
    RelayPresence,
    /// Not understood: only noted.
    Unknown,
}

pub open spec fn spec_relay_action(msg_type: Option<Seq<char>>) -> RelayAction {
    match msg_type {
        Some(t) => if t == "sync"@ {
            RelayAction::RelaySync
        } else if t == "heartbeat"@ {
            RelayAction::Heartbeat
        } else if t == "presence"@ {
            RelayAction::RelayPresence
        } else {
            RelayAction::Unknown
        },
        None => RelayAction::Unknown,
    }
}

/// The action for a message whose `type` field is `msg_type` (none where the
/// field is missing or not text).
pub fn relay_action(msg_type: Option<&str>) -> (r: RelayAction)
    ensures
        r == spec_relay_action(
            match msg_type {
                Some(t) => Some(t@),
                None => None,
            },
        ),
{
    match msg_type {
        Some(t) => {
            if str_eq(t, "sync") {
                proof {
                    reveal_strlit("sync");
                }
                RelayAction::RelaySync
            } else if str_eq(t, "heartbeat") {
                proof {
                    reveal_strlit("heartbeat");
                }
                RelayAction::Heartbeat
            } else if str_eq(t, "presence") {
                proof {
                    reveal_strlit("presence");
                }
                RelayAction::RelayPresence
            } else {
                proof {
                    reveal_strlit("sync");
                    reveal_strlit("heartbeat");
                    reveal_strlit("presence");
                }
                RelayAction::Unknown
            }
        },
        None => RelayAction::Unknown,
    }
}

/// The counts the relay keeps.
#[derive(Clone, Copy, Debug, PartialEq, Eq, Structural)]
pub struct RelayStats {
    pub total_connections: u64,
    pub active_connections: usize,
    pub total_messages: u64,
}

impl RelayStats {
    pub fn new() -> (r: Self)
        ensures
            r.total_connections == 0 && r.active_connections == 0 && r.total_messages == 0,
    {
        RelayStats { total_connections: 0, active_connections: 0, total_messages: 0 }
    }

    /// A peer joined; `active` peers are now connected.
    pub fn connected(&mut self, active: usize)
        requires
            old(self).total_connections < u64::MAX,
        ensures
            final(self).total_connections == old(self).total_connections + 1,
            final(self).active_connections == active,
            final(self).total_messages == old(self).total_messages,
    {
        self.total_connections = self.total_connections + 1;
        self.active_connections = active;
    }

    /// A peer left; `active` peers are now connected.
    pub fn disconnected(&mut self, active: usize)
        ensures
            final(self).total_connections == old(self).total_connections,
            final(self).active_connections == active,
            final(self).total_messages == old(self).total_messages,
    {
        self.active_connections = active;
    }

    /// A sync message was relayed.
    pub fn relayed(&mut self)
        requires
            old(self).total_messages < u64::MAX,
        ensures
            final(self).total_messages == old(self).total_messages + 1,
            final(self).total_connections == old(self).total_connections,
            final(self).active_connections == old(self).active_connections,
    {
        self.total_messages = self.total_messages + 1;
    }
}

/// The relay's answer to a text frame from the peer `peer_id`, at the time
/// `timestamp`: an oversize frame or one that is not JSON is dropped; a sync
/// message is relayed as the peer's, with its `data` (JSON `null` where it
/// has none), and counted; a presence message is relayed as the peer's, with
/// its `action` (likewise); anything else (a heartbeat among them) is not
/// relayed.
pub fn relay_text_frame(peer_id: &str, text: &[u8], timestamp: &str, stats: &mut RelayStats) -> (r:
    Option<Vec<u8>>)
    requires
        old(stats).total_messages < u64::MAX,
    ensures
        text@.len() > MAX_MESSAGE_SIZE ==> r is None && *final(stats) == *old(stats),
        text@.len() <= MAX_MESSAGE_SIZE ==> match json_str_field_of(text@, "type"@) {
            None => r is None && *final(stats) == *old(stats),
            Some(t) => match spec_relay_action(t) {
                RelayAction::RelaySync => (r matches Some(f) && f@ == json_text_object_with_of(
                    seq!["type"@, "peer_id"@, "timestamp"@],
                    seq!["sync"@, peer_id@, timestamp@],
                    text@,
                    "data"@,
                )) && final(stats).total_messages == old(stats).total_messages + 1
                    && final(stats).total_connections == old(stats).total_connections
                    && final(stats).active_connections == old(stats).active_connections,
                RelayAction::RelayPresence => (r matches Some(f) && f@ == json_text_object_with_of(
                    seq!["type"@, "peer_id"@, "timestamp"@],
                    seq!["presence"@, peer_id@, timestamp@],
                    text@,
                    "action"@,
                )) && *final(stats) == *old(stats),
                _ => r is None && *final(stats) == *old(stats),
            },
        },
{
    if !within_size_limit(text.len()) {
        return None;
    }
    let t = match json_str_field(text, "type") {
        None => {
            return None;
        },
        Some(t) => t,
    };
    let ghost tv = text_of(t);
    let action = match &t {
        Some(x) => relay_action(Some(x.as_str())),
        None => relay_action(None),
    };
    assert(action == spec_relay_action(tv));
    let copied = match action {
        RelayAction::RelaySync => "data",
        RelayAction::RelayPresence => "action",
        _ => {
            return None;
        },
    };
    let kind = match action {
        RelayAction::RelaySync => "sync",
        _ => "presence",
    };
    let mut keys: Vec<String> = Vec::new();
    let mut values: Vec<String> = Vec::new();
    keys.push(String::from_str("type"));
    keys.push(String::from_str("peer_id"));
    keys.push(String::from_str("timestamp"));
    values.push(String::from_str(kind));
    values.push(String::from_str(peer_id));
    values.push(String::from_str(timestamp));
    assert(texts(keys@) =~= seq!["type"@, "peer_id"@, "timestamp"@]);
    assert(texts(values@) =~= seq![kind@, peer_id@, timestamp@]);
    let frame = encode_json_texts_with(&keys, &values, text, copied);
    if action == RelayAction::RelaySync {
        stats.relayed();
    }
    Some(frame)
}

} // verus!
