//! The synchronization server: which clients are connected, the rooms they
//! are in, and to whom each message is relayed.
//!
//! The server decides; the caller owns the sockets, encodes the messages it
//! is handed and delivers them to the recipients named with them.

use crate::ids::ReplicaId;
use crate::keyed::KeyedMap;
use crate::protocol::{PresenceAction, ServerInfo as WelcomeInfo, SyncMessage, Timestamp, UserInfo};
use crate::text::texts;
use vstd::prelude::*;
use vstd::string::*;

verus! {

#[derive(Debug)]
pub enum WebSocketServerError {
    ConnectionError(String),
    MessageError(String),
    RoomError(String),
    SerializationError(String),
}

/// Server settings (durations in milliseconds).
#[derive(Debug, PartialEq, Eq)]
pub struct WebSocketServerConfig {
    pub host: String,
    pub port: u16,
    pub max_connections: Option<usize>,
    pub heartbeat_interval_ms: u64,
    pub connection_timeout_ms: u64,
    pub message_timeout_ms: u64,
    pub enable_compression: bool,
    pub enable_rate_limiting: bool,
    pub rate_limit_per_minute: usize,
}

impl Default for WebSocketServerConfig {
    /// 127.0.0.1:3001, up to 1000 clients, heartbeats every 30 s, clients
    /// dropped after 60 s of silence, rate limited to 100 messages a minute.
    fn default() -> (r: Self)
        ensures
            r.host@ == "127.0.0.1"@,
            r.port == 3001,
            r.max_connections == Some(1000usize),
            r.heartbeat_interval_ms == 30_000,
            r.connection_timeout_ms == 60_000,
            r.message_timeout_ms == 10_000,
            !r.enable_compression,
            r.enable_rate_limiting,
            r.rate_limit_per_minute == 100,
    {
        WebSocketServerConfig {
            host: String::from_str("127.0.0.1"),
            port: 3001,
            max_connections: Some(1000),
            heartbeat_interval_ms: 30_000,
            connection_timeout_ms: 60_000,
            message_timeout_ms: 10_000,
            enable_compression: false,
            enable_rate_limiting: true,
            rate_limit_per_minute: 100,
        }
    }
}

/// A connected client.
#[derive(Debug, PartialEq, Eq)]
pub struct ClientInfo {
    pub replica_id: ReplicaId,
    pub user_info: Option<UserInfo>,
    pub connected_at: Timestamp,
    pub last_heartbeat: Timestamp,
    pub message_count: usize,
    pub room_id: Option<String>,
}

impl Clone for ClientInfo {
    fn clone(&self) -> (r: Self)
        ensures
            r == *self,
    {
        ClientInfo {
            replica_id: self.replica_id,
            user_info: match &self.user_info {
                Some(u) => Some(u.clone()),
                None => None,
            },
            connected_at: self.connected_at,
            last_heartbeat: self.last_heartbeat,
            message_count: self.message_count,
            room_id: self.room_id.clone(),
        }
    }
}

/// A room and the clients in it.
#[derive(Debug)]
pub struct RoomInfo {
    pub id: String,
    pub name: String,
    pub clients: Vec<ReplicaId>,
    pub created_at: Timestamp,
    pub max_clients: Option<usize>,
}

/// What the server tells its clients about itself.
#[derive(Debug)]
pub struct ServerInfo {
    pub version: String,
    pub max_connections: Option<usize>,
    pub features: Vec<String>,
}

/// Server statistics. `uptime` is the time since the Unix epoch at which
/// they were taken.
#[derive(Clone, Copy, Debug, PartialEq, Eq, Structural)]
pub struct ServerStats {
    pub connected_clients: usize,
    pub total_rooms: usize,
    pub uptime: Timestamp,
    pub total_messages: usize,
}

/// Who receives a message.
#[derive(Debug)]
pub enum Recipients {
    /// One client.
    Client(ReplicaId),
    /// Every connected client.
    All,
    /// The listed clients.
    Clients(Vec<ReplicaId>),
}

/// A message and who receives it.
#[derive(Debug)]
pub struct Outgoing {
    pub to: Recipients,
    pub message: SyncMessage,
}

/// A message for every client.
pub open spec fn broadcast(o: Outgoing, m: SyncMessage) -> bool {
    o.to is All && o.message == m
}

/// Nanoseconds since the epoch.
pub open spec fn nanos(t: Timestamp) -> int {
    t.secs * 1_000_000_000 + t.nanos
}

/// The time from `earlier` to `later`, in nanoseconds; nothing where
/// `later` is not after `earlier`.
pub open spec fn elapsed_nanos(later: Timestamp, earlier: Timestamp) -> int {
    if nanos(later) > nanos(earlier) {
        nanos(later) - nanos(earlier)
    } else {
        0
    }
}

/// A client silent for longer than the timeout is stale.
pub open spec fn is_stale(c: ClientInfo, now: Timestamp, timeout_ms: u64) -> bool {
    elapsed_nanos(now, c.last_heartbeat) > timeout_ms * 1_000_000
}

/// The sum of the message counts.
pub open spec fn message_total(cs: Seq<ClientInfo>) -> int
    decreases cs.len(),
{
    if cs.len() == 0 {
        0
    } else {
        message_total(cs.drop_last()) + cs.last().message_count
    }
}

/// Every replica but `client`.
pub open spec fn other_than(client: u128) -> spec_fn(ReplicaId) -> bool {
    |c: ReplicaId| c@ != client
}

/// The room members with one client taken out of a room; a room left
/// empty is dropped.
pub open spec fn members_without(
    members: Map<Seq<char>, Seq<ReplicaId>>,
    room_id: Seq<char>,
    client: u128,
) -> Map<Seq<char>, Seq<ReplicaId>> {
    if members.contains_key(room_id) {
        let kept = members[room_id].filter(other_than(client));
        if kept.len() == 0 {
            members.remove(room_id)
        } else {
            members.insert(room_id, kept)
        }
    } else {
        members
    }
}

/// A client that connects and then disconnects, without joining a room,
/// leaves the clients as they were.
pub proof fn law_disconnect_undoes_connect(clients: Map<u128, ClientInfo>, c: ClientInfo)
    requires
        !clients.contains_key(c.replica_id@),
    ensures
        clients.insert(c.replica_id@, c).remove(c.replica_id@) == clients,
{
    assert(clients.insert(c.replica_id@, c).remove(c.replica_id@) =~= clients);
}

/// Taking a client out of a room it is not in leaves that room's members
/// as they were.
pub proof fn law_leaving_a_room_keeps_the_others(
    members: Map<Seq<char>, Seq<ReplicaId>>,
    room: Seq<char>,
    client: u128,
)
    requires
        members.contains_key(room),
        forall|i: int| 0 <= i < members[room].len() ==> (#[trigger] members[room][i])@ != client,
        members[room].len() > 0,
    ensures
        members_without(members, room, client) == members,
{
    let pred = other_than(client);
    assert(members[room].filter(pred) =~= members[room]) by {
        members[room].filter_lemma(pred);
        lemma_filter_all(members[room], pred);
    }
    assert(members.insert(room, members[room]) =~= members);
}

/// Filtering a sequence by a predicate every element meets keeps it whole.
proof fn lemma_filter_all(s: Seq<ReplicaId>, pred: spec_fn(ReplicaId) -> bool)
    requires
        forall|i: int| 0 <= i < s.len() ==> pred(#[trigger] s[i]),
    ensures
        s.filter(pred) == s,
    decreases s.len(),
{
    reveal(Seq::filter);
    if s.len() > 0 {
        lemma_filter_all(s.drop_last(), pred);
        assert(s.drop_last().push(s.last()) =~= s);
    } else {
        assert(s.filter(pred) =~= s);
    }
}

fn timestamp_nanos(t: Timestamp) -> (r: u128)
    ensures
        r == nanos(t),
{
    assert(t.secs * 1_000_000_000 + t.nanos <= u128::MAX) by (nonlinear_arith)
        requires
            t.secs <= u64::MAX,
            t.nanos <= u32::MAX,
    ;
    t.secs as u128 * 1_000_000_000 + t.nanos as u128
}

/// The synchronization server.
pub struct WebSocketServer {
    config: WebSocketServerConfig,
    clients: KeyedMap<ReplicaId, ClientInfo>,
    rooms: KeyedMap<String, RoomInfo>,
    server_info: ServerInfo,
}

impl WebSocketServer {
    pub closed spec fn wf(&self) -> bool {
        self.clients.wf() && self.rooms.wf()
    }

    pub closed spec fn spec_config(&self) -> WebSocketServerConfig {
        self.config
    }

    /// The connected clients, by replica id.
    pub closed spec fn client_map(&self) -> Map<u128, ClientInfo> {
        self.clients.map()
    }

    /// The clients, in the order they connected.
    pub closed spec fn client_order(&self) -> Seq<u128> {
        self.clients.key_seq()
    }

    pub closed spec fn client_entries(&self) -> Seq<ClientInfo> {
        self.clients.entries().map_values(|e: (ReplicaId, ClientInfo)| e.1)
    }

    /// The members of each room, by room id.
    pub closed spec fn room_members(&self) -> Map<Seq<char>, Seq<ReplicaId>> {
        self.rooms.map().map_values(|r: RoomInfo| r.clients@)
    }

    pub closed spec fn spec_server_info(&self) -> ServerInfo {
        self.server_info
    }

    /// A server with no clients and no rooms, announcing version 1.0.0 with
    /// sync, presence and rooms, and the configured connection limit.
    pub fn new(config: WebSocketServerConfig) -> (r: Self)
        ensures
            r.wf(),
            r.spec_config() == config,
            r.client_map() == Map::<u128, ClientInfo>::empty(),
            r.room_members() == Map::<Seq<char>, Seq<ReplicaId>>::empty(),
            r.spec_server_info().version@ == "1.0.0"@,
            r.spec_server_info().max_connections == config.max_connections,
            texts(r.spec_server_info().features@) == seq!["crdt-sync"@, "presence"@, "rooms"@],
    {
        let mut features: Vec<String> = Vec::new();
        features.push(String::from_str("crdt-sync"));
        features.push(String::from_str("presence"));
        features.push(String::from_str("rooms"));
        let server_info = ServerInfo {
            version: String::from_str("1.0.0"),
            max_connections: config.max_connections,
            features,
        };
        let r = WebSocketServer { config, clients: KeyedMap::new(), rooms: KeyedMap::new(), server_info };
        assert(texts(r.server_info.features@) =~= seq!["crdt-sync"@, "presence"@, "rooms"@]);
        assert(r.room_members() =~= Map::<Seq<char>, Seq<ReplicaId>>::empty());
        r
    }

    /// Starting needs nothing from the server itself: the caller starts the
    /// heartbeat monitor and the room cleanup.
    pub fn start(&self) -> (r: Result<(), WebSocketServerError>)
        ensures
            r is Ok,
    {
        Ok(())
    }

    /// Stops: every client is announced as gone, in the order they
    /// connected, and none remains.
    pub fn stop(&mut self) -> (r: Result<Vec<Outgoing>, WebSocketServerError>)
        requires
            old(self).wf(),
        ensures
            final(self).wf(),
            final(self).client_map() == Map::<u128, ClientInfo>::empty(),
            final(self).room_members() == old(self).room_members(),
            r matches Ok(out) && out@.len() == old(self).client_order().len() && forall|i: int|
                0 <= i < out@.len() ==> (#[trigger] out@[i].message matches SyncMessage::PeerLeave {
                    replica_id,
                } && replica_id@ == old(self).client_order()[i] && out@[i].to is All),
    {
        let n = self.clients.entry_count();
        let mut out: Vec<Outgoing> = Vec::new();
        let mut i: usize = 0;
        proof {
            self.clients.lemma_key_seq_contains(arbitrary());
        }
        while i < n
            invariant
                self.wf(),
                n == self.clients.entries().len(),
                n == self.client_order().len(),
                forall|j: int| 0 <= j < n ==> #[trigger] self.client_order()[j]
                    == self.clients.entries()[j].0@,
                i <= n,
                out@.len() == i,
                forall|j: int| 0 <= j < i ==> (#[trigger] out@[j].message matches SyncMessage::PeerLeave {
                    replica_id,
                } && replica_id@ == self.client_order()[j] && out@[j].to is All),
            decreases n - i,
        {
            let (id, _c) = self.clients.entry_at(i);
            out.push(Outgoing { to: Recipients::All, message: SyncMessage::PeerLeave { replica_id: *id } });
            i = i + 1;
        }
        self.clients.clear();
        Ok(out)
    }

    /// A client connects: refused when the limit is reached; otherwise it
    /// is registered (heard from `now`, in no room), welcomed, and announced
    /// to everyone.
    pub fn handle_client_connection(
        &mut self,
        replica_id: ReplicaId,
        user_info: Option<UserInfo>,
        now: Timestamp,
    ) -> (r: Result<Vec<Outgoing>, WebSocketServerError>)
        requires
            old(self).wf(),
        ensures
            final(self).wf(),
            final(self).room_members() == old(self).room_members(),
            (old(self).spec_config().max_connections matches Some(m) && old(self).client_map().len()
                >= m) ==> (r matches Err(WebSocketServerError::ConnectionError(s)) && s@
                == "Server at maximum capacity"@) && final(self).client_map()
                == old(self).client_map(),
            !(old(self).spec_config().max_connections matches Some(m) && old(self).client_map().len()
                >= m) ==> final(self).client_map() == old(self).client_map().insert(
                replica_id@,
                ClientInfo {
                    replica_id,
                    user_info,
                    connected_at: now,
                    last_heartbeat: now,
                    message_count: 0,
                    room_id: None,
                },
            ) && (r matches Ok(out) && out@.len() == 2 && out@[0].to == Recipients::Client(replica_id)
                && (out@[0].message matches SyncMessage::Welcome { peer_id, timestamp, server_info: Some(info) }
                && peer_id == replica_id && timestamp == now && info.version@
                == old(self).spec_server_info().version@ && info.max_connections
                == old(self).spec_server_info().max_connections && texts(info.features@) == texts(
                old(self).spec_server_info().features@,
            )) && broadcast(out@[1], SyncMessage::PeerJoin { replica_id, user_info })),
            final(self).spec_config() == old(self).spec_config(),
            final(self).spec_server_info() == old(self).spec_server_info(),
    {
        match self.config.max_connections {
            Some(max) => {
                if self.clients.len() >= max {
                    return Err(
                        WebSocketServerError::ConnectionError(String::from_str("Server at maximum capacity")),
                    );
                }
            },
            None => {},
        }
        let ghost ui = user_info;
        let copy = match &user_info {
            Some(u) => Some(u.clone()),
            None => None,
        };
        let _ = self.clients.insert(
            replica_id,
            ClientInfo {
                replica_id,
                user_info: copy,
                connected_at: now,
                last_heartbeat: now,
                message_count: 0,
                room_id: None,
            },
        );
        let mut out: Vec<Outgoing> = Vec::new();
        out.push(Outgoing { to: Recipients::Client(replica_id), message: self.welcome_message(replica_id, now) });
        out.push(Outgoing { to: Recipients::All, message: SyncMessage::PeerJoin { replica_id, user_info } });
        Ok(out)
    }

    /// The welcome a client receives.
    fn welcome_message(&self, replica_id: ReplicaId, now: Timestamp) -> (r: SyncMessage)
        ensures
            r matches SyncMessage::Welcome { peer_id, timestamp, server_info: Some(info) } && peer_id
                == replica_id && timestamp == now && info.version@ == self.spec_server_info().version@
                && info.max_connections == self.spec_server_info().max_connections && texts(
                info.features@,
            ) == texts(self.spec_server_info().features@),
    {
        let mut features: Vec<String> = Vec::new();
        let mut i: usize = 0;
        while i < self.server_info.features.len()
            invariant
                i <= self.server_info.features@.len(),
                features@.len() == i,
                forall|j: int| 0 <= j < i ==> #[trigger] features@[j]@ == self.server_info.features@[j]@,
            decreases self.server_info.features@.len() - i,
        {
            features.push(self.server_info.features[i].clone());
            i = i + 1;
        }
        assert(texts(features@) =~= texts(self.server_info.features@));
        SyncMessage::Welcome {
            peer_id: replica_id,
            timestamp: now,
            server_info: Some(
                WelcomeInfo {
                    version: self.server_info.version.clone(),
                    max_connections: self.server_info.max_connections,
                    features,
                },
            ),
        }
    }

    /// Takes a client out of a room; a room left empty is dropped.
    fn remove_client_from_room(&mut self, replica_id: ReplicaId, room_id: &String)
        requires
            old(self).wf(),
        ensures
            final(self).wf(),
            final(self).room_members() == members_without(old(self).room_members(), room_id@, replica_id@),
            final(self).client_map() == old(self).client_map(),
            final(self).client_order() == old(self).client_order(),
            final(self).client_entries() == old(self).client_entries(),
            final(self).spec_config() == old(self).spec_config(),
            final(self).spec_server_info() == old(self).spec_server_info(),
    {
        match self.rooms.find(room_id) {
            None => {
                proof {
                    assert(!old(self).room_members().contains_key(room_id@));
                }
            },
            Some(i) => {
                let (_k, room) = self.rooms.entry_at(i);
                let ghost members = room.clients@;
                let mut kept: Vec<ReplicaId> = Vec::new();
                let mut j: usize = 0;
                while j < room.clients.len()
                    invariant
                        j <= members.len(),
                        members == room.clients@,
                        kept@ == members.take(j as int).filter(other_than(replica_id@)),
                    decreases members.len() - j,
                {
                    let c = room.clients[j];
                    proof {
                        assert(members.take(j + 1) =~= members.take(j as int).push(members[j as int]));
                        members.take(j as int).lemma_filter_push(
                            members[j as int],
                            other_than(replica_id@),
                        );
                    }
                    if c.0 != replica_id.0 {
                        kept.push(c);
                    }
                    j = j + 1;
                }
                assert(members.take(members.len() as int) =~= members);
                if kept.len() == 0 {
                    let _ = self.rooms.remove(room_id);
                    proof {
                        assert(self.room_members() =~= members_without(
                            old(self).room_members(),
                            room_id@,
                            replica_id@,
                        ));
                    }
                } else {
                    let updated = RoomInfo {
                        id: room.id.clone(),
                        name: room.name.clone(),
                        clients: kept,
                        created_at: room.created_at,
                        max_clients: room.max_clients,
                    };
                    let _ = self.rooms.replace_value_at(i, updated);
                    proof {
                        assert(self.room_members() =~= members_without(
                            old(self).room_members(),
                            room_id@,
                            replica_id@,
                        ));
                    }
                }
            },
        }
    }

    /// A client leaves: it is taken out of its room, forgotten, and its
    /// departure announced to everyone.
    pub fn handle_client_disconnection(&mut self, replica_id: ReplicaId) -> (r: Result<
        Vec<Outgoing>,
        WebSocketServerError,
    >)
        requires
            old(self).wf(),
        ensures
            final(self).wf(),
            final(self).client_map() == old(self).client_map().remove(replica_id@),
            old(self).client_map().contains_key(replica_id@) && old(self).client_map()[replica_id@].room_id
                is Some ==> final(self).room_members() == members_without(
                old(self).room_members(),
                old(self).client_map()[replica_id@].room_id.unwrap()@,
                replica_id@,
            ),
            !(old(self).client_map().contains_key(replica_id@) && old(self).client_map()[replica_id@].room_id
                is Some) ==> final(self).room_members() == old(self).room_members(),
            r matches Ok(out) && out@.len() == 1 && broadcast(
                out@[0],
                SyncMessage::PeerLeave { replica_id },
            ),
            final(self).spec_config() == old(self).spec_config(),
            final(self).spec_server_info() == old(self).spec_server_info(),
    {
        let room = match self.clients.get(&replica_id) {
            Some(c) => c.room_id.clone(),
            None => None,
        };
        match room {
            Some(room_id) => {
                self.remove_client_from_room(replica_id, &room_id);
            },
            None => {},
        }
        let _ = self.clients.remove(&replica_id);
        let mut out: Vec<Outgoing> = Vec::new();
        out.push(Outgoing { to: Recipients::All, message: SyncMessage::PeerLeave { replica_id } });
        Ok(out)
    }

    /// A message from a client: a known sender is recorded as heard from at
    /// `now`, with one more message. Heartbeats go no further; deltas go to
    /// the other members of the sender's room, or to everyone where it is in
    /// none; a presence update is relayed as the sender's, stamped `now`;
    /// anything else is relayed to everyone.
    pub fn handle_client_message(
        &mut self,
        replica_id: ReplicaId,
        message: SyncMessage,
        now: Timestamp,
    ) -> (r: Result<Vec<Outgoing>, WebSocketServerError>)
        requires
            old(self).wf(),
            old(self).client_map().contains_key(replica_id@) ==> old(self).client_map()[replica_id@].message_count
                < usize::MAX,
        ensures
            final(self).wf(),
            final(self).room_members() == old(self).room_members(),
            old(self).client_map().contains_key(replica_id@) ==> final(self).client_map()
                == old(self).client_map().insert(
                replica_id@,
                ClientInfo {
                    last_heartbeat: now,
                    message_count: (old(self).client_map()[replica_id@].message_count + 1) as usize,
                    ..old(self).client_map()[replica_id@]
                },
            ),
            !old(self).client_map().contains_key(replica_id@) ==> final(self).client_map()
                == old(self).client_map(),
            r is Ok,
            r matches Ok(out) && match message {
                SyncMessage::Heartbeat { .. } => out@.len() == 0,
                SyncMessage::Delta { .. } => out@.len() == 1 && out@[0].message == message && if (old(self).client_map().contains_key(replica_id@) && old(self).client_map()[replica_id@].room_id
                    is Some) {
                    out@[0].to matches Recipients::Clients(ids) && ids@ == (
                        if old(self).room_members().contains_key(
                            old(self).client_map()[replica_id@].room_id.unwrap()@,
                        ) {
                            old(self).room_members()[old(self).client_map()[replica_id@].room_id.unwrap()@]
                        } else {
                            Seq::empty()
                        }
                    ).filter(other_than(replica_id@))
                } else {
                    out@[0].to is All
                },
                SyncMessage::Presence { action, .. } => out@.len() == 1 && broadcast(
                    out@[0],
                    SyncMessage::Presence { peer_id: replica_id, action, timestamp: now },
                ),
                _ => out@.len() == 1 && broadcast(out@[0], message),
            },
            final(self).spec_config() == old(self).spec_config(),
            final(self).spec_server_info() == old(self).spec_server_info(),
    {
        let mut room: Option<String> = None;
        match self.clients.find(&replica_id) {
            Some(i) => {
                let (_k, c) = self.clients.entry_at(i);
                let mut updated = c.clone();
                updated.last_heartbeat = now;
                updated.message_count = updated.message_count + 1;
                room = updated.room_id.clone();
                let _ = self.clients.replace_value_at(i, updated);
            },
            None => {},
        }
        let mut out: Vec<Outgoing> = Vec::new();
        match message {
            SyncMessage::Heartbeat { .. } => {},
            SyncMessage::Delta { .. } => {
                match room {
                    Some(room_id) => {
                        let members = self.room_clients_except(&room_id, replica_id);
                        out.push(Outgoing { to: Recipients::Clients(members), message });
                    },
                    None => {
                        out.push(Outgoing { to: Recipients::All, message });
                    },
                }
            },
            SyncMessage::Presence { peer_id: _, action, timestamp: _ } => {
                out.push(
                    Outgoing {
                        to: Recipients::All,
                        message: SyncMessage::Presence { peer_id: replica_id, action, timestamp: now },
                    },
                );
            },
            _ => {
                out.push(Outgoing { to: Recipients::All, message });
            },
        }
        Ok(out)
    }

    /// The members of a room other than `sender`, in room order; none where
    /// the room does not exist.
    fn room_clients_except(&self, room_id: &String, sender: ReplicaId) -> (r: Vec<ReplicaId>)
        requires
            self.wf(),
        ensures
            r@ == (if self.room_members().contains_key(room_id@) {
                self.room_members()[room_id@]
            } else {
                Seq::empty()
            }).filter(other_than(sender@)),
    {
        let mut kept: Vec<ReplicaId> = Vec::new();
        match self.rooms.get(room_id) {
            Some(room) => {
                let ghost members = room.clients@;
                let mut j: usize = 0;
                while j < room.clients.len()
                    invariant
                        j <= members.len(),
                        members == room.clients@,
                        kept@ == members.take(j as int).filter(other_than(sender@)),
                    decreases members.len() - j,
                {
                    let c = room.clients[j];
                    proof {
                        assert(members.take(j + 1) =~= members.take(j as int).push(members[j as int]));
                        members.take(j as int).lemma_filter_push(
                            members[j as int],
                            other_than(sender@),
                        );
                    }
                    if c.0 != sender.0 {
                        kept.push(c);
                    }
                    j = j + 1;
                }
                assert(members.take(members.len() as int) =~= members);
                kept
            },
            None => {
                assert(Seq::<ReplicaId>::empty().filter(other_than(sender@)) =~= Seq::<
                    ReplicaId,
                >::empty());
                kept
            },
        }
    }

    /// The clients silent for longer than the connection timeout are
    /// dropped, and each departure announced to everyone.
    pub fn remove_stale_clients(&mut self, now: Timestamp) -> (r: Vec<Outgoing>)
        requires
            old(self).wf(),
        ensures
            final(self).wf(),
            forall|k: u128| #[trigger] final(self).client_map().contains_key(k) <==> old(self).client_map().contains_key(k) && !is_stale(
                old(self).client_map()[k],
                now,
                old(self).spec_config().connection_timeout_ms,
            ),
            forall|k: u128| #[trigger] final(self).client_map().contains_key(k) ==> final(self).client_map()[k] == old(self).client_map()[k],
            forall|i: int| 0 <= i < r@.len() ==> (#[trigger] r@[i].message matches SyncMessage::PeerLeave {
                replica_id,
            } && r@[i].to is All && old(self).client_map().contains_key(replica_id@) && !final(self).client_map().contains_key(replica_id@)),
            r@.len() == old(self).client_map().len() - final(self).client_map().len(),
            final(self).room_members() == old(self).room_members(),
            final(self).spec_config() == old(self).spec_config(),
    {
        let limit: u128 = self.config.connection_timeout_ms as u128 * 1_000_000;
        let now_n = timestamp_nanos(now);
        let n = self.clients.entry_count();
        let mut stale: Vec<ReplicaId> = Vec::new();
        let mut i: usize = 0;
        proof {
            self.clients.lemma_key_seq_contains(arbitrary());
        }
        while i < n
            invariant
                self.wf(),
                *self == *old(self),
                n == self.clients.entries().len(),
                i <= n,
                limit == self.config.connection_timeout_ms * 1_000_000,
                now_n == nanos(now),
                stale@.no_duplicates(),
                forall|j: int| 0 <= j < stale@.len() ==> #[trigger] self.client_map().contains_key(stale@[j]@)
                    && is_stale(self.client_map()[stale@[j]@], now, self.config.connection_timeout_ms),
                forall|j: int| 0 <= j < stale@.len() ==> exists|m: int| 0 <= m < i && #[trigger] self.clients.entries()[m].0 == #[trigger] stale@[j],
                forall|m: int| 0 <= m < i ==> is_stale(
                    #[trigger] self.clients.entries()[m].1,
                    now,
                    self.config.connection_timeout_ms,
                ) ==> stale@.contains(self.clients.entries()[m].0),
            decreases n - i,
        {
            let (id, c) = self.clients.entry_at(i);
            let last = timestamp_nanos(c.last_heartbeat);
            let elapsed: u128 = if now_n > last {
                now_n - last
            } else {
                0
            };
            let ghost stale0 = stale@;
            assert(elapsed == elapsed_nanos(now, c.last_heartbeat));
            if elapsed > limit {
                proof {
                    assert forall|j: int| 0 <= j < stale@.len() implies stale@[j]@ != id@ by {
                        let m = choose|m: int| 0 <= m < i && #[trigger] self.clients.entries()[m].0 == #[trigger] stale@[j];
                        self.clients.lemma_entries_distinct(m, i as int);
                    }
                }
                stale.push(*id);
                proof {
                    assert(stale@.last() == self.clients.entries()[i as int].0);
                    self.clients.lemma_index_of(i as int);
                }
            }
            proof {
                assert forall|m: int| 0 <= m < i + 1 && is_stale(
                    #[trigger] self.clients.entries()[m].1,
                    now,
                    self.config.connection_timeout_ms,
                ) implies stale@.contains(self.clients.entries()[m].0) by {
                    if m < i {
                        let j = choose|j: int| 0 <= j < stale0.len() && stale0[j] == self.clients.entries()[m].0;
                        assert(stale@[j] == stale0[j]);
                    } else {
                        assert(stale@[stale@.len() - 1] == self.clients.entries()[m].0);
                    }
                }
                assert forall|j: int| 0 <= j < stale@.len() implies exists|m: int| 0 <= m < i + 1 && #[trigger] self.clients.entries()[m].0 == #[trigger] stale@[j] by {
                    if j < stale0.len() {
                        let m = choose|m: int| 0 <= m < i && #[trigger] self.clients.entries()[m].0 == #[trigger] stale0[j];
                        assert(stale@[j] == stale0[j]);
                        assert(self.clients.entries()[m].0 == stale@[j]);
                    } else {
                        assert(self.clients.entries()[i as int].0 == stale@[j]);
                    }
                }
            }
            i = i + 1;
        }
        let mut out: Vec<Outgoing> = Vec::new();
        let mut k: usize = 0;
        while k < stale.len()
            invariant
                self.wf(),
                k <= stale@.len(),
                stale@.no_duplicates(),
                out@.len() == k,
                self.rooms == old(self).rooms,
                self.config == old(self).config,
                forall|j: int| 0 <= j < stale@.len() ==> #[trigger] old(self).client_map().contains_key(stale@[j]@)
                    && is_stale(old(self).client_map()[stale@[j]@], now, old(self).config.connection_timeout_ms),
                forall|x: u128| #[trigger] self.client_map().contains_key(x) <==> old(self).client_map().contains_key(x)
                    && !(exists|j: int| 0 <= j < k && #[trigger] stale@[j]@ == x),
                forall|x: u128| #[trigger] self.client_map().contains_key(x) ==> self.client_map()[x] == old(self).client_map()[x],
                forall|j: int| 0 <= j < k ==> (#[trigger] out@[j].message matches SyncMessage::PeerLeave {
                    replica_id,
                } && out@[j].to is All && replica_id == stale@[j]),
                self.client_map().len() + k == old(self).client_map().len(),
            decreases stale@.len() - k,
        {
            let id = stale[k];
            proof {
                assert(self.client_map().contains_key(id@)) by {
                    if exists|j: int| 0 <= j < k && #[trigger] stale@[j]@ == id@ {
                        let j = choose|j: int| 0 <= j < k && #[trigger] stale@[j]@ == id@;
                        assert(stale@[j] == stale@[k as int]);
                    }
                }
            }
            let ghost before = self.client_map();
            proof {
                self.clients.lemma_key_seq_contains(id@);
            }
            let _ = self.clients.remove(&id);
            proof {
                assert(before.remove(id@).dom() =~= before.dom().remove(id@));
            }
            out.push(Outgoing { to: Recipients::All, message: SyncMessage::PeerLeave { replica_id: id } });
            k = k + 1;
        }
        proof {
            assert forall|x: u128| #[trigger] self.client_map().contains_key(x) <==> old(self).client_map().contains_key(x)
                && !is_stale(old(self).client_map()[x], now, old(self).spec_config().connection_timeout_ms) by {
                if old(self).client_map().contains_key(x) && is_stale(old(self).client_map()[x], now, old(self).config.connection_timeout_ms) {
                    old(self).clients.lemma_index_of_key(x);
                    let m = old(self).clients.index_of(x);
                    assert(stale@.contains(old(self).clients.entries()[m].0));
                    let j = choose|j: int| 0 <= j < stale@.len() && stale@[j] == old(self).clients.entries()[m].0;
                    assert(stale@[j]@ == x);
                }
            }
            assert forall|i: int| 0 <= i < out@.len() implies (#[trigger] out@[i].message matches SyncMessage::PeerLeave {
                replica_id,
            } && out@[i].to is All && old(self).client_map().contains_key(replica_id@) && !self.client_map().contains_key(replica_id@)) by {
                assert(stale@[i]@ == stale@[i]@);
            }
        }
        out
    }

    /// Rooms left empty are dropped.
    pub fn cleanup_rooms(&mut self)
        requires
            old(self).wf(),
        ensures
            final(self).wf(),
            forall|k: Seq<char>| #[trigger] final(self).room_members().contains_key(k) <==> old(self).room_members().contains_key(k) && old(self).room_members()[k].len() > 0,
            forall|k: Seq<char>| #[trigger] final(self).room_members().contains_key(k) ==> final(self).room_members()[k] == old(self).room_members()[k],
            final(self).client_map() == old(self).client_map(),
            final(self).spec_config() == old(self).spec_config(),
    {
        let keys = self.rooms.keys();
        let ghost ks = old(self).rooms.key_seq();
        let mut k: usize = 0;
        proof {
            self.rooms.lemma_key_seq_contains(arbitrary());
            assert forall|j: int| 0 <= j < ks.len() implies #[trigger] keys@[j]@ == ks[j] by {
                assert(keys@.map_values(|s: String| s@)[j] == keys@[j]@);
            }
        }
        while k < keys.len()
            invariant
                self.wf(),
                k <= ks.len(),
                keys@.len() == ks.len(),
                forall|j: int| 0 <= j < ks.len() ==> #[trigger] keys@[j]@ == ks[j],
                ks.no_duplicates(),
                ks.to_set() == old(self).room_members().dom(),
                self.clients == old(self).clients,
                self.config == old(self).config,
                forall|x: Seq<char>| #[trigger] self.room_members().contains_key(x) <==> old(self).room_members().contains_key(x)
                    && !(ks.take(k as int).contains(x) && old(self).room_members()[x].len() == 0),
                forall|x: Seq<char>| #[trigger] self.room_members().contains_key(x) ==> self.room_members()[x] == old(self).room_members()[x],
            decreases keys@.len() - k,
        {
            let ghost prev = self.room_members();
            let ghost key = ks[k as int];
            let empty = match self.rooms.get(&keys[k]) {
                Some(room) => room.clients.len() == 0,
                None => false,
            };
            if empty {
                let _ = self.rooms.remove(&keys[k]);
                proof {
                    assert(self.room_members() =~= prev.remove(key));
                }
            }
            proof {
                assert(ks.take(k + 1) =~= ks.take(k as int).push(key));
                assert(!ks.take(k as int).contains(key)) by {
                    if ks.take(k as int).contains(key) {
                        let j = choose|j: int| 0 <= j < k && ks.take(k as int)[j] == key;
                        assert(ks[j] == ks[k as int]);
                    }
                }
                assert(old(self).room_members().dom().contains(key)) by {
                    assert(ks.to_set().contains(key));
                }
                assert(prev.contains_key(key));
                assert forall|x: Seq<char>| #[trigger] self.room_members().contains_key(x) <==> old(self).room_members().contains_key(x)
                    && !(ks.take(k + 1).contains(x) && old(self).room_members()[x].len() == 0) by {
                    if x != key {
                        assert(ks.take(k + 1).contains(x) == ks.take(k as int).contains(x));
                    } else {
                        assert(ks.take(k + 1)[k as int] == key);
                        assert(ks.take(k + 1).contains(x));
                        assert(prev[key] == old(self).room_members()[key]);
                        assert(empty == (prev[key].len() == 0));
                    }
                }
            }
            k = k + 1;
        }
        proof {
            assert(ks.take(ks.len() as int) =~= ks);
        }
    }

    /// Statistics as of `now`.
    pub fn get_stats(&self, now: Timestamp) -> (r: ServerStats)
        requires
            self.wf(),
            message_total(self.client_entries()) <= usize::MAX,
        ensures
            r.connected_clients == self.client_map().len(),
            r.total_rooms == self.room_members().len(),
            r.uptime == now,
            r.total_messages == message_total(self.client_entries()),
    {
        proof {
            self.clients.lemma_key_seq_contains(arbitrary());
            self.rooms.lemma_key_seq_contains(arbitrary());
            assert(self.room_members().dom() =~= self.rooms.map().dom());
        }
        let n = self.clients.entry_count();
        let ghost es = self.client_entries();
        let mut total: usize = 0;
        let mut i: usize = 0;
        while i < n
            invariant
                self.wf(),
                n == self.clients.entries().len(),
                es == self.client_entries(),
                es.len() == n,
                i <= n,
                message_total(es) <= usize::MAX,
                total == message_total(es.take(i as int)),
            decreases n - i,
        {
            let (_k, c) = self.clients.entry_at(i);
            proof {
                assert(es.take(i + 1).drop_last() =~= es.take(i as int));
                assert(es[i as int] == c);
                lemma_message_total_prefix(es, i + 1);
            }
            total = total + c.message_count;
            i = i + 1;
        }
        assert(es.take(n as int) =~= es);
        ServerStats {
            connected_clients: self.clients.len(),
            total_rooms: self.rooms.len(),
            uptime: now,
            total_messages: total,
        }
    }
}

/// A prefix's total is at most the whole.
proof fn lemma_message_total_prefix(cs: Seq<ClientInfo>, i: int)
    requires
        0 <= i <= cs.len(),
    ensures
        message_total(cs.take(i)) <= message_total(cs),
    decreases cs.len(),
{
    if i < cs.len() {
        assert(cs.take(i) =~= cs.drop_last().take(i));
        lemma_message_total_prefix(cs.drop_last(), i);
    } else {
        assert(cs.take(i) =~= cs);
    }
}

} // verus!
