//! Hybrid transport: one of several backends, or a primary transport with a
//! fallback.

use super::compatibility::{spec_outgoing_frame, CompatibilityTransport};
use super::leptos_ws_pro::{url_refused, LeptosWsProConfig, LeptosWsProTransport};
use super::memory::InMemoryTransport;
use super::websocket::{ConnectReport, ConnectionState, WebSocketTransport};
use super::{bytes_of, SyncTransport, TransportError};
use vstd::prelude::*;

verus! {

/// Hybrid transport that can use multiple backends.
#[derive(Debug)]
pub enum HybridTransport {
    WebSocket(WebSocketTransport),
    LeptosWsPro(LeptosWsProTransport),
    Compatibility(CompatibilityTransport),
    InMemory(InMemoryTransport),
    Fallback { primary: Box<HybridTransport>, fallback: Box<HybridTransport> },
}

/// Whether a leptos-ws-pro transport ends up connected when asked to connect.
pub open spec fn leptos_connect_succeeds(t: LeptosWsProTransport) -> bool {
    t.spec_state() == ConnectionState::Connected || (t.spec_config().max_reconnect_attempts > 0
        && !url_refused(t.spec_config().url@))
}

/// A leptos-ws-pro transport after a send of `data`: the data is queued
/// when connected; nothing else changes.
pub open spec fn leptos_after_send(a: LeptosWsProTransport, b: LeptosWsProTransport, data: Seq<u8>) -> bool {
    &&& b.spec_state() == a.spec_state()
    &&& b.spec_config() == a.spec_config()
    &&& b.queue() == (if a.spec_state() == ConnectionState::Connected {
        a.queue().push(data)
    } else {
        a.queue()
    })
}

/// A leptos-ws-pro transport after a receive that got `got`: when connected
/// it hands back its whole queue and empties it, else it hands back nothing.
pub open spec fn leptos_after_receive(
    a: LeptosWsProTransport,
    b: LeptosWsProTransport,
    got: Option<Seq<Seq<u8>>>,
) -> bool {
    &&& b.spec_state() == a.spec_state()
    &&& b.spec_config() == a.spec_config()
    &&& if a.spec_state() == ConnectionState::Connected {
        got == Some(a.queue()) && b.queue() == Seq::<Seq<u8>>::empty()
    } else {
        got matches Some(g) && g.len() == 0 && b.queue() == a.queue()
    }
}

/// An in-memory transport after a send of `data`: queued when connected.
pub open spec fn memory_after_send(a: InMemoryTransport, b: InMemoryTransport, data: Seq<u8>) -> bool {
    &&& b.spec_is_connected() == a.spec_is_connected()
    &&& b.queue() == (if a.spec_is_connected() {
        a.queue().push(data)
    } else {
        a.queue()
    })
}

/// An in-memory transport after a receive: when connected it hands back its
/// whole queue and empties it; when not, it refuses (`None`).
pub open spec fn memory_after_receive(a: InMemoryTransport, b: InMemoryTransport, got: Option<Seq<Seq<u8>>>) -> bool {
    &&& b.spec_is_connected() == a.spec_is_connected()
    &&& if a.spec_is_connected() {
        got == Some(a.queue()) && b.queue() == Seq::<Seq<u8>>::empty()
    } else {
        got is None && b.queue() == a.queue()
    }
}

/// A WebSocket transport after a receive: it hands back its queue and
/// empties it.
pub open spec fn websocket_after_receive(a: WebSocketTransport, b: WebSocketTransport, got: Option<Seq<Seq<u8>>>) -> bool {
    &&& got == Some(a.queue())
    &&& b.queue() == Seq::<Seq<u8>>::empty()
    &&& b.spec_state() == a.spec_state()
    &&& b.spec_url() == a.spec_url()
    &&& b.spec_config() == a.spec_config()
}

/// The byte contents of a receive's result; `None` for a refusal.
pub open spec fn received(r: Result<Vec<Vec<u8>>, TransportError>) -> Option<Seq<Seq<u8>>> {
    match r {
        Ok(msgs) => Some(bytes_of(msgs@)),
        Err(_) => None,
    }
}

impl HybridTransport {
    /// Whether the transport (or, for a fallback pair, either member) is connected.
    pub open spec fn spec_is_connected(self) -> bool
        decreases self,
    {
        match self {
            HybridTransport::WebSocket(ws) => ws.spec_state() == ConnectionState::Connected,
            HybridTransport::LeptosWsPro(t) => t.spec_state() == ConnectionState::Connected,
            HybridTransport::Compatibility(c) => c.spec_transport().spec_state()
                == ConnectionState::Connected,
            HybridTransport::InMemory(m) => m.spec_is_connected(),
            HybridTransport::Fallback { primary, fallback } => primary.spec_is_connected()
                || fallback.spec_is_connected(),
        }
    }

    /// Whether asking the transport to connect succeeds.
    pub open spec fn connect_succeeds(self) -> bool
        decreases self,
    {
        match self {
            HybridTransport::WebSocket(ws) => ws.spec_state() == ConnectionState::Connected,
            HybridTransport::LeptosWsPro(t) => leptos_connect_succeeds(t),
            HybridTransport::Compatibility(c) => leptos_connect_succeeds(c.spec_transport()),
            HybridTransport::InMemory(m) => true,
            HybridTransport::Fallback { primary, fallback } => primary.connect_succeeds()
                || fallback.connect_succeeds(),
        }
    }

    /// Whether the transport is connected after it is asked to connect: a
    /// single transport when its connection succeeds (an in-memory one stays
    /// as it was); a pair when its primary is, or else its fallback (which is
    /// asked only when the primary's connection fails).
    pub open spec fn connected_after_connect(self) -> bool
        decreases self,
    {
        match self {
            HybridTransport::WebSocket(ws) => ws.spec_state() == ConnectionState::Connected,
            HybridTransport::LeptosWsPro(t) => leptos_connect_succeeds(t),
            HybridTransport::Compatibility(c) => leptos_connect_succeeds(c.spec_transport()),
            HybridTransport::InMemory(m) => m.spec_is_connected(),
            HybridTransport::Fallback { primary, fallback } => primary.connected_after_connect() || (
            if primary.connect_succeeds() {
                fallback.spec_is_connected()
            } else {
                fallback.connected_after_connect()
            }),
        }
    }

    /// Whether receiving is refused (only a disconnected in-memory transport
    /// refuses; a pair refuses when both members do).
    pub open spec fn receive_refused(self) -> bool
        decreases self,
    {
        match self {
            HybridTransport::InMemory(m) => !m.spec_is_connected(),
            HybridTransport::Fallback { primary, fallback } => primary.receive_refused()
                && fallback.receive_refused(),
            _ => false,
        }
    }

    /// The transport after a send of `data`: a single transport takes the data
    /// as its own send does; a pair sends through its primary, and through
    /// its fallback only when the primary is not connected.
    pub open spec fn after_send(self, new: HybridTransport, data: Seq<u8>) -> bool
        decreases self,
    {
        match self {
            HybridTransport::WebSocket(a) => new == self,
            HybridTransport::LeptosWsPro(a) => new matches HybridTransport::LeptosWsPro(b)
                && leptos_after_send(a, b, data),
            HybridTransport::Compatibility(a) => new matches HybridTransport::Compatibility(b)
                && exists|ts: Seq<char>|
                leptos_after_send(a.spec_transport(), b.spec_transport(), #[trigger] spec_outgoing_frame(data, ts)),
            HybridTransport::InMemory(a) => new matches HybridTransport::InMemory(b)
                && memory_after_send(a, b, data),
            HybridTransport::Fallback { primary, fallback } => new matches HybridTransport::Fallback {
                primary: p2,
                fallback: f2,
            } && primary.after_send(*p2, data) && (if primary.spec_is_connected() {
                *f2 == *fallback
            } else {
                fallback.after_send(*f2, data)
            }),
        }
    }

    /// The transport after a receive that got `got` (`None` for a refusal):
    /// a single transport receives as its own receive does; a pair receives
    /// from its primary, and from its fallback only when the primary refuses.
    pub open spec fn after_receive(self, new: HybridTransport, got: Option<Seq<Seq<u8>>>) -> bool
        decreases self,
    {
        match self {
            HybridTransport::WebSocket(a) => new matches HybridTransport::WebSocket(b)
                && websocket_after_receive(a, b, got),
            HybridTransport::LeptosWsPro(a) => new matches HybridTransport::LeptosWsPro(b)
                && leptos_after_receive(a, b, got),
            HybridTransport::Compatibility(a) => new matches HybridTransport::Compatibility(b)
                && leptos_after_receive(a.spec_transport(), b.spec_transport(), got),
            HybridTransport::InMemory(a) => new matches HybridTransport::InMemory(b)
                && memory_after_receive(a, b, got),
            HybridTransport::Fallback { primary, fallback } => new matches HybridTransport::Fallback {
                primary: p2,
                fallback: f2,
            } && (if primary.receive_refused() {
                primary.after_receive(*p2, None) && fallback.after_receive(*f2, got)
            } else {
                primary.after_receive(*p2, got) && *f2 == *fallback
            }),
        }
    }

    /// Whether the transport is still connected after a disconnect: only an
    /// in-memory transport stays as it was.
    pub open spec fn connected_after_disconnect(self) -> bool
        decreases self,
    {
        match self {
            HybridTransport::InMemory(m) => m.spec_is_connected(),
            HybridTransport::Fallback { primary, fallback } => primary.connected_after_disconnect()
                || fallback.connected_after_disconnect(),
            _ => false,
        }
    }

    pub fn with_websocket(url: String) -> (r: Self)
        ensures
            r matches HybridTransport::WebSocket(ws) && ws.spec_url() == url@ && ws.spec_state()
                == ConnectionState::Disconnected,
    {
        HybridTransport::WebSocket(WebSocketTransport::new(url))
    }

    pub fn with_leptos_ws_pro(config: LeptosWsProConfig) -> (r: Self)
        ensures
            r matches HybridTransport::LeptosWsPro(t) && t.spec_config() == config && t.spec_state()
                == ConnectionState::Disconnected,
    {
        HybridTransport::LeptosWsPro(LeptosWsProTransport::new(config))
    }

    pub fn with_compatibility(config: LeptosWsProConfig) -> (r: Self)
        ensures
            r matches HybridTransport::Compatibility(c) && c.spec_transport().spec_config() == config
                && c.spec_transport().spec_state() == ConnectionState::Disconnected,
    {
        HybridTransport::Compatibility(CompatibilityTransport::new(config))
    }

    pub fn with_in_memory() -> (r: Self)
        ensures
            r matches HybridTransport::InMemory(m) && m.spec_is_connected() && m.queue()
                == Seq::<Seq<u8>>::empty(),
    {
        HybridTransport::InMemory(InMemoryTransport::new())
    }

    pub fn with_fallback(primary: HybridTransport, fallback: HybridTransport) -> (r: Self)
        ensures
            r == (HybridTransport::Fallback { primary: Box::new(primary), fallback: Box::new(fallback) }),
    {
        HybridTransport::Fallback { primary: Box::new(primary), fallback: Box::new(fallback) }
    }

    /// Replaces the transport by another one.
    pub fn add_transport(&mut self, transport: HybridTransport)
        ensures
            *final(self) == transport,
    {
        *self = transport;
    }

    /// Connects; a fallback pair connects its fallback when the primary fails.
    pub fn connect(&mut self) -> (r: ConnectReport<TransportError>)
        ensures
            r.result is Ok <==> old(self).connect_succeeds(),
            final(self).spec_is_connected() == old(self).connected_after_connect(),
        decreases *old(self),
    {
        match self {
            HybridTransport::WebSocket(ws) => {
                let rep = ws.connect();
                let result = match rep.result {
                    Ok(()) => Ok(()),
                    Err(e) => Err(TransportError::from(e)),
                };
                ConnectReport { result, waits_ms: rep.waits_ms }
            },
            HybridTransport::LeptosWsPro(t) => {
                let rep = t.connect();
                let result = match rep.result {
                    Ok(()) => Ok(()),
                    Err(e) => Err(TransportError::from(e)),
                };
                ConnectReport { result, waits_ms: rep.waits_ms }
            },
            HybridTransport::Compatibility(c) => {
                let rep = c.connect();
                let result = match rep.result {
                    Ok(()) => Ok(()),
                    Err(e) => Err(TransportError::from(e)),
                };
                ConnectReport { result, waits_ms: rep.waits_ms }
            },
            HybridTransport::InMemory(_) => ConnectReport { result: Ok(()), waits_ms: Vec::new() },
            HybridTransport::Fallback { primary, fallback } => {
                let mut rep = primary.connect();
                if rep.result.is_ok() {
                    rep
                } else {
                    let mut rep2 = fallback.connect();
                    rep.waits_ms.append(&mut rep2.waits_ms);
                    ConnectReport { result: rep2.result, waits_ms: rep.waits_ms }
                }
            },
        }
    }

    /// Disconnects; a fallback pair disconnects both members.
    pub fn disconnect(&mut self) -> (r: Result<(), TransportError>)
        ensures
            r is Ok,
            final(self).spec_is_connected() == old(self).connected_after_disconnect(),
        decreases *old(self),
    {
        match self {
            HybridTransport::WebSocket(ws) => {
                let _ = ws.disconnect();
                Ok(())
            },
            HybridTransport::LeptosWsPro(t) => {
                let _ = t.disconnect();
                Ok(())
            },
            HybridTransport::Compatibility(c) => {
                let _ = c.disconnect();
                Ok(())
            },
            HybridTransport::InMemory(_) => Ok(()),
            HybridTransport::Fallback { primary, fallback } => {
                let _ = primary.disconnect();
                let _ = fallback.disconnect();
                Ok(())
            },
        }
    }
}

impl HybridTransport {
    /// Sends; a fallback pair sends through its fallback when the primary refuses.
    pub fn send_data(&mut self, data: &[u8]) -> (r: Result<(), TransportError>)
        ensures
            r is Ok <==> old(self).spec_is_connected(),
            r matches Err(e) ==> e is NotConnected,
            old(self).after_send(*final(self), data@),
            final(self).spec_is_connected() == old(self).spec_is_connected(),
        decreases *old(self),
    {
        match self {
            HybridTransport::WebSocket(ws) => ws.send(data),
            HybridTransport::LeptosWsPro(t) => t.send(data),
            HybridTransport::Compatibility(c) => c.send(data),
            HybridTransport::InMemory(m) => m.send(data),
            HybridTransport::Fallback { primary, fallback } => {
                match primary.send_data(data) {
                    Ok(()) => Ok(()),
                    Err(_) => fallback.send_data(data),
                }
            },
        }
    }

    /// Receives; a fallback pair receives from its fallback when the primary refuses.
    pub fn receive_data(&mut self) -> (r: Result<Vec<Vec<u8>>, TransportError>)
        ensures
            r is Err <==> old(self).receive_refused(),
            r matches Err(e) ==> e is NotConnected,
            old(self).after_receive(*final(self), received(r)),
            final(self).spec_is_connected() == old(self).spec_is_connected(),
            final(self).receive_refused() == old(self).receive_refused(),
        decreases *old(self),
    {
        match self {
            HybridTransport::WebSocket(ws) => ws.receive(),
            HybridTransport::LeptosWsPro(t) => t.receive(),
            HybridTransport::Compatibility(c) => c.receive(),
            HybridTransport::InMemory(m) => m.receive(),
            HybridTransport::Fallback { primary, fallback } => {
                match primary.receive_data() {
                    Ok(msgs) => Ok(msgs),
                    Err(_) => fallback.receive_data(),
                }
            },
        }
    }

    pub fn is_connected_now(&self) -> (r: bool)
        ensures
            r == self.spec_is_connected(),
        decreases self,
    {
        match self {
            HybridTransport::WebSocket(ws) => ws.is_connected(),
            HybridTransport::LeptosWsPro(t) => t.is_connected(),
            HybridTransport::Compatibility(c) => c.is_connected(),
            HybridTransport::InMemory(m) => m.is_connected(),
            HybridTransport::Fallback { primary, fallback } => primary.is_connected_now()
                || fallback.is_connected_now(),
        }
    }
}

impl SyncTransport for HybridTransport {
    open spec fn spec_connected(&self) -> bool {
        self.spec_is_connected()
    }

    open spec fn send_outcome(&self, data: Seq<u8>, after: Self, r: Result<(), TransportError>) -> bool {
        &&& (r is Ok <==> self.spec_is_connected())
        &&& (r matches Err(e) ==> e is NotConnected)
        &&& self.after_send(after, data)
    }

    open spec fn receive_outcome(&self, after: Self, r: Result<Vec<Vec<u8>>, TransportError>) -> bool {
        &&& (r is Err <==> self.receive_refused())
        &&& (r matches Err(e) ==> e is NotConnected)
        &&& self.after_receive(after, received(r))
    }

    fn send(&mut self, data: &[u8]) -> (r: Result<(), TransportError>)
        ensures
            r is Ok <==> old(self).spec_is_connected(),
            old(self).after_send(*final(self), data@),
    {
        self.send_data(data)
    }

    fn receive(&mut self) -> (r: Result<Vec<Vec<u8>>, TransportError>)
        ensures
            r is Err <==> old(self).receive_refused(),
            old(self).after_receive(*final(self), received(r)),
    {
        self.receive_data()
    }

    fn is_connected(&self) -> (r: bool) {
        self.is_connected_now()
    }
}

} // verus!
