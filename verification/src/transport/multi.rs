//! A transport that holds several registered transports and routes through
//! the current one.

use super::memory::InMemoryTransport;
use super::websocket::{ConnectionState, WebSocketTransport};
use super::{bytes_of, SyncTransport, TransportError};
use crate::keyed::{KeyedMap, MapKey};
use vstd::prelude::*;
use vstd::string::*;

verus! {

/// Transport type identifier.
#[derive(Clone, Copy, Debug, PartialEq, Eq, Hash, Structural)]
pub enum TransportType {
    WebSocket,
    Http,
    WebRTC,
    Memory,
}

impl View for TransportType {
    type V = TransportType;

    open spec fn view(&self) -> TransportType {
        *self
    }
}

impl MapKey for TransportType {
    fn key_eq(&self, other: &Self) -> (r: bool) {
        *self == *other
    }

    fn key_copy(&self) -> (r: Self) {
        *self
    }
}

impl TransportType {
    pub open spec fn spec_label(self) -> Seq<char> {
        match self {
            TransportType::WebSocket => "WebSocket"@,
            TransportType::Http => "Http"@,
            TransportType::WebRTC => "WebRTC"@,
            TransportType::Memory => "Memory"@,
        }
    }

    /// The name the transport type is shown with.
    pub fn label(&self) -> (r: &'static str)
        ensures
            r@ == self.spec_label(),
    {
        match self {
            TransportType::WebSocket => "WebSocket",
            TransportType::Http => "Http",
            TransportType::WebRTC => "WebRTC",
            TransportType::Memory => "Memory",
        }
    }
}

/// Configuration for the multi-transport system.
#[derive(Clone, Debug, PartialEq, Eq)]
pub struct MultiTransportConfig {
    pub primary: TransportType,
    pub fallbacks: Vec<TransportType>,
    pub auto_switch: bool,
    pub timeout_ms: u64,
}

impl Default for MultiTransportConfig {
    fn default() -> (r: Self)
        ensures
            r.primary == TransportType::WebSocket,
            r.fallbacks@ == seq![TransportType::Http, TransportType::Memory],
            r.auto_switch,
            r.timeout_ms == 5000,
    {
        let mut fallbacks = Vec::new();
        fallbacks.push(TransportType::Http);
        fallbacks.push(TransportType::Memory);
        assert(fallbacks@ =~= seq![TransportType::Http, TransportType::Memory]);
        MultiTransportConfig { primary: TransportType::WebSocket, fallbacks, auto_switch: true, timeout_ms: 5000 }
    }
}

/// One of the transports a multi-transport can hold.
#[derive(Debug)]
pub enum TransportEnum {
    WebSocket(WebSocketTransport),
    InMemory(InMemoryTransport),
}

/// What sending `data` through `before` does: `after` is the transport
/// afterwards and `r` the answer.
pub open spec fn enum_send_outcome(
    before: TransportEnum,
    data: Seq<u8>,
    after: TransportEnum,
    r: Result<(), TransportError>,
) -> bool {
    &&& (r is Ok <==> before.spec_connected())
    &&& (r matches Err(e) ==> e is NotConnected)
    &&& match before {
        TransportEnum::WebSocket(ws) => after == before,
        TransportEnum::InMemory(m) => after matches TransportEnum::InMemory(m2) && m2.spec_is_connected()
            == m.spec_is_connected() && if m.spec_is_connected() {
            m2.queue() == m.queue().push(data)
        } else {
            m2.queue() == m.queue()
        },
    }
}

/// What receiving through `before` does.
pub open spec fn enum_receive_outcome(
    before: TransportEnum,
    after: TransportEnum,
    r: Result<Vec<Vec<u8>>, TransportError>,
) -> bool {
    match before {
        TransportEnum::WebSocket(ws) => after matches TransportEnum::WebSocket(ws2) && (r matches Ok(msgs)
            && bytes_of(msgs@) == ws.queue()) && ws2.queue() == Seq::<Seq<u8>>::empty()
            && ws2.spec_state() == ws.spec_state(),
        TransportEnum::InMemory(m) => after matches TransportEnum::InMemory(m2)
            && m2.spec_is_connected() == m.spec_is_connected() && if m.spec_is_connected() {
            (r matches Ok(msgs) && bytes_of(msgs@) == m.queue()) && m2.queue()
                == Seq::<Seq<u8>>::empty()
        } else {
            (r matches Err(e) && e is NotConnected) && m2.queue() == m.queue()
        },
    }
}

impl SyncTransport for TransportEnum {
    open spec fn spec_connected(&self) -> bool {
        match self {
            TransportEnum::WebSocket(ws) => ws.spec_state() == ConnectionState::Connected,
            TransportEnum::InMemory(m) => m.spec_is_connected(),
        }
    }

    open spec fn send_outcome(&self, data: Seq<u8>, after: Self, r: Result<(), TransportError>) -> bool {
        enum_send_outcome(*self, data, after, r)
    }

    open spec fn receive_outcome(&self, after: Self, r: Result<Vec<Vec<u8>>, TransportError>) -> bool {
        enum_receive_outcome(*self, after, r)
    }

    fn send(&mut self, data: &[u8]) -> (r: Result<(), TransportError>)
        ensures
            enum_send_outcome(*old(self), data@, *final(self), r),
    {
        match self {
            TransportEnum::WebSocket(ws) => ws.send(data),
            TransportEnum::InMemory(m) => m.send(data),
        }
    }

    fn receive(&mut self) -> (r: Result<Vec<Vec<u8>>, TransportError>)
        ensures
            enum_receive_outcome(*old(self), *final(self), r),
    {
        match self {
            TransportEnum::WebSocket(ws) => ws.receive(),
            TransportEnum::InMemory(m) => m.receive(),
        }
    }

    fn is_connected(&self) -> (r: bool) {
        match self {
            TransportEnum::WebSocket(ws) => ws.is_connected(),
            TransportEnum::InMemory(m) => m.is_connected(),
        }
    }
}

/// Multi-transport: several registered transports, one of them current.
pub struct MultiTransport {
    config: MultiTransportConfig,
    transports: KeyedMap<TransportType, TransportEnum>,
    current_transport: TransportType,
}

impl MultiTransport {
    pub closed spec fn wf(&self) -> bool {
        self.transports.wf()
    }

    pub closed spec fn spec_config(&self) -> MultiTransportConfig {
        self.config
    }

    /// The registered transports.
    pub closed spec fn registered(&self) -> Map<TransportType, TransportEnum> {
        self.transports.map()
    }

    /// The registered transport types, in the order they were first registered.
    pub closed spec fn registration_order(&self) -> Seq<TransportType> {
        self.transports.key_seq()
    }

    pub closed spec fn current(&self) -> TransportType {
        self.current_transport
    }

    pub fn new(config: MultiTransportConfig) -> (r: Self)
        ensures
            r.wf(),
            r.spec_config() == config,
            r.registered() == Map::<TransportType, TransportEnum>::empty(),
            r.registration_order() == Seq::<TransportType>::empty(),
            r.current() == TransportType::WebSocket,
    {
        MultiTransport { config, transports: KeyedMap::new(), current_transport: TransportType::WebSocket }
    }

    /// Registers (or replaces) a transport of a type.
    pub fn register_transport(&mut self, transport_type: TransportType, transport: TransportEnum)
        requires
            old(self).wf(),
        ensures
            final(self).wf(),
            final(self).registered() == old(self).registered().insert(transport_type, transport),
            final(self).current() == old(self).current(),
            final(self).spec_config() == old(self).spec_config(),
            old(self).registered().contains_key(transport_type) ==> final(self).registration_order()
                == old(self).registration_order(),
            !old(self).registered().contains_key(transport_type) ==> final(self).registration_order() == old(self).registration_order().push(transport_type),
    {
        self.transports.insert(transport_type, transport);
    }

    pub fn current_transport(&self) -> (r: TransportType)
        ensures
            r == self.current(),
    {
        self.current_transport
    }

    /// Makes a registered transport current; refuses an unregistered one.
    pub fn switch_transport(&mut self, transport_type: TransportType) -> (r: Result<(), TransportError>)
        requires
            old(self).wf(),
        ensures
            final(self).wf(),
            final(self).registered() == old(self).registered(),
            final(self).registration_order() == old(self).registration_order(),
            final(self).spec_config() == old(self).spec_config(),
            old(self).registered().contains_key(transport_type) ==> r is Ok && final(self).current()
                == transport_type,
            !old(self).registered().contains_key(transport_type) ==> (r matches Err(
                TransportError::ConnectionFailed(m),
            ) && m@ == "Transport "@ + transport_type.spec_label() + " not registered"@
                && final(self).current() == old(self).current()),
    {
        if !self.transports.contains_key(&transport_type) {
            let msg = String::from_str("Transport ").concat(transport_type.label()).concat(
                " not registered",
            );
            return Err(TransportError::ConnectionFailed(msg));
        }
        self.current_transport = transport_type;
        Ok(())
    }

    /// The registered transport types, in registration order.
    pub fn available_transports(&self) -> (r: Vec<TransportType>)
        requires
            self.wf(),
        ensures
            r@ == self.registration_order(),
            r@.to_set() == self.registered().dom(),
            r@.no_duplicates(),
    {
        let r = self.transports.keys();
        proof {
            assert(r@ =~= r@.map_values(|k: TransportType| k@));
            self.transports.lemma_key_seq_contains(TransportType::WebSocket);
        }
        r
    }

    pub fn config(&self) -> (r: &MultiTransportConfig)
        ensures
            *r == self.spec_config(),
    {
        &self.config
    }

    pub fn has_transport(&self, transport_type: &TransportType) -> (r: bool)
        requires
            self.wf(),
        ensures
            r == self.registered().contains_key(*transport_type),
    {
        self.transports.contains_key(transport_type)
    }

    pub fn transport_count(&self) -> (r: usize)
        requires
            self.wf(),
        ensures
            r == self.registered().len(),
    {
        self.transports.len()
    }
}

impl MultiTransport {
    /// Sends through the current transport.
    pub fn send_data(&mut self, data: &[u8]) -> (r: Result<(), TransportError>)
        requires
            old(self).wf(),
        ensures
            final(self).wf(),
            final(self).current() == old(self).current(),
            final(self).spec_config() == old(self).spec_config(),
            final(self).registration_order() == old(self).registration_order(),
            !old(self).registered().contains_key(old(self).current()) ==> (r matches Err(
                TransportError::SendFailed(m),
            ) && m@ == "No transport available for "@ + old(self).current().spec_label() && final(self).registered() == old(self).registered()),
            old(self).registered().contains_key(old(self).current()) ==> final(self).registered()
                == old(self).registered().insert(
                old(self).current(),
                final(self).registered()[old(self).current()],
            ) && enum_send_outcome(
                old(self).registered()[old(self).current()],
                data@,
                final(self).registered()[old(self).current()],
                r,
            ),
    {
        match self.transports.find(&self.current_transport) {
            None => {
                let msg = String::from_str("No transport available for ").concat(
                    self.current_transport.label(),
                );
                Err(TransportError::SendFailed(msg))
            },
            Some(i) => {
                let mut t = self.transports.replace_value_at(
                    i,
                    TransportEnum::InMemory(InMemoryTransport::new()),
                );
                let r = t.send(data);
                self.transports.replace_value_at(i, t);
                proof {
                    assert(self.transports.map() =~= old(self).transports.map().insert(
                        self.current_transport,
                        self.transports.map()[self.current_transport],
                    ));
                }
                r
            },
        }
    }

    /// Receives through the current transport.
    pub fn receive_data(&mut self) -> (r: Result<Vec<Vec<u8>>, TransportError>)
        requires
            old(self).wf(),
        ensures
            final(self).wf(),
            final(self).current() == old(self).current(),
            final(self).spec_config() == old(self).spec_config(),
            final(self).registration_order() == old(self).registration_order(),
            !old(self).registered().contains_key(old(self).current()) ==> (r matches Err(
                TransportError::ReceiveFailed(m),
            ) && m@ == "No transport available for "@ + old(self).current().spec_label() && final(self).registered() == old(self).registered()),
            old(self).registered().contains_key(old(self).current()) ==> final(self).registered()
                == old(self).registered().insert(
                old(self).current(),
                final(self).registered()[old(self).current()],
            ) && enum_receive_outcome(
                old(self).registered()[old(self).current()],
                final(self).registered()[old(self).current()],
                r,
            ),
    {
        match self.transports.find(&self.current_transport) {
            None => {
                let msg = String::from_str("No transport available for ").concat(
                    self.current_transport.label(),
                );
                Err(TransportError::ReceiveFailed(msg))
            },
            Some(i) => {
                let mut t = self.transports.replace_value_at(
                    i,
                    TransportEnum::InMemory(InMemoryTransport::new()),
                );
                let r = t.receive();
                self.transports.replace_value_at(i, t);
                proof {
                    assert(self.transports.map() =~= old(self).transports.map().insert(
                        self.current_transport,
                        self.transports.map()[self.current_transport],
                    ));
                }
                r
            },
        }
    }

    /// Whether the current transport is registered and connected.
    pub fn is_connected_now(&self) -> (r: bool)
        requires
            self.wf(),
        ensures
            r == (self.registered().contains_key(self.current()) && self.registered()[self.current()].spec_connected()),
    {
        match self.transports.get(&self.current_transport) {
            Some(t) => t.is_connected(),
            None => false,
        }
    }
}

} // verus!
