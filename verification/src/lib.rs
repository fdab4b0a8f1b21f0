//! Local-first synchronization core: conflict resolution, storage, indices,
//! transports, the wire protocol and the peer bookkeeping of the sync engines.

pub mod keyed;
pub mod ids;
pub mod json;
pub mod text;
pub mod conflict;
pub mod protocol;
pub mod validation;
pub mod transport;
pub mod crdt_store;
pub mod storage;
pub mod sync;
pub mod index;
pub mod migrations;
pub mod server;
pub mod relay;
