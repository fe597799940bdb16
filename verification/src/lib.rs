//! Local hash-chain traversal over content-addressable storage, and the
//! decision logic of the bridge that resolves an entry through shared
//! network state.

pub mod address;
pub mod entry;
pub mod chain_header;
pub mod storage;
pub mod chain_store;
pub mod chain_laws;
pub mod network;
pub mod network_laws;
