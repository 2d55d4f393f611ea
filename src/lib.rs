//! A cluster agent core: peer identities, the member registry, the framing
//! of gossip broadcasts, the replicated document store and the side-effect
//! buffer of the membership engine's event loop.

pub mod identity;
pub mod wire;
pub mod broadcast;
pub mod handler;
pub mod store;
pub mod members;
pub mod runtime;
