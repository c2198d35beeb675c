//! Service layer of a replicated key-value store: the state machine that
//! committed commands are applied to, the registry of callers awaiting a
//! commit, and the decisions that connect the two to a consensus module.

pub mod apply;
pub mod kv;
pub mod laws;
pub mod msg;
pub mod registry;
pub mod server;
pub mod state;

pub use kv::{Kv, KvState};
pub use msg::{Error, Op};
pub use registry::Registry;
pub use server::Resolution;
pub use state::State;
