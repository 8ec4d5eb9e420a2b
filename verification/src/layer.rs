//! The layer's own bookkeeping and the decisions behind each intercepted call.

pub mod hooks;
pub mod mapping;
pub mod recovery;
pub mod state;
