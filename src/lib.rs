//! A local TCP port-forwarding engine: a table of live listeners keyed by
//! rule id, the registry of rules shown to users, and the bookkeeping that
//! keeps the two consistent. Sockets and tasks are driven by the caller;
//! this crate decides what happens to the shared state at every step.

pub mod net;
pub mod registry;
pub mod state;
pub mod sys;
pub mod lifecycle;
pub mod text;
pub mod task;
