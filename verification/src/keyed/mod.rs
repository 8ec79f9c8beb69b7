//! Record and replay with a keyed log.
//!
//! Here every entry of the log has a key: the thread that it belongs to, and the number of the event
//! on that thread. Threads may lack an id. What they do is logged as far as possible, and replayed
//! as it comes.

pub mod thread;
pub mod record_replay;
pub mod flow;
pub mod recv_events;
pub mod send;
pub mod channel;
pub mod select;
pub mod ipc;
pub mod ipc_set;
pub mod laws;
pub mod step_laws;
