//! Record and replay for message passing channels.
//!
//! A run is recorded by writing, for each thread, what its operations on channels gave. While such
//! a run is replayed, messages that come too early are kept until it is their turn, so that every
//! thread sees the same messages in the same order again.

pub mod crossbeam;
pub mod crossbeam_select;
pub mod desync;
pub mod detthread;
pub mod error;
pub mod flow_laws;
pub mod global_log;
pub mod id_laws;
pub mod ipc;
pub mod ipc_laws;
pub mod ipc_message;
pub mod ipc_set;
pub mod keyed;
pub mod laws;
pub mod log_laws;
pub mod mode;
pub mod mpsc;
pub mod recorder;
pub mod recordlog;
pub mod recv_events;
pub mod replay_laws;
pub mod router;
pub mod rr;
pub mod send;
pub mod set_flow;
pub mod set_laws;
pub mod source;
pub mod step_laws;
pub mod strict;
pub mod thread_map;
pub mod tivo;
pub mod wire;

pub use crate::desync::DetMessage;
pub use crate::mode::RRMode;
pub use crate::recorder::EventRecorder;
pub use crate::thread_map::BufferedValues;
pub use crate::tivo::Tivo;
