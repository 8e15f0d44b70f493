//! Verified core of an editor's plugin host: an event system, the
//! bookkeeping of a plugin's RPC session with the host, the host's function
//! registry and a plugin's popup board.
pub mod event_system;
pub mod ids;
pub mod popups;
pub mod proto;
pub mod stew;
pub mod stew_rpc;
pub mod table;
