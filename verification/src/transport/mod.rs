//! Transport layer: how bytes travel between the server port and the local target.
pub mod bridge_laws;
pub mod frame;
pub mod frame_laws;
pub mod python_bridge;
pub mod russh_direct;
pub mod shared;
