//! Feature layers over the machine and the mesh.

pub mod bridge_laws;
pub mod fitness;
pub mod io_words;
pub mod monitor;
pub mod monitor_laws;
pub mod sha;
pub mod ws_bridge;
