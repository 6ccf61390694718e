//! The mesh: peers, gossip, consensus on replication, shared words and consent.

pub mod api;
pub mod arrivals;
pub mod consensus;
pub mod conduct;
pub mod consent;
pub mod goal_message;
pub mod gossip;
pub mod laws;
pub mod message;
pub mod node;
pub mod state;

pub use self::goal_message::encode_goal_broadcast;
pub use self::message::Addr;
pub use self::node::{
    id_to_hex, InboxMessage, MeshNode, Packet, PeerInfo, ReplicationLogEntry, ReplicationRequest,
    SharedWord, TrustLevel,
};
pub use self::state::{deserialize_state, serialize_state};
pub use crate::wire::NodeId;
