//! A harness for nodes in a scripted distributed-systems test protocol,
//! together with a gossip-based broadcast protocol built on it: anti-entropy
//! dissemination of message identifiers with bounded redundant retransmission.

pub mod envelope;
pub mod idset;
pub mod broadcast;
pub mod knowledge;
pub mod rng;
pub mod runtime;

pub use envelope::Body;
pub use envelope::Init;
pub use envelope::InitPayload;
pub use envelope::Message;
pub use envelope::MessageID;
pub use envelope::NodeID;
pub use envelope::handshake;
pub use idset::IdSet;
pub use idset::lemma_insert_idempotent;
pub use knowledge::Knowledge;
pub use broadcast::BroadcastInjected;
pub use broadcast::BroadcastNode;
pub use broadcast::BroadcastPayload;
pub use broadcast::TopologyMap;
pub use broadcast::REDUNDANCY_DENOM;
pub use broadcast::REDUNDANCY_NUMER;
pub use broadcast::redundancy_cap_exec;
pub use runtime::Event;
pub use runtime::Node;
