//! Consensus-session networking logic: recent local session keys, peer
//! knowledge of candidates, live session bookkeeping, gossip topics and the
//! verification of incoming parachain messages.

pub mod fetcher;
pub mod ingress;
pub mod knowledge;
pub mod primitives;
pub mod recent_keys;
pub mod registry;
pub mod topic;

pub use fetcher::{ChannelPoll, ConsensusDataFetcher, NetworkDown, RedirectReceiver, RedirectStage, RedirectStep};
pub use ingress::{IngressComputer, compute_ingress};
pub use knowledge::{Knowledge, KnowledgeEntry, Statement};
pub use primitives::{BlockData, Extrinsic, H256, Message, ParaId, SessionKey, bytes32_eq};
pub use recent_keys::{InsertedRecentKey, RecentSessionKeys, RECENT_SESSIONS};
pub use registry::{ConsensusParams, CurrentConsensus, IncomingFetch, LiveConsensusInstances};
pub use topic::incoming_message_topic;
