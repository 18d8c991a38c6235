use vstd::prelude::*;

use crate::primitives::{H256, ParaId, SessionKey};
use crate::registry::{
    ConsensusParams, IncomingFetch, LiveConsensusInstances, fetch_incoming_model, new_consensus_model,
    new_consensus_report, remove_model,
};
use crate::topic::incoming_topic;

verus! {

/// Error when the network appears to be down.
#[derive(Clone, Copy, Debug, PartialEq, Eq)]
pub struct NetworkDown;

/// Fetches data for one consensus session, named by its parent hash. Copies
/// of a fetcher act on the same session.
#[derive(Clone, Copy, Debug, PartialEq, Eq)]
pub struct ConsensusDataFetcher {
    parent_hash: H256,
}

impl LiveConsensusInstances {
    /// Instantiates consensus at `params.parent_hash`: registers or reuses
    /// the session there, as `new_consensus` does, and returns a fetcher for
    /// it with the key to broadcast, if any.
    pub fn instantiate_consensus(&mut self, params: ConsensusParams) -> (r: (ConsensusDataFetcher, Option<SessionKey>))
        requires
            old(self).wf(),
        ensures
            final(self).wf(),
            r.0.parent_hash() == params.parent_hash,
            final(self)@ == new_consensus_model(old(self)@, params.parent_hash, params.local_session_key),
            r.1 == new_consensus_report(old(self)@, params.parent_hash, params.local_session_key),
    {
        let parent_hash = params.parent_hash;
        let key = self.new_consensus(params);
        (ConsensusDataFetcher { parent_hash }, key)
    }
}

impl ConsensusDataFetcher {
    pub closed spec fn parent_hash_spec(&self) -> H256 {
        self.parent_hash
    }

    /// The parent hash of the session.
    #[verifier::when_used_as_spec(parent_hash_spec)]
    pub fn parent_hash(&self) -> (r: H256)
        ensures
            r == self.parent_hash(),
    {
        self.parent_hash
    }

    /// Asks for the incoming messages of `parachain` in this session: the
    /// first request starts a fetch on the returned topic, later ones share it.
    pub fn fetch_incoming(&self, instances: &mut LiveConsensusInstances, parachain: ParaId) -> (r: IncomingFetch)
        requires
            old(instances).wf(),
        ensures
            final(instances).wf(),
            final(instances)@ == fetch_incoming_model(old(instances)@, self.parent_hash(), parachain),
            !old(instances)@.1.contains_key(self.parent_hash()) ==> r == IncomingFetch::NoSession,
            old(instances)@.1.contains_key(self.parent_hash()) && old(instances)@.1[self.parent_hash()].2.contains(
                parachain,
            ) ==> r == IncomingFetch::Shared,
            old(instances)@.1.contains_key(self.parent_hash()) && !old(instances)@.1[self.parent_hash()].2.contains(
                parachain,
            ) ==> (r matches IncomingFetch::Start(t) && t@ == incoming_topic(self.parent_hash(), parachain)),
    {
        instances.fetch_incoming(&self.parent_hash, parachain)
    }

    /// Releases the session: it is removed, and the topics of the parachains
    /// it fetched are returned, to be dropped from gossip. Once released, a
    /// session yields nothing more, whichever copy of the fetcher asks.
    pub fn release(&self, instances: &mut LiveConsensusInstances) -> (r: Vec<H256>)
        requires
            old(instances).wf(),
        ensures
            final(instances).wf(),
            final(instances)@ == remove_model(old(instances)@, self.parent_hash()),
            !old(instances)@.1.contains_key(self.parent_hash()) ==> r@.len() == 0,
            old(instances)@.1.contains_key(self.parent_hash()) ==> r@.len() == old(instances)@.1[self.parent_hash()].2.len()
                && forall|j: int|
                0 <= j < r@.len() ==> r@[j]@ == incoming_topic(
                    self.parent_hash(),
                    old(instances)@.1[self.parent_hash()].2[j],
                ),
    {
        instances.release(&self.parent_hash)
    }
}

/// What polling one channel gave.
#[derive(Clone, Copy, Debug, PartialEq, Eq)]
pub enum ChannelPoll {
    /// Nothing yet.
    Pending,
    /// The value arrived.
    Ready,
    /// The sending side was dropped without sending.
    HungUp,
}

/// Where a receiver that is redirected to its real channel stands.
#[derive(Clone, Copy, Debug, PartialEq, Eq)]
pub enum RedirectStage {
    /// Waiting for the channel that will carry the result.
    Outer,
    /// Waiting on that channel for the result.
    Inner,
    /// Resolved or failed.
    Finished,
}

/// What a receiver does after a poll.
#[derive(Clone, Copy, Debug, PartialEq, Eq)]
pub enum RedirectStep {
    /// Not ready: poll again later.
    NotReady,
    /// The real channel arrived: poll it now.
    PollInner,
    /// The result arrived.
    Resolved,
    /// A sending side hung up.
    Failed,
}

/// The decisions of a receiver whose producer first hands over the channel
/// that will carry the result: it follows that redirection, and fails when
/// either producer is dropped without sending.
pub struct RedirectReceiver {
    stage: RedirectStage,
}

/// The stage and step after polling the outer channel.
pub open spec fn outer_step(ev: ChannelPoll) -> (RedirectStage, RedirectStep) {
    match ev {
        ChannelPoll::Pending => (RedirectStage::Outer, RedirectStep::NotReady),
        ChannelPoll::Ready => (RedirectStage::Inner, RedirectStep::PollInner),
        ChannelPoll::HungUp => (RedirectStage::Finished, RedirectStep::Failed),
    }
}

/// The stage and step after polling the inner channel.
pub open spec fn inner_step(ev: ChannelPoll) -> (RedirectStage, RedirectStep) {
    match ev {
        ChannelPoll::Pending => (RedirectStage::Inner, RedirectStep::NotReady),
        ChannelPoll::Ready => (RedirectStage::Finished, RedirectStep::Resolved),
        ChannelPoll::HungUp => (RedirectStage::Finished, RedirectStep::Failed),
    }
}

impl RedirectReceiver {
    pub closed spec fn stage_spec(&self) -> RedirectStage {
        self.stage
    }

    /// A receiver waiting for its real channel.
    pub fn new() -> (r: Self)
        ensures
            r.stage() == RedirectStage::Outer,
    {
        RedirectReceiver { stage: RedirectStage::Outer }
    }

    /// Where the receiver stands.
    #[verifier::when_used_as_spec(stage_spec)]
    pub fn stage(&self) -> (r: RedirectStage)
        ensures
            r == self.stage(),
    {
        self.stage
    }

    /// Takes the result of polling the channel the receiver waits on: the
    /// outer one before the redirection, the real one after it.
    pub fn on_poll(&mut self, ev: ChannelPoll) -> (r: RedirectStep)
        requires
            old(self).stage() != RedirectStage::Finished,
        ensures
            old(self).stage() == RedirectStage::Outer ==> (final(self).stage(), r) == outer_step(ev),
            old(self).stage() == RedirectStage::Inner ==> (final(self).stage(), r) == inner_step(ev),
    {
        let (stage, step) = match (self.stage, ev) {
            (RedirectStage::Outer, ChannelPoll::Pending) => (RedirectStage::Outer, RedirectStep::NotReady),
            (RedirectStage::Outer, ChannelPoll::Ready) => (RedirectStage::Inner, RedirectStep::PollInner),
            (RedirectStage::Inner, ChannelPoll::Pending) => (RedirectStage::Inner, RedirectStep::NotReady),
            (RedirectStage::Inner, ChannelPoll::Ready) => (RedirectStage::Finished, RedirectStep::Resolved),
            (_, _) => (RedirectStage::Finished, RedirectStep::Failed),
        };
        self.stage = stage;
        step
    }
}

} // verus!
