use vstd::prelude::*;

use crate::knowledge::{
    EntryModel, Knowledge, Statement, bytes_opt, entry_of, noted_candidate, noted_statement, statement_candidate,
};
use crate::primitives::{BlockData, Extrinsic, H256, ParaId, SessionKey, bytes32_eq};
use crate::recent_keys::{InsertedRecentKey, RecentSessionKeys, distinct_keys, insert_keys, remove_key};
use crate::topic::{incoming_message_topic, incoming_topic};

verus! {

/// Params to a consensus session.
pub struct ConsensusParams {
    /// The local session key.
    pub local_session_key: Option<SessionKey>,
    /// The parent hash.
    pub parent_hash: H256,
}

/// The model of a session: its local key, the knowledge of its candidates,
/// and the parachains whose incoming messages it fetches, in the order asked.
pub type SessionModel = (Option<SessionKey>, Map<H256, EntryModel>, Seq<ParaId>);

/// A live consensus session.
pub struct CurrentConsensus {
    parent_hash: H256,
    knowledge: Knowledge,
    local_session_key: Option<SessionKey>,
    fetch_incoming: Vec<ParaId>,
}

impl View for CurrentConsensus {
    type V = SessionModel;

    closed spec fn view(&self) -> SessionModel {
        (self.local_session_key, self.knowledge@, self.fetch_incoming@)
    }
}

/// No parachain fetched twice.
pub open spec fn distinct_paras(s: Seq<ParaId>) -> bool {
    forall|i: int, j: int| 0 <= i < j < s.len() ==> s[i] != s[j]
}

impl CurrentConsensus {
    /// Its knowledge is well formed and no parachain is fetched twice.
    pub closed spec fn wf(&self) -> bool {
        &&& self.knowledge.wf()
        &&& distinct_paras(self.fetch_incoming@)
    }

    /// A new session, knowing nothing and fetching nothing.
    fn new(params: ConsensusParams) -> (r: Self)
        ensures
            r.wf(),
            r.parent_hash == params.parent_hash,
            r@ == (params.local_session_key, Map::<H256, EntryModel>::empty(), Seq::<ParaId>::empty()),
    {
        let r = CurrentConsensus {
            parent_hash: params.parent_hash,
            knowledge: Knowledge::new(),
            local_session_key: params.local_session_key,
            fetch_incoming: Vec::new(),
        };
        assert(r.fetch_incoming@ =~= Seq::<ParaId>::empty());
        r
    }
}

/// What the registry holds: the recent local keys, and the live sessions by
/// parent hash.
pub type RegistryModel = (Seq<SessionKey>, Map<H256, SessionModel>);

/// Whether some session of `m` uses `key` as its local key.
pub open spec fn key_in_use(m: Map<H256, SessionModel>, key: SessionKey) -> bool {
    exists|h: H256| #[trigger] m.contains_key(h) && m[h].0 == Some(key)
}

/// The registry after a session is asked for at `parent`: an existing session
/// is reused untouched; otherwise a new one is registered and its key, if
/// any, noted among the recent keys.
pub open spec fn new_consensus_model(s: RegistryModel, parent: H256, key: Option<SessionKey>) -> RegistryModel {
    if s.1.contains_key(parent) {
        s
    } else {
        (
            match key {
                Some(k) => insert_keys(s.0, k),
                None => s.0,
            },
            s.1.insert(parent, (key, Map::empty(), Seq::empty())),
        )
    }
}

/// The key to broadcast after a session is asked for at `parent`: the local
/// key of a new session, where it was not among the recent keys.
pub open spec fn new_consensus_report(s: RegistryModel, parent: H256, key: Option<SessionKey>) -> Option<SessionKey> {
    if s.1.contains_key(parent) {
        None
    } else {
        match key {
            Some(k) => if s.0.contains(k) {
                None
            } else {
                Some(k)
            },
            None => None,
        }
    }
}

/// The registry after the session at `parent` is removed: its local key
/// leaves the recent keys unless another live session still uses it.
pub open spec fn remove_model(s: RegistryModel, parent: H256) -> RegistryModel {
    if !s.1.contains_key(parent) {
        s
    } else {
        let rest = s.1.remove(parent);
        match s.1[parent].0 {
            Some(k) => if key_in_use(rest, k) {
                (s.0, rest)
            } else {
                (remove_key(s.0, k), rest)
            },
            None => (s.0, rest),
        }
    }
}

/// What asking for a parachain's incoming messages amounts to.
pub enum IncomingFetch {
    /// A fetch for it runs already in this session: share its result.
    Shared,
    /// No fetch for it ran yet: start one, subscribed to this gossip topic.
    Start(H256),
    /// No session is live at that parent hash.
    NoSession,
}

/// The registry once `parachain` is asked for in the session at `parent`:
/// the parachain is recorded there the first time only.
pub open spec fn fetch_incoming_model(s: RegistryModel, parent: H256, parachain: ParaId) -> RegistryModel {
    if s.1.contains_key(parent) && !s.1[parent].2.contains(parachain) {
        (s.0, s.1.insert(parent, (s.1[parent].0, s.1[parent].1, s.1[parent].2.push(parachain))))
    } else {
        s
    }
}

/// Manages requests and session keys for live consensus sessions.
pub struct LiveConsensusInstances {
    recent: RecentSessionKeys,
    live_instances: Vec<CurrentConsensus>,
    model: Ghost<Map<H256, SessionModel>>,
}

impl View for LiveConsensusInstances {
    type V = RegistryModel;

    closed spec fn view(&self) -> RegistryModel {
        (self.recent@, self.model@)
    }
}

impl LiveConsensusInstances {
    /// One session per parent hash, each well formed, and they are the model.
    pub closed spec fn wf(&self) -> bool {
        &&& self.recent.wf()
        &&& forall|i: int|
            0 <= i < self.live_instances@.len() ==> #[trigger] self.model@.contains_key(
                self.live_instances@[i].parent_hash,
            ) && self.model@[self.live_instances@[i].parent_hash] == self.live_instances@[i]@
                && self.live_instances@[i].wf()
        &&& forall|h: H256|
            #[trigger] self.model@.contains_key(h) ==> exists|i: int|
                0 <= i < self.live_instances@.len() && self.live_instances@[i].parent_hash == h
        &&& forall|i: int, j: int|
            0 <= i < j < self.live_instances@.len() ==> self.live_instances@[i].parent_hash
                != self.live_instances@[j].parent_hash
    }

    /// No live session, no recent key.
    pub fn new() -> (r: Self)
        ensures
            r.wf(),
            r@ == (Seq::<SessionKey>::empty(), Map::<H256, SessionModel>::empty()),
    {
        LiveConsensusInstances { recent: RecentSessionKeys::new(), live_instances: Vec::new(), model: Ghost(Map::empty()) }
    }

    fn find(&self, h: &H256) -> (r: Option<usize>)
        requires
            self.wf(),
        ensures
            match r {
                Some(i) => i < self.live_instances@.len() && self.live_instances@[i as int].parent_hash == *h,
                None => !self@.1.contains_key(*h),
            },
    {
        let mut i: usize = 0;
        while i < self.live_instances.len()
            invariant
                self.wf(),
                i <= self.live_instances@.len(),
                forall|j: int| 0 <= j < i ==> self.live_instances@[j].parent_hash != *h,
            decreases self.live_instances@.len() - i,
        {
            if bytes32_eq(&self.live_instances[i].parent_hash, h) {
                return Some(i);
            }
            i = i + 1;
        }
        None
    }

    /// Records `c` as the session of its parent hash, at `at` when `at` is in
    /// range (where that session was) and appended otherwise.
    proof fn lemma_stored(self, prev: Self, at: int, c: CurrentConsensus)
        requires
            prev.wf(),
            self.recent == prev.recent,
            c.wf(),
            0 <= at <= prev.live_instances@.len(),
            at < prev.live_instances@.len() ==> prev.live_instances@[at].parent_hash == c.parent_hash
                && self.live_instances@ == prev.live_instances@.update(at, c),
            at == prev.live_instances@.len() ==> !prev@.1.contains_key(c.parent_hash)
                && self.live_instances@ == prev.live_instances@.push(c),
            self.model@ == prev.model@.insert(c.parent_hash, c@),
        ensures
            self.wf(),
    {
        let v0 = prev.live_instances@;
        let v1 = self.live_instances@;
        assert forall|i: int| 0 <= i < v1.len() implies #[trigger] self.model@.contains_key(v1[i].parent_hash)
            && self.model@[v1[i].parent_hash] == v1[i]@ && v1[i].wf() by {
            if i != at {
                assert(v1[i] == v0[i]);
                assert(prev.model@.contains_key(v0[i].parent_hash));
            }
        }
        assert forall|h: H256| #[trigger] self.model@.contains_key(h) implies exists|i: int|
            0 <= i < v1.len() && v1[i].parent_hash == h by {
            if h == c.parent_hash {
                assert(v1[at].parent_hash == h);
            } else {
                assert(prev.model@.contains_key(h));
                let i = choose|i: int| 0 <= i < v0.len() && v0[i].parent_hash == h;
                assert(v1[i].parent_hash == h);
            }
        }
        assert forall|i: int, j: int| 0 <= i < j < v1.len() implies v1[i].parent_hash != v1[j].parent_hash by {
            if i != at && j != at {
                assert(v1[i] == v0[i]);
                assert(v1[j] == v0[j]);
            } else if j == at && at == v0.len() {
                assert(v1[i] == v0[i]);
                assert(prev.model@.contains_key(v0[i].parent_hash));
            } else if i == at {
                assert(v1[j] == v0[j]);
            } else {
                assert(v1[i] == v0[i]);
            }
        }
    }

    /// Takes the session at `at` out of a well-formed registry.
    proof fn lemma_removed(self, prev: Self, at: int)
        requires
            prev.wf(),
            self.recent == prev.recent,
            0 <= at < prev.live_instances@.len(),
            self.live_instances@ == prev.live_instances@.remove(at),
            self.model@ == prev.model@.remove(prev.live_instances@[at].parent_hash),
        ensures
            self.wf(),
    {
        let v0 = prev.live_instances@;
        let v1 = self.live_instances@;
        let h0 = v0[at].parent_hash;
        assert forall|i: int| 0 <= i < v1.len() implies #[trigger] self.model@.contains_key(v1[i].parent_hash)
            && self.model@[v1[i].parent_hash] == v1[i]@ && v1[i].wf() by {
            let k = if i < at { i } else { i + 1 };
            assert(v1[i] == v0[k]);
            assert(prev.model@.contains_key(v0[k].parent_hash));
        }
        assert forall|h: H256| #[trigger] self.model@.contains_key(h) implies exists|i: int|
            0 <= i < v1.len() && v1[i].parent_hash == h by {
            assert(prev.model@.contains_key(h));
            let k = choose|k: int| 0 <= k < v0.len() && v0[k].parent_hash == h;
            if k < at {
                assert(v1[k].parent_hash == h);
            } else {
                assert(k != at);
                assert(v1[k - 1].parent_hash == h);
            }
        }
        assert forall|i: int, j: int| 0 <= i < j < v1.len() implies v1[i].parent_hash != v1[j].parent_hash by {
            let ki = if i < at { i } else { i + 1 };
            let kj = if j < at { j } else { j + 1 };
            assert(v1[i] == v0[ki]);
            assert(v1[j] == v0[kj]);
        }
    }

    /// Notes a session at `params.parent_hash`. A live session there is
    /// reused and nothing is to be broadcast; otherwise a new session is
    /// registered, and its local key is returned for broadcast where it is
    /// new among the recent keys.
    pub fn new_consensus(&mut self, params: ConsensusParams) -> (r: Option<SessionKey>)
        requires
            old(self).wf(),
        ensures
            final(self).wf(),
            final(self)@ == new_consensus_model(old(self)@, params.parent_hash, params.local_session_key),
            r == new_consensus_report(old(self)@, params.parent_hash, params.local_session_key),
    {
        let parent_hash = params.parent_hash;
        if self.find(&parent_hash).is_some() {
            return None;
        }
        let ghost prev = *self;
        let maybe_new = match params.local_session_key {
            Some(key) => match self.recent.insert(key) {
                InsertedRecentKey::New(_) => Some(key),
                InsertedRecentKey::AlreadyKnown => None,
            },
            None => None,
        };
        let ghost mid = *self;
        let c = CurrentConsensus::new(params);
        let ghost cv = c@;
        self.live_instances.push(c);
        self.model = Ghost(prev.model@.insert(parent_hash, cv));
        proof {
            assert(mid.live_instances == prev.live_instances);
            assert(self.live_instances@ =~= mid.live_instances@.push(c));
            let prev2 = LiveConsensusInstances { recent: self.recent, live_instances: prev.live_instances, model: prev.model };
            assert(prev2.wf());
            self.lemma_stored(prev2, prev.live_instances@.len() as int, c);
        }
        maybe_new
    }

    /// Whether some live session uses `key` as its local key.
    fn key_still_used(&self, key: &SessionKey) -> (r: bool)
        requires
            self.wf(),
        ensures
            r == key_in_use(self@.1, *key),
    {
        let mut i: usize = 0;
        while i < self.live_instances.len()
            invariant
                self.wf(),
                i <= self.live_instances@.len(),
                forall|j: int| 0 <= j < i ==> self.live_instances@[j]@.0 != Some(*key),
            decreases self.live_instances@.len() - i,
        {
            match &self.live_instances[i].local_session_key {
                Some(k) => {
                    if bytes32_eq(k, key) {
                        assert(self.model@.contains_key(self.live_instances@[i as int].parent_hash));
                        return true;
                    }
                },
                None => {},
            }
            i = i + 1;
        }
        assert forall|h: H256| #[trigger] self.model@.contains_key(h) implies self.model@[h].0 != Some(*key) by {
            let j = choose|j: int| 0 <= j < self.live_instances@.len() && self.live_instances@[j].parent_hash == h;
        }
        false
    }

    /// Removes the session at `parent_hash`. Its local key leaves the recent
    /// keys unless another live session still uses it.
    pub fn remove(&mut self, parent_hash: &H256)
        requires
            old(self).wf(),
        ensures
            final(self).wf(),
            final(self)@ == remove_model(old(self)@, *parent_hash),
    {
        let i = match self.find(parent_hash) {
            Some(i) => i,
            None => return,
        };
        let ghost prev = *self;
        let consensus = self.live_instances.remove(i);
        self.model = Ghost(prev.model@.remove(*parent_hash));
        proof {
            self.lemma_removed(prev, i as int);
        }
        match consensus.local_session_key {
            Some(key) => {
                if !self.key_still_used(&key) {
                    self.recent.remove(&key);
                }
            },
            None => {},
        }
    }

    /// The recent local session keys, oldest first.
    pub fn recent_keys(&self) -> (r: &[SessionKey])
        ensures
            r@ == self@.0,
    {
        self.recent.as_slice()
    }

    /// Block data of candidate `c_hash` in the session at `parent_hash`:
    /// `Ok(data)` where the session is live and the data held locally,
    /// `Err(Some(peers))` where the session is live but the data not held,
    /// with the peers known to hold it, and `Err(None)` where no session is
    /// live there.
    pub fn with_block_data(&self, parent_hash: &H256, c_hash: &H256) -> (r: Result<&BlockData, Option<&[SessionKey]>>)
        requires
            self.wf(),
        ensures
            match r {
                Ok(d) => self@.1.contains_key(*parent_hash) && entry_of(self@.1[*parent_hash].1, *c_hash).2
                    == Some(d@),
                Err(Some(peers)) => self@.1.contains_key(*parent_hash) && entry_of(
                    self@.1[*parent_hash].1,
                    *c_hash,
                ).2.is_none() && peers@ == entry_of(self@.1[*parent_hash].1, *c_hash).0,
                Err(None) => !self@.1.contains_key(*parent_hash),
            },
    {
        match self.find(parent_hash) {
            Some(i) => {
                assert(self.model@.contains_key(self.live_instances@[i as int].parent_hash));
                match self.live_instances[i].knowledge.with_block_data(c_hash) {
                    Ok(d) => Ok(d),
                    Err(peers) => Err(Some(peers)),
                }
            },
            None => Err(None),
        }
    }

    /// Notes a statement from `from` in the session at `parent_hash`; returns
    /// whether that session is live. Nothing changes where it is not.
    pub fn note_statement(&mut self, parent_hash: &H256, from: SessionKey, statement: &Statement) -> (r: bool)
        requires
            old(self).wf(),
        ensures
            final(self).wf(),
            r == old(self)@.1.contains_key(*parent_hash),
            !r ==> final(self)@ == old(self)@,
            r ==> final(self)@ == (old(self)@.0, old(self)@.1.insert(*parent_hash, (
                old(self)@.1[*parent_hash].0,
                old(self)@.1[*parent_hash].1.insert(
                    statement_candidate(*statement),
                    noted_statement(
                        entry_of(old(self)@.1[*parent_hash].1, statement_candidate(*statement)),
                        from,
                        *statement,
                    ),
                ),
                old(self)@.1[*parent_hash].2,
            ))),
    {
        let i = match self.find(parent_hash) {
            Some(i) => i,
            None => return false,
        };
        let ghost prev = *self;
        proof {
            assert(prev.model@.contains_key(prev.live_instances@[i as int].parent_hash));
        }
        self.live_instances[i].knowledge.note_statement(from, statement);
        let ghost c = self.live_instances@[i as int];
        self.model = Ghost(prev.model@.insert(*parent_hash, c@));
        proof {
            assert(self.live_instances@ =~= prev.live_instances@.update(i as int, c));
            self.lemma_stored(prev, i as int, c);
        }
        true
    }

    /// Notes a candidate collated or seen locally in the session at
    /// `parent_hash`, keeping any data already held; returns whether that
    /// session is live. Nothing changes where it is not.
    pub fn note_candidate(
        &mut self,
        parent_hash: &H256,
        hash: H256,
        block_data: Option<BlockData>,
        extrinsic: Option<Extrinsic>,
    ) -> (r: bool)
        requires
            old(self).wf(),
        ensures
            final(self).wf(),
            r == old(self)@.1.contains_key(*parent_hash),
            !r ==> final(self)@ == old(self)@,
            r ==> final(self)@ == (old(self)@.0, old(self)@.1.insert(*parent_hash, (
                old(self)@.1[*parent_hash].0,
                old(self)@.1[*parent_hash].1.insert(
                    hash,
                    noted_candidate(
                        entry_of(old(self)@.1[*parent_hash].1, hash),
                        bytes_opt(block_data),
                        bytes_opt(extrinsic),
                    ),
                ),
                old(self)@.1[*parent_hash].2,
            ))),
    {
        let i = match self.find(parent_hash) {
            Some(i) => i,
            None => return false,
        };
        let ghost prev = *self;
        proof {
            assert(prev.model@.contains_key(prev.live_instances@[i as int].parent_hash));
        }
        self.live_instances[i].knowledge.note_candidate(hash, block_data, extrinsic);
        let ghost c = self.live_instances@[i as int];
        self.model = Ghost(prev.model@.insert(*parent_hash, c@));
        proof {
            assert(self.live_instances@ =~= prev.live_instances@.update(i as int, c));
            self.lemma_stored(prev, i as int, c);
        }
        true
    }

    /// Asks for the incoming messages of `parachain` in the session at
    /// `parent_hash`. The first request for a parachain starts its fetch, on
    /// the returned topic; later ones share that fetch.
    pub fn fetch_incoming(&mut self, parent_hash: &H256, parachain: ParaId) -> (r: IncomingFetch)
        requires
            old(self).wf(),
        ensures
            final(self).wf(),
            final(self)@ == fetch_incoming_model(old(self)@, *parent_hash, parachain),
            !old(self)@.1.contains_key(*parent_hash) ==> r == IncomingFetch::NoSession,
            old(self)@.1.contains_key(*parent_hash) && old(self)@.1[*parent_hash].2.contains(parachain)
                ==> r == IncomingFetch::Shared,
            old(self)@.1.contains_key(*parent_hash) && !old(self)@.1[*parent_hash].2.contains(parachain)
                ==> (r matches IncomingFetch::Start(t) && t@ == incoming_topic(*parent_hash, parachain)),
    {
        let i = match self.find(parent_hash) {
            Some(i) => i,
            None => return IncomingFetch::NoSession,
        };
        let ghost prev = *self;
        proof {
            assert(prev.model@.contains_key(prev.live_instances@[i as int].parent_hash));
        }
        let mut k: usize = 0;
        while k < self.live_instances[i].fetch_incoming.len()
            invariant
                *self == prev,
                prev.wf(),
                prev@ == old(self)@,
                i < self.live_instances@.len(),
                prev.live_instances@[i as int].parent_hash == *parent_hash,
                prev.model@.contains_key(*parent_hash),
                k <= self.live_instances@[i as int].fetch_incoming@.len(),
                forall|j: int| 0 <= j < k ==> self.live_instances@[i as int].fetch_incoming@[j] != parachain,
            decreases self.live_instances@[i as int].fetch_incoming@.len() - k,
        {
            if self.live_instances[i].fetch_incoming[k] == parachain {
                assert(old(self)@.1[*parent_hash].2[k as int] == parachain);
                return IncomingFetch::Shared;
            }
            k = k + 1;
        }
        self.live_instances[i].fetch_incoming.push(parachain);
        let ghost c = self.live_instances@[i as int];
        self.model = Ghost(prev.model@.insert(*parent_hash, c@));
        proof {
            let f0 = prev.live_instances@[i as int].fetch_incoming@;
            assert(c.fetch_incoming@ == f0.push(parachain));
            assert forall|a: int, b: int| 0 <= a < b < c.fetch_incoming@.len() implies c.fetch_incoming@[a]
                != c.fetch_incoming@[b] by {
                if b < f0.len() {
                    assert(prev.live_instances@[i as int].wf());
                }
            }
            assert(self.live_instances@ =~= prev.live_instances@.update(i as int, c));
            self.lemma_stored(prev, i as int, c);
        }
        IncomingFetch::Start(incoming_message_topic(*parent_hash, parachain))
    }

    /// Releases the session at `parent_hash`: removes it, as `remove` does,
    /// and returns the topics of the parachains it fetched, to be dropped from
    /// gossip. Releasing again finds nothing and returns nothing.
    pub fn release(&mut self, parent_hash: &H256) -> (r: Vec<H256>)
        requires
            old(self).wf(),
        ensures
            final(self).wf(),
            final(self)@ == remove_model(old(self)@, *parent_hash),
            !old(self)@.1.contains_key(*parent_hash) ==> r@.len() == 0,
            old(self)@.1.contains_key(*parent_hash) ==> r@.len() == old(self)@.1[*parent_hash].2.len()
                && forall|j: int| 0 <= j < r@.len() ==> r@[j]@ == incoming_topic(*parent_hash, old(self)@.1[*parent_hash].2[j]),
    {
        let mut topics: Vec<H256> = Vec::new();
        match self.find(parent_hash) {
            Some(i) => {
                proof {
                    assert(self.model@.contains_key(self.live_instances@[i as int].parent_hash));
                }
                let mut k: usize = 0;
                while k < self.live_instances[i].fetch_incoming.len()
                    invariant
                        i < self.live_instances@.len(),
                        k <= self.live_instances@[i as int].fetch_incoming@.len(),
                        topics@.len() == k,
                        forall|j: int| 0 <= j < k ==> topics@[j]@ == incoming_topic(
                            *parent_hash,
                            self.live_instances@[i as int].fetch_incoming@[j],
                        ),
                    decreases self.live_instances@[i as int].fetch_incoming@.len() - k,
                {
                    let t = incoming_message_topic(*parent_hash, self.live_instances[i].fetch_incoming[k]);
                    topics.push(t);
                    k = k + 1;
                }
            },
            None => {},
        }
        self.remove(parent_hash);
        topics
    }
}

} // verus!

verus! {

/// Asking twice for a session at the same parent hash reuses the session of
/// the first call, whatever local key the second call carries, and reports no
/// key to broadcast the second time.
pub proof fn lemma_session_reuse(s: RegistryModel, parent: H256, k1: Option<SessionKey>, k2: Option<SessionKey>)
    ensures
        new_consensus_model(s, parent, k1).1.contains_key(parent),
        new_consensus_model(new_consensus_model(s, parent, k1), parent, k2) == new_consensus_model(s, parent, k1),
        new_consensus_report(new_consensus_model(s, parent, k1), parent, k2) is None,
{
}

/// Removing a session whose local key another live session still uses keeps
/// the recent keys as they are; removing the last session that uses its key
/// takes that key out of them.
pub proof fn lemma_key_retention(s: RegistryModel, parent: H256, key: SessionKey, other: H256)
    requires
        distinct_keys(s.0),
        s.1.contains_key(parent),
        s.1[parent].0 == Some(key),
    ensures
        other != parent && s.1.contains_key(other) && s.1[other].0 == Some(key) ==> remove_model(s, parent).0
            == s.0,
        !key_in_use(s.1.remove(parent), key) ==> !remove_model(s, parent).0.contains(key),
        remove_model(s, parent).1 == s.1.remove(parent),
{
    let rest = s.1.remove(parent);
    if other != parent && s.1.contains_key(other) && s.1[other].0 == Some(key) {
        assert(rest.contains_key(other));
    }
    if !key_in_use(rest, key) && s.0.contains(key) {
        let i = s.0.index_of(key);
        let t = s.0.remove(i);
        assert forall|j: int| 0 <= j < t.len() implies t[j] != key by {
            if j < i {
                assert(t[j] == s.0[j]);
            } else {
                assert(t[j] == s.0[j + 1]);
            }
        }
    }
}

/// Removing a session leaves none at its parent hash, so removing it again
/// changes nothing: a session is released once, however many handles ask.
pub proof fn lemma_remove_once(s: RegistryModel, parent: H256)
    ensures
        !remove_model(s, parent).1.contains_key(parent),
        remove_model(remove_model(s, parent), parent) == remove_model(s, parent),
{
}

} // verus!
