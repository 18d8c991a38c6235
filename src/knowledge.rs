use vstd::prelude::*;

use crate::primitives::{BlockData, Extrinsic, H256, SessionKey, bytes32_eq};

verus! {

/// A statement of a validator on a candidate, the candidate being named by the
/// hash of its receipt.
pub enum Statement {
    /// The validator proposes the candidate.
    Candidate(H256),
    /// The validator declares the candidate valid.
    Valid(H256),
    /// The validator declares the candidate invalid.
    Invalid(H256),
}

/// What is known of one candidate: who holds its block data, who holds its
/// extrinsic, and the data itself where it is held locally.
pub struct KnowledgeEntry {
    candidate: H256,
    knows_block_data: Vec<SessionKey>,
    knows_extrinsic: Vec<SessionKey>,
    block_data: Option<BlockData>,
    extrinsic: Option<Extrinsic>,
}

/// The model of an entry: the peers that hold the block data, the peers that
/// hold the extrinsic, the local block data and the local extrinsic.
pub type EntryModel = (Seq<SessionKey>, Seq<SessionKey>, Option<Seq<u8>>, Option<Seq<u8>>);

pub open spec fn bytes_opt(o: Option<Vec<u8>>) -> Option<Seq<u8>> {
    match o {
        Some(v) => Some(v@),
        None => None,
    }
}

impl View for KnowledgeEntry {
    type V = EntryModel;

    closed spec fn view(&self) -> EntryModel {
        (
            self.knows_block_data@,
            self.knows_extrinsic@,
            bytes_opt(self.block_data),
            bytes_opt(self.extrinsic),
        )
    }
}

/// The entry of a candidate that nothing is known of.
pub open spec fn empty_entry() -> EntryModel {
    (Seq::empty(), Seq::empty(), None, None)
}

/// The entry of `h` in `m`, or the empty one where `h` was never mentioned.
pub open spec fn entry_of(m: Map<H256, EntryModel>, h: H256) -> EntryModel {
    if m.contains_key(h) {
        m[h]
    } else {
        empty_entry()
    }
}

/// The statement's candidate.
pub open spec fn statement_candidate(s: Statement) -> H256 {
    match s {
        Statement::Candidate(h) => h,
        Statement::Valid(h) => h,
        Statement::Invalid(h) => h,
    }
}

/// The entry `e` once the statement `s` from `from` is noted: every author is
/// recorded as holding the block data, and those who propose the candidate or
/// declare it valid as holding the extrinsic too.
pub open spec fn noted_statement(e: EntryModel, from: SessionKey, s: Statement) -> EntryModel {
    match s {
        Statement::Invalid(_) => (e.0.push(from), e.1, e.2, e.3),
        _ => (e.0.push(from), e.1.push(from), e.2, e.3),
    }
}

/// The entry `e` once local data is noted: data already held is kept.
pub open spec fn noted_candidate(
    e: EntryModel,
    block_data: Option<Seq<u8>>,
    extrinsic: Option<Seq<u8>>,
) -> EntryModel {
    (
        e.0,
        e.1,
        if e.2.is_some() { e.2 } else { block_data },
        if e.3.is_some() { e.3 } else { extrinsic },
    )
}

/// Tracks which peers know the data of which candidates.
pub struct Knowledge {
    entries: Vec<KnowledgeEntry>,
    model: Ghost<Map<H256, EntryModel>>,
}

impl View for Knowledge {
    type V = Map<H256, EntryModel>;

    closed spec fn view(&self) -> Map<H256, EntryModel> {
        self.model@
    }
}

impl Knowledge {
    /// Each candidate has one entry, and the entries are the model.
    pub closed spec fn wf(&self) -> bool {
        &&& forall|i: int|
            0 <= i < self.entries@.len() ==> #[trigger] self.model@.contains_key(
                self.entries@[i].candidate,
            ) && self.model@[self.entries@[i].candidate] == self.entries@[i]@
        &&& forall|h: H256|
            #[trigger] self.model@.contains_key(h) ==> exists|i: int|
                0 <= i < self.entries@.len() && self.entries@[i].candidate == h
        &&& forall|i: int, j: int|
            0 <= i < j < self.entries@.len() ==> self.entries@[i].candidate
                != self.entries@[j].candidate
    }

    /// Knowledge of no candidate.
    pub fn new() -> (r: Self)
        ensures
            r.wf(),
            r@ == Map::<H256, EntryModel>::empty(),
    {
        Knowledge { entries: Vec::new(), model: Ghost(Map::empty()) }
    }

    fn find(&self, h: &H256) -> (r: Option<usize>)
        requires
            self.wf(),
        ensures
            match r {
                Some(i) => i < self.entries@.len() && self.entries@[i as int].candidate == *h,
                None => !self@.contains_key(*h),
            },
    {
        let mut i: usize = 0;
        while i < self.entries.len()
            invariant
                self.wf(),
                i <= self.entries@.len(),
                forall|j: int| 0 <= j < i ==> self.entries@[j].candidate != *h,
            decreases self.entries@.len() - i,
        {
            if bytes32_eq(&self.entries[i].candidate, h) {
                return Some(i);
            }
            i = i + 1;
        }
        None
    }

    /// Records `e` as the entry of its candidate, which is at `at` when
    /// `at` is in range and absent otherwise.
    proof fn lemma_stored(self, prev: Self, at: int, e: KnowledgeEntry)
        requires
            prev.wf(),
            0 <= at <= prev.entries@.len(),
            at < prev.entries@.len() ==> prev.entries@[at].candidate == e.candidate
                && self.entries@ == prev.entries@.update(at, e),
            at == prev.entries@.len() ==> !prev@.contains_key(e.candidate)
                && self.entries@ == prev.entries@.push(e),
            self.model@ == prev.model@.insert(e.candidate, e@),
        ensures
            self.wf(),
    {
        assert forall|i: int| 0 <= i < self.entries@.len() implies #[trigger] self.model@.contains_key(
            self.entries@[i].candidate,
        ) && self.model@[self.entries@[i].candidate] == self.entries@[i]@ by {
            if i != at {
                assert(self.entries@[i] == prev.entries@[i]);
                assert(prev.model@.contains_key(prev.entries@[i].candidate));
            }
        }
        assert forall|h: H256| #[trigger] self.model@.contains_key(h) implies exists|i: int|
            0 <= i < self.entries@.len() && self.entries@[i].candidate == h by {
            if h == e.candidate {
                assert(self.entries@[at].candidate == h);
            } else {
                assert(prev.model@.contains_key(h));
                let i = choose|i: int| 0 <= i < prev.entries@.len() && prev.entries@[i].candidate == h;
                assert(self.entries@[i].candidate == h);
            }
        }
        assert forall|i: int, j: int| 0 <= i < j < self.entries@.len() implies self.entries@[i].candidate
            != self.entries@[j].candidate by {
            if i != at && j != at {
                assert(self.entries@[i] == prev.entries@[i]);
                assert(self.entries@[j] == prev.entries@[j]);
            } else if i == at && at == prev.entries@.len() {
            } else if j == at && at == prev.entries@.len() {
                assert(self.entries@[i] == prev.entries@[i]);
                assert(prev.model@.contains_key(prev.entries@[i].candidate));
            } else if i == at {
                assert(self.entries@[j] == prev.entries@[j]);
            } else {
                assert(self.entries@[i] == prev.entries@[i]);
            }
        }
    }

    fn empty_entry_for(h: &H256) -> (r: KnowledgeEntry)
        ensures
            r.candidate == *h,
            r@ == empty_entry(),
    {
        let r = KnowledgeEntry {
            candidate: *h,
            knows_block_data: Vec::new(),
            knows_extrinsic: Vec::new(),
            block_data: None,
            extrinsic: None,
        };
        assert(r@.0 =~= Seq::<SessionKey>::empty());
        assert(r@.1 =~= Seq::<SessionKey>::empty());
        r
    }

    /// Notes a statement seen from another validator: its author holds the
    /// candidate's block data, and, unless it declares the candidate invalid,
    /// its extrinsic too. A repeated statement is recorded again.
    pub fn note_statement(&mut self, from: SessionKey, statement: &Statement)
        requires
            old(self).wf(),
        ensures
            final(self).wf(),
            final(self)@ == old(self)@.insert(
                statement_candidate(*statement),
                noted_statement(entry_of(old(self)@, statement_candidate(*statement)), from, *statement),
            ),
    {
        let (h, knows_extrinsic) = match statement {
            Statement::Candidate(h) => (*h, true),
            Statement::Valid(h) => (*h, true),
            Statement::Invalid(h) => (*h, false),
        };
        let ghost prev = *self;
        let at = match self.find(&h) {
            Some(i) => i,
            None => {
                let e = Self::empty_entry_for(&h);
                self.entries.push(e);
                self.entries.len() - 1
            },
        };
        self.entries[at].knows_block_data.push(from);
        if knows_extrinsic {
            self.entries[at].knows_extrinsic.push(from);
        }
        let ghost e = self.entries@[at as int];
        proof {
            assert(e@ == noted_statement(entry_of(prev@, h), from, *statement));
            if at < prev.entries@.len() {
                assert(self.entries@ =~= prev.entries@.update(at as int, e));
            } else {
                assert(self.entries@ =~= prev.entries@.push(e));
            }
            self.model = Ghost(prev.model@.insert(h, e@));
            self.lemma_stored(prev, at as int, e);
        }
    }

    /// Notes a candidate collated or seen locally, keeping any data that is
    /// already held.
    pub fn note_candidate(&mut self, hash: H256, block_data: Option<BlockData>, extrinsic: Option<Extrinsic>)
        requires
            old(self).wf(),
        ensures
            final(self).wf(),
            final(self)@ == old(self)@.insert(
                hash,
                noted_candidate(entry_of(old(self)@, hash), bytes_opt(block_data), bytes_opt(extrinsic)),
            ),
    {
        let ghost prev = *self;
        let at = match self.find(&hash) {
            Some(i) => i,
            None => {
                let e = Self::empty_entry_for(&hash);
                self.entries.push(e);
                self.entries.len() - 1
            },
        };
        if self.entries[at].block_data.is_none() {
            self.entries[at].block_data = block_data;
        }
        if self.entries[at].extrinsic.is_none() {
            self.entries[at].extrinsic = extrinsic;
        }
        let ghost e = self.entries@[at as int];
        proof {
            if at < prev.entries@.len() {
                assert(self.entries@ =~= prev.entries@.update(at as int, e));
            } else {
                assert(self.entries@ =~= prev.entries@.push(e));
            }
            self.model = Ghost(prev.model@.insert(hash, e@));
            self.lemma_stored(prev, at as int, e);
        }
    }

    /// The peers known to hold the extrinsic of a candidate (none for a
    /// candidate never mentioned).
    pub fn extrinsic_holders(&self, hash: &H256) -> (r: &[SessionKey])
        requires
            self.wf(),
        ensures
            r@ == entry_of(self@, *hash).1,
    {
        match self.find(hash) {
            Some(i) => self.entries[i].knows_extrinsic.as_slice(),
            None => &[],
        }
    }

    /// The locally held block data of a candidate, or else the peers known to
    /// hold it (none for a candidate never mentioned).
    pub fn with_block_data(&self, hash: &H256) -> (r: Result<&BlockData, &[SessionKey]>)
        requires
            self.wf(),
        ensures
            match r {
                Ok(d) => entry_of(self@, *hash).2 == Some(d@),
                Err(peers) => entry_of(self@, *hash).2.is_none() && peers@ == entry_of(self@, *hash).0,
            },
    {
        match self.find(hash) {
            Some(i) => {
                let e = &self.entries[i];
                match &e.block_data {
                    Some(d) => Ok(d),
                    None => Err(e.knows_block_data.as_slice()),
                }
            },
            None => Err(&[]),
        }
    }
}

} // verus!

verus! {

/// A proposal or a declaration of validity from `from` records it among the
/// holders of both the block data and the extrinsic of the candidate; a
/// declaration of invalidity records it among the holders of the block data
/// only. What is known of other candidates does not change.
pub proof fn lemma_statement_knowledge(k: Map<H256, EntryModel>, from: SessionKey, s: Statement)
    ensures
        ({
            let c = statement_candidate(s);
            let after = k.insert(c, noted_statement(entry_of(k, c), from, s));
            &&& entry_of(after, c).0 == entry_of(k, c).0.push(from)
            &&& entry_of(after, c).0.contains(from)
            &&& s is Invalid ==> entry_of(after, c).1 == entry_of(k, c).1
            &&& !(s is Invalid) ==> entry_of(after, c).1 == entry_of(k, c).1.push(from) && entry_of(
                after,
                c,
            ).1.contains(from)
            &&& forall|h: H256| h != c ==> entry_of(after, h) == entry_of(k, h)
        }),
{
    let c = statement_candidate(s);
    let after = k.insert(c, noted_statement(entry_of(k, c), from, s));
    assert(entry_of(after, c).0[entry_of(k, c).0.len() as int] == from);
    if !(s is Invalid) {
        assert(entry_of(after, c).1[entry_of(k, c).1.len() as int] == from);
    }
}

} // verus!
