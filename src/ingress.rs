use vstd::prelude::*;

use crate::primitives::{H256, Message, ParaId, bytes32_eq};

verus! {

/// A batch of messages for one parachain, as a sequence of byte strings.
pub open spec fn batch_view(b: Seq<Message>) -> Seq<Seq<u8>> {
    b.map_values(|m: Message| m@)
}

/// The expected roots given as pairs, a later pair for the same parachain
/// replacing an earlier one.
pub open spec fn roots_map(pairs: Seq<(ParaId, H256)>) -> Map<ParaId, H256>
    decreases pairs.len(),
{
    if pairs.len() == 0 {
        Map::empty()
    } else {
        roots_map(pairs.drop_last()).insert(pairs.last().0, pairs.last().1)
    }
}

/// The state of the computation: the roots still expected, and the batches
/// accepted so far.
pub type IngressModel = (Map<ParaId, H256>, Map<ParaId, Seq<Seq<u8>>>);

/// One batch offered with its commitment root: it is accepted exactly when
/// its parachain is still expected with that root; anything else is dropped.
pub open spec fn ingress_step(s: IngressModel, id: ParaId, batch: Seq<Seq<u8>>, root: H256) -> IngressModel {
    if s.0.contains_key(id) && s.0[id] == root {
        (s.0.remove(id), s.1.insert(id, batch))
    } else {
        s
    }
}

/// A stream item as the computation sees it: parachain, batch, batch root.
pub type IngressItem = (ParaId, Seq<Seq<u8>>, H256);

/// The accepted batches once no root is expected any more, or `None` when
/// the stream ends first.
pub open spec fn ingress_run(s: IngressModel, items: Seq<IngressItem>) -> Option<Map<ParaId, Seq<Seq<u8>>>>
    decreases items.len(),
{
    if s.0 =~= Map::empty() {
        Some(s.1)
    } else if items.len() == 0 {
        None
    } else {
        ingress_run(ingress_step(s, items[0].0, items[0].1, items[0].2), items.drop_first())
    }
}

/// `v` lists the batches of `m` in ascending order of parachain, each once.
pub open spec fn sorted_listing(v: Seq<(ParaId, Vec<Message>)>, m: Map<ParaId, Seq<Seq<u8>>>) -> bool {
    &&& forall|i: int, j: int| 0 <= i < j < v.len() ==> v[i].0 < v[j].0
    &&& forall|i: int| 0 <= i < v.len() ==> m.contains_key(v[i].0) && m[v[i].0] == batch_view(v[i].1@)
    &&& forall|id: ParaId| m.contains_key(id) ==> exists|i: int| 0 <= i < v.len() && v[i].0 == id
}

/// Verifies batches of incoming messages against their expected roots and
/// gathers the accepted ones in ascending order of parachain.
pub struct IngressComputer {
    roots: Vec<(ParaId, H256)>,
    incoming: Vec<(ParaId, Vec<Message>)>,
    model: Ghost<IngressModel>,
}

impl View for IngressComputer {
    type V = IngressModel;

    closed spec fn view(&self) -> IngressModel {
        self.model@
    }
}

impl IngressComputer {
    /// The roots are the model's, once each; the accumulator lists the
    /// accepted batches in order; no parachain is both expected and accepted.
    pub closed spec fn wf(&self) -> bool {
        &&& forall|i: int|
            0 <= i < self.roots@.len() ==> #[trigger] self.model@.0.contains_key(self.roots@[i].0)
                && self.model@.0[self.roots@[i].0] == self.roots@[i].1
        &&& forall|id: ParaId|
            #[trigger] self.model@.0.contains_key(id) ==> exists|i: int|
                0 <= i < self.roots@.len() && self.roots@[i].0 == id
        &&& forall|i: int, j: int|
            0 <= i < j < self.roots@.len() ==> self.roots@[i].0 != self.roots@[j].0
        &&& sorted_listing(self.incoming@, self.model@.1)
        &&& forall|id: ParaId| !(self.model@.0.contains_key(id) && self.model@.1.contains_key(id))
    }

    fn find_root(&self, id: ParaId) -> (r: Option<usize>)
        requires
            self.wf(),
        ensures
            match r {
                Some(i) => i < self.roots@.len() && self.roots@[i as int].0 == id,
                None => !self@.0.contains_key(id),
            },
    {
        let mut i: usize = 0;
        while i < self.roots.len()
            invariant
                self.wf(),
                i <= self.roots@.len(),
                forall|j: int| 0 <= j < i ==> self.roots@[j].0 != id,
            decreases self.roots@.len() - i,
        {
            if self.roots[i].0 == id {
                return Some(i);
            }
            i = i + 1;
        }
        None
    }

    /// Starts a computation expecting the given roots, with nothing accepted.
    pub fn new(roots: Vec<(ParaId, H256)>) -> (r: Self)
        ensures
            r.wf(),
            r@.0 == roots_map(roots@),
            r@.1 == Map::<ParaId, Seq<Seq<u8>>>::empty(),
    {
        let mut c = IngressComputer { roots: Vec::new(), incoming: Vec::new(), model: Ghost((Map::empty(), Map::empty())) };
        let mut k: usize = 0;
        assert(roots@.subrange(0, 0) =~= Seq::<(ParaId, H256)>::empty());
        while k < roots.len()
            invariant
                c.wf(),
                k <= roots@.len(),
                c@.0 == roots_map(roots@.subrange(0, k as int)),
                c@.1 == Map::<ParaId, Seq<Seq<u8>>>::empty(),
                c.incoming@.len() == 0,
            decreases roots@.len() - k,
        {
            let (id, root) = roots[k];
            let ghost prev = c;
            match c.find_root(id) {
                Some(i) => {
                    c.roots[i] = (id, root);
                    c.model = Ghost((prev.model@.0.insert(id, root), prev.model@.1));
                    proof {
                        assert forall|j: int, l: int| 0 <= j < l < c.roots@.len() implies c.roots@[j].0 != c.roots@[l].0 by {
                            assert(c.roots@[j].0 == prev.roots@[j].0);
                            assert(c.roots@[l].0 == prev.roots@[l].0);
                        }
                        assert forall|j: int| 0 <= j < c.roots@.len() implies #[trigger] c.model@.0.contains_key(c.roots@[j].0)
                            && c.model@.0[c.roots@[j].0] == c.roots@[j].1 by {
                            if j != i {
                                assert(c.roots@[j] == prev.roots@[j]);
                                assert(prev.model@.0.contains_key(prev.roots@[j].0));
                            }
                        }
                        assert forall|x: ParaId| #[trigger] c.model@.0.contains_key(x) implies exists|j: int|
                            0 <= j < c.roots@.len() && c.roots@[j].0 == x by {
                            if x != id {
                                assert(prev.model@.0.contains_key(x));
                                let j = choose|j: int| 0 <= j < prev.roots@.len() && prev.roots@[j].0 == x;
                                assert(c.roots@[j].0 == x);
                            } else {
                                assert(c.roots@[i as int].0 == x);
                            }
                        }
                    }
                },
                None => {
                    c.roots.push((id, root));
                    c.model = Ghost((prev.model@.0.insert(id, root), prev.model@.1));
                    proof {
                        assert forall|j: int| 0 <= j < c.roots@.len() implies #[trigger] c.model@.0.contains_key(c.roots@[j].0)
                            && c.model@.0[c.roots@[j].0] == c.roots@[j].1 by {
                            if j < prev.roots@.len() {
                                assert(c.roots@[j] == prev.roots@[j]);
                                assert(prev.model@.0.contains_key(prev.roots@[j].0));
                            }
                        }
                        assert forall|x: ParaId| #[trigger] c.model@.0.contains_key(x) implies exists|j: int|
                            0 <= j < c.roots@.len() && c.roots@[j].0 == x by {
                            if x != id {
                                assert(prev.model@.0.contains_key(x));
                                let j = choose|j: int| 0 <= j < prev.roots@.len() && prev.roots@[j].0 == x;
                                assert(c.roots@[j].0 == x);
                            } else {
                                assert(c.roots@[prev.roots@.len() as int].0 == x);
                            }
                        }
                        assert forall|j: int, l: int| 0 <= j < l < c.roots@.len() implies c.roots@[j].0 != c.roots@[l].0 by {
                            if l == prev.roots@.len() {
                                assert(prev.model@.0.contains_key(prev.roots@[j].0));
                            }
                        }
                    }
                },
            }
            k = k + 1;
            assert(roots@.subrange(0, k as int).drop_last() =~= roots@.subrange(0, k - 1));
        }
        assert(roots@.subrange(0, k as int) =~= roots@);
        c
    }

    /// Where a batch of parachain `id`, which is not accepted yet, goes in
    /// the accumulator: after every smaller parachain, before every larger.
    fn insertion_point(&self, id: ParaId) -> (r: usize)
        requires
            self.wf(),
            !self@.1.contains_key(id),
        ensures
            r <= self.incoming@.len(),
            forall|j: int| 0 <= j < r ==> self.incoming@[j].0 < id,
            forall|j: int| r <= j < self.incoming@.len() ==> self.incoming@[j].0 > id,
    {
        let mut lo: usize = 0;
        let mut hi: usize = self.incoming.len();
        while lo < hi
            invariant
                self.wf(),
                !self@.1.contains_key(id),
                lo <= hi <= self.incoming@.len(),
                forall|j: int| 0 <= j < lo ==> self.incoming@[j].0 < id,
                forall|j: int| hi <= j < self.incoming@.len() ==> self.incoming@[j].0 > id,
            decreases hi - lo,
        {
            let mid = lo + (hi - lo) / 2;
            let m = self.incoming[mid].0;
            assert(self@.1.contains_key(self.incoming@[mid as int].0));
            if m < id {
                lo = mid + 1;
            } else {
                hi = mid;
            }
        }
        lo
    }

    /// Offers a batch for parachain `id` whose commitment root is `root`.
    /// It is accepted, and `true` returned, exactly when `id` is still
    /// expected with that root; the parachain is then expected no more.
    pub fn offer(&mut self, id: ParaId, batch: Vec<Message>, root: &H256) -> (accepted: bool)
        requires
            old(self).wf(),
        ensures
            final(self).wf(),
            final(self)@ == ingress_step(old(self)@, id, batch_view(batch@), *root),
            accepted == (old(self)@.0.contains_key(id) && old(self)@.0[id] == *root),
    {
        let ghost prev = *self;
        let i = match self.find_root(id) {
            Some(i) => i,
            None => return false,
        };
        if !bytes32_eq(&self.roots[i].1, root) {
            return false;
        }
        assert(prev.model@.0.contains_key(id));
        let pos = self.insertion_point(id);
        self.roots.remove(i);
        self.incoming.insert(pos, (id, batch));
        self.model = Ghost((prev.model@.0.remove(id), prev.model@.1.insert(id, batch_view(batch@))));
        proof {
            let r0 = prev.roots@;
            let r1 = self.roots@;
            assert(r1 =~= r0.remove(i as int));
            assert forall|j: int| 0 <= j < r1.len() implies #[trigger] self.model@.0.contains_key(r1[j].0)
                && self.model@.0[r1[j].0] == r1[j].1 by {
                let k = if j < i { j } else { j + 1 };
                assert(r1[j] == r0[k]);
                assert(prev.model@.0.contains_key(r0[k].0));
            }
            assert forall|x: ParaId| #[trigger] self.model@.0.contains_key(x) implies exists|j: int|
                0 <= j < r1.len() && r1[j].0 == x by {
                assert(prev.model@.0.contains_key(x));
                let k = choose|k: int| 0 <= k < r0.len() && r0[k].0 == x;
                if k < i {
                    assert(r1[k].0 == x);
                } else {
                    assert(r1[k - 1].0 == x);
                }
            }
            assert forall|j: int, l: int| 0 <= j < l < r1.len() implies r1[j].0 != r1[l].0 by {
                let kj = if j < i { j } else { j + 1 };
                let kl = if l < i { l } else { l + 1 };
                assert(r1[j] == r0[kj]);
                assert(r1[l] == r0[kl]);
            }
            let v0 = prev.incoming@;
            let v1 = self.incoming@;
            assert(v1 =~= v0.insert(pos as int, (id, batch)));
            let m1 = self.model@.1;
            assert forall|j: int, l: int| 0 <= j < l < v1.len() implies v1[j].0 < v1[l].0 by {
                if l < pos {
                } else if j > pos {
                    assert(v1[j] == v0[j - 1]);
                    assert(v1[l] == v0[l - 1]);
                } else if j == pos {
                    assert(v1[l] == v0[l - 1]);
                } else if l == pos {
                } else {
                    assert(v1[l] == v0[l - 1]);
                }
            }
            assert forall|j: int| 0 <= j < v1.len() implies m1.contains_key(v1[j].0) && m1[v1[j].0]
                == batch_view(v1[j].1@) by {
                if j < pos {
                    assert(prev.model@.1.contains_key(v0[j].0));
                } else if j > pos {
                    assert(v1[j] == v0[j - 1]);
                    assert(prev.model@.1.contains_key(v0[j - 1].0));
                }
            }
            assert forall|x: ParaId| m1.contains_key(x) implies exists|j: int| 0 <= j < v1.len() && v1[j].0 == x by {
                if x == id {
                    assert(v1[pos as int].0 == x);
                } else {
                    assert(prev.model@.1.contains_key(x));
                    let k = choose|k: int| 0 <= k < v0.len() && v0[k].0 == x;
                    if k < pos {
                        assert(v1[k].0 == x);
                    } else {
                        assert(v1[k + 1].0 == x);
                    }
                }
            }
            assert forall|x: ParaId| !(self.model@.0.contains_key(x) && m1.contains_key(x)) by {
                if x != id {
                    assert(!(prev.model@.0.contains_key(x) && prev.model@.1.contains_key(x)));
                }
            }
        }
        true
    }

    /// Whether no root is expected any more.
    pub fn is_complete(&self) -> (r: bool)
        requires
            self.wf(),
        ensures
            r == (self@.0 =~= Map::<ParaId, H256>::empty()),
    {
        if self.roots.len() == 0 {
            assert forall|x: ParaId| !self@.0.contains_key(x) by {
                if self@.0.contains_key(x) {
                    let j = choose|j: int| 0 <= j < self.roots@.len() && self.roots@[j].0 == x;
                }
            }
            assert(self@.0 =~= Map::<ParaId, H256>::empty());
            true
        } else {
            assert(self@.0.contains_key(self.roots@[0].0));
            false
        }
    }

    /// The accepted batches in ascending order of parachain.
    pub fn finish(self) -> (r: Vec<(ParaId, Vec<Message>)>)
        requires
            self.wf(),
        ensures
            sorted_listing(r@, self@.1),
    {
        self.incoming
    }
}

} // verus!

verus! {

/// The state before any batch is offered.
pub open spec fn ingress_start(roots: Seq<(ParaId, H256)>) -> IngressModel {
    (roots_map(roots), Map::empty())
}

/// The stream as the computation sees it.
pub open spec fn stream_view(s: Seq<(ParaId, Vec<Message>, H256)>) -> Seq<IngressItem> {
    s.map_values(|t: (ParaId, Vec<Message>, H256)| (t.0, batch_view(t.1@), t.2))
}

/// Verifies the stream of batches, each given with its commitment root,
/// against the expected roots. Returns the accepted batches in ascending order
/// of parachain once every expected root is met, or `None` when the stream
/// ends first.
pub fn compute_ingress(roots: Vec<(ParaId, H256)>, stream: Vec<(ParaId, Vec<Message>, H256)>) -> (r:
    Option<Vec<(ParaId, Vec<Message>)>>)
    ensures
        match ingress_run(ingress_start(roots@), stream_view(stream@)) {
            Some(m) => r.is_some() && sorted_listing(r.unwrap()@, m),
            None => r.is_none(),
        },
{
    let ghost start = ingress_start(roots@);
    let ghost items = stream_view(stream@);
    let mut c = IngressComputer::new(roots);
    assert(c@ == start);
    let mut rest = stream;
    loop
        invariant
            c.wf(),
            ingress_run(c@, stream_view(rest@)) == ingress_run(start, items),
            start == ingress_start(roots@),
            items == stream_view(stream@),
        decreases rest@.len(),
    {
        if c.is_complete() {
            assert(ingress_run(c@, stream_view(rest@)) == Some(c@.1));
            let ghost m = c@.1;
            let v = c.finish();
            assert(sorted_listing(v@, m));
            return Some(v);
        }
        if rest.len() == 0 {
            assert(stream_view(rest@).len() == 0);
            assert(ingress_run(start, items) is None);
            return None;
        }
        let ghost before = rest@;
        let (id, batch, root) = rest.remove(0);
        assert(stream_view(rest@) =~= stream_view(before).drop_first());
        c.offer(id, batch, &root);
    }
}

/// Disjoint expected and accepted parachains stay disjoint, and together the
/// same, whatever is offered.
pub proof fn lemma_step_keeps_coverage(s: IngressModel, id: ParaId, batch: Seq<Seq<u8>>, root: H256)
    requires
        forall|x: ParaId| !(s.0.contains_key(x) && s.1.contains_key(x)),
    ensures
        forall|x: ParaId|
            !(ingress_step(s, id, batch, root).0.contains_key(x) && ingress_step(s, id, batch, root).1.contains_key(x)),
        forall|x: ParaId|
            (#[trigger] ingress_step(s, id, batch, root).0.contains_key(x) || ingress_step(s, id, batch, root).1.contains_key(x))
                == (s.0.contains_key(x) || s.1.contains_key(x)),
{
}

/// A batch offered again after its parachain was accepted changes nothing and
/// is no error: neither the roots still expected nor the accepted batches.
pub proof fn lemma_redelivery_ignored(s: IngressModel, id: ParaId, batch: Seq<Seq<u8>>, root: H256)
    requires
        forall|x: ParaId| !(s.0.contains_key(x) && s.1.contains_key(x)),
        s.1.contains_key(id),
    ensures
        ingress_step(s, id, batch, root) == s,
{
}

/// The computation never resolves with a partial result: when it resolves,
/// every parachain that was expected has its batch, and none else is added;
/// and it resolves with `None` exactly when, after the whole stream, some
/// root is still unmet.
pub proof fn lemma_no_partial_result(s: IngressModel, items: Seq<IngressItem>)
    requires
        forall|x: ParaId| !(s.0.contains_key(x) && s.1.contains_key(x)),
    ensures
        match ingress_run(s, items) {
            Some(m) => forall|x: ParaId| #[trigger] m.contains_key(x) == (s.0.contains_key(x) || s.1.contains_key(x)),
            None => !(ingress_fold(s, items).0 =~= Map::empty()),
        },
        ingress_run(s, items).is_some() == (ingress_fold(s, items).0 =~= Map::empty()),
    decreases items.len(),
{
    if s.0 =~= Map::empty() {
        lemma_fold_complete(s, items);
    } else if items.len() > 0 {
        let t = ingress_step(s, items[0].0, items[0].1, items[0].2);
        lemma_step_keeps_coverage(s, items[0].0, items[0].1, items[0].2);
        lemma_no_partial_result(t, items.drop_first());
    }
}

/// The state after every item of the stream has been offered.
pub open spec fn ingress_fold(s: IngressModel, items: Seq<IngressItem>) -> IngressModel
    decreases items.len(),
{
    if items.len() == 0 {
        s
    } else {
        ingress_fold(ingress_step(s, items[0].0, items[0].1, items[0].2), items.drop_first())
    }
}

/// Once nothing is expected, further items change nothing.
proof fn lemma_fold_complete(s: IngressModel, items: Seq<IngressItem>)
    requires
        s.0 =~= Map::empty(),
    ensures
        ingress_fold(s, items) == s,
    decreases items.len(),
{
    if items.len() > 0 {
        lemma_fold_complete(s, items.drop_first());
    }
}

} // verus!
