use vstd::prelude::*;

use crate::primitives::{SessionKey, bytes32_eq};

verus! {

/// How many recent local session keys are kept: the current session, the
/// previous one, and one more as a margin.
pub const RECENT_SESSIONS: usize = 3;

#[verifier::external_type_specification]
#[verifier::external_body]
#[verifier::reject_recursive_types(T)]
pub struct ExArrayVec<T, const CAP: usize>(arrayvec::ArrayVec<T, CAP>);

/// The keys held by a bounded key vector, in order.
pub uninterp spec fn array_keys(v: arrayvec::ArrayVec<SessionKey, RECENT_SESSIONS>) -> Seq<SessionKey>;

/// Relies on arrayvec::ArrayVec::new: the vector starts empty.
#[verifier::external_body]
fn keys_new() -> (r: arrayvec::ArrayVec<SessionKey, RECENT_SESSIONS>)
    ensures
        array_keys(r) == Seq::<SessionKey>::empty(),
{
    arrayvec::ArrayVec::new()
}

/// Relies on arrayvec::ArrayVec::as_slice: the slice holds the elements in order.
#[verifier::external_body]
fn keys_slice(v: &arrayvec::ArrayVec<SessionKey, RECENT_SESSIONS>) -> (r: &[SessionKey])
    ensures
        r@ == array_keys(*v),
{
    v.as_slice()
}

/// Relies on arrayvec::ArrayVec::push: appends the element; it panics only
/// when the vector is full, which `requires` leaves out.
#[verifier::external_body]
fn keys_push(v: &mut arrayvec::ArrayVec<SessionKey, RECENT_SESSIONS>, key: SessionKey)
    requires
        array_keys(*old(v)).len() < RECENT_SESSIONS,
    ensures
        array_keys(*final(v)) == array_keys(*old(v)).push(key),
{
    v.push(key)
}

/// Relies on arrayvec::ArrayVec::remove: takes out the element at `index`
/// and shifts down those after it; it panics only out of bounds.
#[verifier::external_body]
fn keys_remove(v: &mut arrayvec::ArrayVec<SessionKey, RECENT_SESSIONS>, index: usize) -> (r: SessionKey)
    requires
        index < array_keys(*old(v)).len(),
    ensures
        r == array_keys(*old(v))[index as int],
        array_keys(*final(v)) == array_keys(*old(v)).remove(index as int),
{
    v.remove(index)
}

/// Result when inserting a recent session key.
pub enum InsertedRecentKey {
    /// Key was already known.
    AlreadyKnown,
    /// Key was new and pushed out the optional oldest key.
    New(Option<SessionKey>),
}

/// Bounded, duplicate-free history of local session keys, oldest first.
pub struct RecentSessionKeys {
    inner: arrayvec::ArrayVec<SessionKey, RECENT_SESSIONS>,
}

/// What inserting `key` into the history `s` leaves behind.
pub open spec fn insert_keys(s: Seq<SessionKey>, key: SessionKey) -> Seq<SessionKey> {
    if s.contains(key) {
        s
    } else if s.len() >= RECENT_SESSIONS {
        s.drop_first().push(key)
    } else {
        s.push(key)
    }
}

/// What inserting `key` into the history `s` reports.
pub open spec fn insert_report(s: Seq<SessionKey>, key: SessionKey) -> InsertedRecentKey {
    if s.contains(key) {
        InsertedRecentKey::AlreadyKnown
    } else if s.len() >= RECENT_SESSIONS {
        InsertedRecentKey::New(Some(s[0]))
    } else {
        InsertedRecentKey::New(None)
    }
}

/// The history `s` without `key`, which occurs in it at most once.
pub open spec fn remove_key(s: Seq<SessionKey>, key: SessionKey) -> Seq<SessionKey> {
    if s.contains(key) {
        s.remove(s.index_of(key))
    } else {
        s
    }
}

/// A sequence of keys in which no key occurs twice.
pub open spec fn distinct_keys(s: Seq<SessionKey>) -> bool {
    forall|i: int, j: int| 0 <= i < j < s.len() ==> s[i] != s[j]
}

impl View for RecentSessionKeys {
    type V = Seq<SessionKey>;

    closed spec fn view(&self) -> Seq<SessionKey> {
        array_keys(self.inner)
    }
}

impl Default for RecentSessionKeys {
    /// An empty history.
    fn default() -> (r: Self)
        ensures
            r.wf(),
            r@ == Seq::<SessionKey>::empty(),
    {
        RecentSessionKeys::new()
    }
}

impl RecentSessionKeys {
    /// At most `RECENT_SESSIONS` keys, none twice.
    pub open spec fn wf(&self) -> bool {
        &&& self@.len() <= RECENT_SESSIONS
        &&& distinct_keys(self@)
    }

    /// An empty history.
    pub fn new() -> (r: Self)
        ensures
            r.wf(),
            r@ == Seq::<SessionKey>::empty(),
    {
        RecentSessionKeys { inner: keys_new() }
    }

    /// Position of `key` in the history, if it is there.
    fn position(&self, key: &SessionKey) -> (r: Option<usize>)
        ensures
            match r {
                Some(i) => i < self@.len() && self@[i as int] == *key,
                None => !self@.contains(*key),
            },
    {
        let keys = keys_slice(&self.inner);
        let mut i: usize = 0;
        while i < keys.len()
            invariant
                keys@ == self@,
                i <= keys@.len(),
                forall|j: int| 0 <= j < i ==> keys@[j] != *key,
            decreases keys@.len() - i,
        {
            if bytes32_eq(&keys[i], key) {
                return Some(i);
            }
            i = i + 1;
        }
        None
    }

    /// Whether `key` is in the history.
    pub fn contains(&self, key: &SessionKey) -> (r: bool)
        ensures
            r == self@.contains(*key),
    {
        self.position(key).is_some()
    }

    /// Inserts a key. A known key changes nothing; a new one is appended, and
    /// when the history is full the oldest key is pushed out and returned.
    pub fn insert(&mut self, key: SessionKey) -> (r: InsertedRecentKey)
        requires
            old(self).wf(),
        ensures
            final(self).wf(),
            final(self)@ == insert_keys(old(self)@, key),
            r == insert_report(old(self)@, key),
    {
        if self.contains(&key) {
            return InsertedRecentKey::AlreadyKnown;
        }
        let keys = keys_slice(&self.inner);
        let old_key = if keys.len() == RECENT_SESSIONS {
            Some(keys_remove(&mut self.inner, 0))
        } else {
            None
        };
        keys_push(&mut self.inner, key);
        assert(distinct_keys(self@));
        InsertedRecentKey::New(old_key)
    }

    /// The keys, oldest first.
    pub fn as_slice(&self) -> (r: &[SessionKey])
        ensures
            r@ == self@,
    {
        keys_slice(&self.inner)
    }

    /// Removes every occurrence of `key`; an absent key is a no-op.
    pub fn remove(&mut self, key: &SessionKey)
        requires
            old(self).wf(),
        ensures
            final(self).wf(),
            final(self)@ == remove_key(old(self)@, *key),
            !final(self)@.contains(*key),
    {
        match self.position(key) {
            Some(i) => {
                keys_remove(&mut self.inner, i);
                assert(old(self)@.index_of(*key) == i as int);
            },
            None => {},
        }
    }
}

/// The history left by inserting `keys` one after another into an empty one.
pub open spec fn insert_all(keys: Seq<SessionKey>) -> Seq<SessionKey>
    decreases keys.len(),
{
    if keys.len() == 0 {
        Seq::empty()
    } else {
        insert_keys(insert_all(keys.drop_last()), keys.last())
    }
}

/// One insertion into a history of at most `RECENT_SESSIONS` distinct keys
/// keeps it so. A known key changes nothing and evicts nothing; a new key
/// into a full history evicts exactly the oldest key, which is reported.
pub proof fn lemma_insert_bounded(s: Seq<SessionKey>, key: SessionKey)
    requires
        s.len() <= RECENT_SESSIONS,
        distinct_keys(s),
    ensures
        insert_keys(s, key).len() <= RECENT_SESSIONS,
        distinct_keys(insert_keys(s, key)),
        insert_keys(s, key).contains(key),
        s.contains(key) ==> insert_keys(s, key) == s && insert_report(s, key)
            == InsertedRecentKey::AlreadyKnown,
        !s.contains(key) && s.len() == RECENT_SESSIONS ==> insert_report(s, key)
            == InsertedRecentKey::New(Some(s[0])) && !insert_keys(s, key).contains(s[0])
            && insert_keys(s, key) == s.drop_first().push(key),
        !s.contains(key) && s.len() < RECENT_SESSIONS ==> insert_report(s, key)
            == InsertedRecentKey::New(None) && insert_keys(s, key) == s.push(key),
{
    let t = insert_keys(s, key);
    if !s.contains(key) {
        assert(t[t.len() - 1] == key);
        if s.len() == RECENT_SESSIONS {
            assert forall|i: int| 0 <= i < t.len() implies t[i] != s[0] by {
                if i < t.len() - 1 {
                    assert(t[i] == s[i + 1]);
                }
            }
        }
    } else {
        let i = choose|i: int| 0 <= i < s.len() && s[i] == key;
        assert(t[i] == key);
    }
}

/// However many keys are inserted, the history never holds more than
/// `RECENT_SESSIONS` keys, and never one twice.
pub proof fn lemma_bounded_recency(keys: Seq<SessionKey>)
    ensures
        insert_all(keys).len() <= RECENT_SESSIONS,
        distinct_keys(insert_all(keys)),
    decreases keys.len(),
{
    if keys.len() > 0 {
        lemma_bounded_recency(keys.drop_last());
        lemma_insert_bounded(insert_all(keys.drop_last()), keys.last());
    }
}

} // verus!
