//! Per-entity GPU resources that are created at most once.
//!
//! Several threads may ask for the resources of the same entity at the same
//! time. The first one to ask claims the entry (it becomes `Pending`) and
//! builds the resources; the others wait until the entry is `Ready`. A claim
//! whose build failed is released again, so that a later request can retry.
use vstd::prelude::*;

verus! {

/// State of the resources of one entity.
pub enum ResourceState<R> {
    /// A thread has claimed the entry and is building the resources.
    Pending,
    /// The resources are built.
    Ready(R),
}

/// What a caller asking for an entity's resources does next.
#[derive(Clone, Copy, Debug, PartialEq, Eq, Structural)]
pub enum ClaimAction {
    /// The resources exist already.
    Ready,
    /// Another caller is building them: wait and ask again.
    Yield,
    /// The entry was vacant and is now claimed by this caller, who builds
    /// the resources.
    Winner,
}

/// Resource states by entity id.
pub struct ResourceTable<R> {
    keys: Vec<u64>,
    states: Vec<ResourceState<R>>,
}

/// The table as a map, given its keys and states in storage order.
pub open spec fn table_view<V>(keys: Seq<u64>, states: Seq<V>) -> Map<u64, V> {
    Map::new(|k: u64| keys.contains(k), |k: u64| states[keys.index_of(k)])
}

/// What a claim of `key` answers on a table whose view is `m`.
pub open spec fn claim_action<R>(m: Map<u64, ResourceState<R>>, key: u64) -> ClaimAction {
    if !m.contains_key(key) {
        ClaimAction::Winner
    } else if m[key] is Pending {
        ClaimAction::Yield
    } else {
        ClaimAction::Ready
    }
}

/// The table after a claim of `key`: a vacant entry becomes `Pending`.
pub open spec fn after_claim<R>(m: Map<u64, ResourceState<R>>, key: u64) -> Map<u64, ResourceState<R>> {
    if m.contains_key(key) {
        m
    } else {
        m.insert(key, ResourceState::Pending)
    }
}

/// The table after releasing a failed claim of `key`.
pub open spec fn after_release<R>(m: Map<u64, ResourceState<R>>, key: u64) -> Map<u64, ResourceState<R>> {
    if m.contains_key(key) && m[key] is Pending {
        m.remove(key)
    } else {
        m
    }
}

/// The built resources among `s`, in order.
pub open spec fn ready_values<R>(s: Seq<ResourceState<R>>) -> Seq<R>
    decreases s.len(),
{
    if s.len() == 0 {
        Seq::empty()
    } else {
        let head = match s[0] {
            ResourceState::Ready(r) => seq![r],
            ResourceState::Pending => Seq::empty(),
        };
        head + ready_values(s.drop_first())
    }
}

pub(crate) proof fn lemma_index_of(keys: Seq<u64>, i: int)
    requires
        keys.no_duplicates(),
        0 <= i < keys.len(),
    ensures
        keys.contains(keys[i]),
        keys.index_of(keys[i]) == i,
{
    assert(keys[i] == keys[i]);
    let j = keys.index_of(keys[i]);
    assert(0 <= j < keys.len() && keys[j] == keys[i]);
}

pub(crate) proof fn lemma_view_push<V>(keys: Seq<u64>, states: Seq<V>, k: u64, s: V)
    requires
        keys.no_duplicates(),
        keys.len() == states.len(),
        !keys.contains(k),
    ensures
        keys.push(k).no_duplicates(),
        table_view(keys.push(k), states.push(s)) == table_view(keys, states).insert(k, s),
{
    let nk = keys.push(k);
    let ns = states.push(s);
    assert forall|a: int, b: int| 0 <= a < nk.len() && 0 <= b < nk.len() && a != b implies nk[a]
        != nk[b] by {
        if a < keys.len() && b < keys.len() {
        } else if a < keys.len() {
            assert(keys[a] != k);
        } else if b < keys.len() {
            assert(keys[b] != k);
        }
    }
    assert forall|x: u64| #[trigger] nk.contains(x) == (keys.contains(x) || x == k) by {
        if nk.contains(x) {
            let j = choose|j: int| 0 <= j < nk.len() && nk[j] == x;
            if j < keys.len() {
                assert(keys[j] == x);
            }
        }
        if keys.contains(x) {
            let j = choose|j: int| 0 <= j < keys.len() && keys[j] == x;
            assert(nk[j] == x);
        }
        if x == k {
            assert(nk[keys.len() as int] == x);
        }
    }
    assert forall|x: u64| nk.contains(x) implies #[trigger] table_view(nk, ns)[x] == table_view(
        keys,
        states,
    ).insert(k, s)[x] by {
        if x == k {
            lemma_index_of(nk, keys.len() as int);
        } else {
            let j = keys.index_of(x);
            lemma_index_of(keys, j);
            assert(nk[j] == keys[j]);
            lemma_index_of(nk, j);
        }
    }
    assert(table_view(nk, ns) =~= table_view(keys, states).insert(k, s));
}

pub(crate) proof fn lemma_view_update<V>(keys: Seq<u64>, states: Seq<V>, i: int, s: V)
    requires
        keys.no_duplicates(),
        keys.len() == states.len(),
        0 <= i < keys.len(),
    ensures
        table_view(keys, states.update(i, s)) == table_view(keys, states).insert(keys[i], s),
{
    let ns = states.update(i, s);
    assert forall|x: u64| keys.contains(x) implies #[trigger] table_view(keys, ns)[x] == table_view(
        keys,
        states,
    ).insert(keys[i], s)[x] by {
        let j = keys.index_of(x);
        lemma_index_of(keys, j);
        lemma_index_of(keys, i);
    }
    lemma_index_of(keys, i);
    assert(table_view(keys, ns) =~= table_view(keys, states).insert(keys[i], s));
}

pub(crate) proof fn lemma_view_remove<V>(keys: Seq<u64>, states: Seq<V>, i: int)
    requires
        keys.no_duplicates(),
        keys.len() == states.len(),
        0 <= i < keys.len(),
    ensures
        keys.remove(i).no_duplicates(),
        table_view(keys.remove(i), states.remove(i)) == table_view(keys, states).remove(keys[i]),
{
    let nk = keys.remove(i);
    let ns = states.remove(i);
    assert forall|a: int, b: int| 0 <= a < nk.len() && 0 <= b < nk.len() && a != b implies nk[a]
        != nk[b] by {
        let a2 = if a < i { a } else { a + 1 };
        let b2 = if b < i { b } else { b + 1 };
        assert(nk[a] == keys[a2]);
        assert(nk[b] == keys[b2]);
    }
    assert forall|x: u64| #[trigger] nk.contains(x) == (keys.contains(x) && x != keys[i]) by {
        if nk.contains(x) {
            let j = choose|j: int| 0 <= j < nk.len() && nk[j] == x;
            let j2 = if j < i { j } else { j + 1 };
            assert(keys[j2] == x);
            assert(j2 != i);
        }
        if keys.contains(x) && x != keys[i] {
            let j = choose|j: int| 0 <= j < keys.len() && keys[j] == x;
            if j < i {
                assert(nk[j] == x);
            } else {
                assert(j != i);
                assert(nk[j - 1] == x);
            }
        }
    }
    assert forall|x: u64| nk.contains(x) implies #[trigger] table_view(nk, ns)[x] == table_view(
        keys,
        states,
    ).remove(keys[i])[x] by {
        let j = nk.index_of(x);
        lemma_index_of(nk, j);
        let j2 = if j < i { j } else { j + 1 };
        assert(keys[j2] == x);
        lemma_index_of(keys, j2);
        assert(ns[j] == states[j2]);
    }
    assert(table_view(nk, ns) =~= table_view(keys, states).remove(keys[i]));
}

impl<R> View for ResourceTable<R> {
    type V = Map<u64, ResourceState<R>>;

    closed spec fn view(&self) -> Map<u64, ResourceState<R>> {
        table_view(self.keys@, self.states@)
    }
}

impl<R> ResourceTable<R> {
    /// Keys and states line up and no key occurs twice.
    pub closed spec fn wf(&self) -> bool {
        &&& self.keys@.len() == self.states@.len()
        &&& self.keys@.no_duplicates()
    }

    /// The states in storage order (the order in which entries were first
    /// claimed or committed).
    pub closed spec fn stored(&self) -> Seq<ResourceState<R>> {
        self.states@
    }

    /// An empty table.
    pub fn new() -> (r: Self)
        ensures
            r.wf(),
            r@ == Map::<u64, ResourceState<R>>::empty(),
    {
        let r = ResourceTable { keys: Vec::new(), states: Vec::new() };
        assert(r@ =~= Map::<u64, ResourceState<R>>::empty());
        r
    }

    /// Position of `key` in storage, if present.
    fn find(&self, key: u64) -> (r: Option<usize>)
        requires
            self.wf(),
        ensures
            r is None ==> !self@.contains_key(key),
            r matches Some(i) ==> i < self.keys@.len() && self.keys@[i as int] == key
                && self.keys@.index_of(key) == i,
    {
        let mut i: usize = 0;
        while i < self.keys.len()
            invariant
                self.wf(),
                0 <= i <= self.keys@.len(),
                forall|j: int| 0 <= j < i ==> self.keys@[j] != key,
            decreases self.keys@.len() - i,
        {
            if self.keys[i] == key {
                proof {
                    lemma_index_of(self.keys@, i as int);
                }
                return Some(i);
            }
            i = i + 1;
        }
        None
    }

    /// Whether any entry is present.
    pub fn is_empty(&self) -> (r: bool)
        requires
            self.wf(),
        ensures
            r == (self@.dom() == Set::<u64>::empty()),
    {
        if self.keys.len() == 0 {
            assert(self@.dom() =~= Set::<u64>::empty());
            true
        } else {
            assert(self@.dom().contains(self.keys@[0]));
            false
        }
    }

    /// The state of `key`'s resources, if any.
    pub fn state_of(&self, key: u64) -> (r: Option<&ResourceState<R>>)
        requires
            self.wf(),
        ensures
            r == (if self@.contains_key(key) {
                Some(&self@[key])
            } else {
                None
            }),
    {
        match self.find(key) {
            Some(i) => Some(&self.states[i]),
            None => None,
        }
    }

    /// Asks for `key`'s resources: a vacant entry is claimed (it becomes
    /// `Pending`) and the caller is the winner; a pending entry makes the
    /// caller wait; a ready one is used as it is.
    pub fn claim(&mut self, key: u64) -> (r: ClaimAction)
        requires
            old(self).wf(),
        ensures
            final(self).wf(),
            r == claim_action(old(self)@, key),
            final(self)@ == after_claim(old(self)@, key),
    {
        match self.find(key) {
            Some(i) => match &self.states[i] {
                ResourceState::Pending => ClaimAction::Yield,
                ResourceState::Ready(_) => ClaimAction::Ready,
            },
            None => {
                proof {
                    lemma_view_push(self.keys@, self.states@, key, ResourceState::<R>::Pending);
                }
                self.keys.push(key);
                self.states.push(ResourceState::Pending);
                ClaimAction::Winner
            },
        }
    }

    /// Gives up a claim whose build failed: a `Pending` entry for `key` is
    /// removed (true); a ready or absent one is left alone (false).
    pub fn release_claim(&mut self, key: u64) -> (r: bool)
        requires
            old(self).wf(),
        ensures
            final(self).wf(),
            r == (old(self)@.contains_key(key) && old(self)@[key] is Pending),
            final(self)@ == after_release(old(self)@, key),
    {
        match self.find(key) {
            Some(i) => {
                let pending = match &self.states[i] {
                    ResourceState::Pending => true,
                    ResourceState::Ready(_) => false,
                };
                if pending {
                    proof {
                        lemma_view_remove(self.keys@, self.states@, i as int);
                    }
                    self.keys.remove(i);
                    self.states.remove(i);
                }
                pending
            },
            None => false,
        }
    }

    /// Stores the built resources of `key`; returns the resources it
    /// replaces, if the entry was ready already.
    pub fn commit_ready(&mut self, key: u64, resources: R) -> (r: Option<R>)
        requires
            old(self).wf(),
        ensures
            final(self).wf(),
            final(self)@ == old(self)@.insert(key, ResourceState::Ready(resources)),
            r == (if old(self)@.contains_key(key) && old(self)@[key] is Ready {
                Some(old(self)@[key]->Ready_0)
            } else {
                None
            }),
    {
        match self.find(key) {
            Some(i) => {
                proof {
                    lemma_view_update(
                        self.keys@,
                        self.states@,
                        i as int,
                        ResourceState::Ready(resources),
                    );
                }
                let old_state = self.states.remove(i);
                self.states.insert(i, ResourceState::Ready(resources));
                proof {
                    assert(self.states@ =~= old(self).states@.update(
                        i as int,
                        ResourceState::Ready(resources),
                    ));
                }
                match old_state {
                    ResourceState::Ready(prev) => Some(prev),
                    ResourceState::Pending => None,
                }
            },
            None => {
                proof {
                    lemma_view_push(self.keys@, self.states@, key, ResourceState::Ready(resources));
                }
                self.keys.push(key);
                self.states.push(ResourceState::Ready(resources));
                None
            },
        }
    }

    /// Ends a winning claim with the outcome of building the resources:
    /// on success they are kept as ready; on failure the claim is released,
    /// so that no pending entry is left and the next caller builds them.
    pub fn finish_build<E>(&mut self, key: u64, built: Result<R, E>) -> (r: Result<(), E>)
        requires
            old(self).wf(),
        ensures
            final(self).wf(),
            match built {
                Ok(resources) => r is Ok && final(self)@ == old(self)@.insert(key, ResourceState::Ready(resources)),
                Err(e) => r == Err::<(), E>(e) && final(self)@ == after_release(old(self)@, key),
            },
    {
        match built {
            Ok(resources) => {
                let _ = self.commit_ready(key, resources);
                Ok(())
            },
            Err(e) => {
                let _ = self.release_claim(key);
                Err(e)
            },
        }
    }

    /// Replaces the ready resources of `key` by what `update` makes of them
    /// (true); a pending or absent entry is left alone (false).
    pub fn update_ready<F: FnOnce(R) -> R>(&mut self, key: u64, update: F) -> (r: bool)
        requires
            old(self).wf(),
            forall|x: R| call_requires(update, (x,)),
        ensures
            final(self).wf(),
            r == (old(self)@.contains_key(key) && old(self)@[key] is Ready),
            !r ==> final(self)@ == old(self)@,
            r ==> exists|n: R|
                call_ensures(update, (old(self)@[key]->Ready_0,), n) && final(self)@ == old(
                    self,
                )@.insert(key, ResourceState::Ready(n)),
    {
        match self.find(key) {
            Some(i) => {
                let is_ready = match &self.states[i] {
                    ResourceState::Pending => false,
                    ResourceState::Ready(_) => true,
                };
                if !is_ready {
                    return false;
                }
                let old_state = self.states.remove(i);
                match old_state {
                    ResourceState::Ready(v) => {
                        let n = update(v);
                        proof {
                            lemma_view_update(
                                old(self).keys@,
                                old(self).states@,
                                i as int,
                                ResourceState::Ready(n),
                            );
                        }
                        self.states.insert(i, ResourceState::Ready(n));
                        proof {
                            assert(self.states@ =~= old(self).states@.update(
                                i as int,
                                ResourceState::Ready(n),
                            ));
                        }
                        true
                    },
                    ResourceState::Pending => {
                        self.states.insert(i, ResourceState::Pending);
                        assert(self.states@ =~= old(self).states@);
                        false
                    },
                }
            },
            None => false,
        }
    }

    /// Empties the table and returns the built resources it held, in
    /// storage order, for the caller to discard; pending claims are dropped.
    pub fn drain_ready(&mut self) -> (r: Vec<R>)
        requires
            old(self).wf(),
        ensures
            final(self).wf(),
            final(self)@ == Map::<u64, ResourceState<R>>::empty(),
            r@ == ready_values(old(self).stored()),
            forall|x: R| #[trigger] r@.contains(x) ==> exists|k: u64|
                old(self)@.contains_key(k) && old(self)@[k] == ResourceState::Ready(x),
    {
        let ghost orig = self.states@;
        let ghost orig_keys = self.keys@;
        let mut out: Vec<R> = Vec::new();
        while self.states.len() > 0
            invariant
                out@ + ready_values(self.states@) == ready_values(orig),
                self.states@.len() <= orig.len(),
                self.states@ == orig.subrange(orig.len() - self.states@.len(), orig.len() as int),
            decreases self.states@.len(),
        {
            let ghost cur = self.states@;
            let s = self.states.remove(0);
            proof {
                assert(self.states@ =~= cur.drop_first());
                assert(self.states@ =~= orig.subrange(
                    orig.len() - self.states@.len(),
                    orig.len() as int,
                ));
            }
            match s {
                ResourceState::Ready(v) => {
                    proof {
                        assert(out@.push(v) + ready_values(self.states@) =~= out@ + ready_values(cur));
                    }
                    out.push(v);
                },
                ResourceState::Pending => {
                    proof {
                        assert(ready_values(cur) =~= ready_values(self.states@));
                    }
                },
            }
        }
        assert(out@ =~= ready_values(orig));
        self.keys.clear();
        proof {
            assert(table_view(self.keys@, self.states@) =~= Map::<u64, ResourceState<R>>::empty());
            assert forall|x: R| #[trigger] out@.contains(x) implies exists|k: u64|
                old(self)@.contains_key(k) && old(self)@[k] == ResourceState::Ready(x) by {
                lemma_ready_values_origin(orig, x);
                let i = choose|i: int| 0 <= i < orig.len() && orig[i] == ResourceState::Ready(x);
                assert(orig_keys == old(self).keys@ && orig == old(self).states@);
                lemma_index_of(orig_keys, i);
                assert(old(self)@.contains_key(orig_keys[i]));
                assert(old(self)@[orig_keys[i]] == orig[i]);
            }
        }
        out
    }
}

proof fn lemma_ready_values_origin<R>(s: Seq<ResourceState<R>>, x: R)
    requires
        ready_values(s).contains(x),
    ensures
        exists|i: int| 0 <= i < s.len() && s[i] == ResourceState::Ready(x),
    decreases s.len(),
{
    if s.len() > 0 {
        let head = match s[0] {
            ResourceState::Ready(r) => seq![r],
            ResourceState::Pending => Seq::<R>::empty(),
        };
        let j = choose|j: int| 0 <= j < ready_values(s).len() && ready_values(s)[j] == x;
        if j < head.len() {
            assert(s[0] == ResourceState::Ready(x));
        } else {
            assert(ready_values(s.drop_first())[j - head.len()] == x);
            lemma_ready_values_origin(s.drop_first(), x);
            let i = choose|i: int| 0 <= i < s.drop_first().len() && s.drop_first()[i] == ResourceState::Ready(x);
            assert(s[i + 1] == ResourceState::Ready(x));
        }
    }
}

/// Exactly one of the callers that ask for a vacant entry builds it: the
/// first claim wins, every later claim waits while the entry is pending, a
/// commit makes later claims use the resources, and a released claim
/// leaves the table as it was, so that the next claim wins again.
pub proof fn lemma_claim_is_exclusive<R>(m: Map<u64, ResourceState<R>>, key: u64, resources: R)
    requires
        !m.contains_key(key),
    ensures
        claim_action(m, key) == ClaimAction::Winner,
        claim_action(after_claim(m, key), key) == ClaimAction::Yield,
        after_claim(after_claim(m, key), key) == after_claim(m, key),
        claim_action(after_claim(m, key).insert(key, ResourceState::Ready(resources)), key)
            == ClaimAction::Ready,
        after_release(after_claim(m, key), key) == m,
        claim_action(after_release(after_claim(m, key), key), key) == ClaimAction::Winner,
{
    assert(after_claim(m, key).remove(key) =~= m);
}

} // verus!
