//! The correlation router: a map from event kind to at most one waiter.
//!
//! Two disjoint use patterns share this machinery.  A request operation
//! installs a correlated waiter (a slot of capacity one), issues the host
//! call, drains the slot when the reply arrives, and vacates the slot before
//! returning — on success, error and timeout alike.  For the long-lived
//! fan-out kinds a dispatcher waiter is installed once at server start, and
//! delivery hands such events straight to the dispatcher.
//!
//! Invariant: at most one waiter per event kind, at any time.

use vstd::prelude::*;

verus! {

/// An event-kind key: a copyable value whose equality decides routing.
pub trait KindKey: Sized + Copy {
    /// Decide equality of two kinds.
    fn same(&self, other: &Self) -> (r: bool)
        ensures
            r == (*self == *other),
    ;
}

/// The waiter installed for one event kind.
#[derive(Debug, Clone, PartialEq)]
pub enum Waiter<M> {
    /// A correlated waiter: a slot of capacity one, drained by the
    /// operation that installed it.  `None` while no reply has arrived.
    Correlated(Option<M>),
    /// The long-lived fan-out: events of this kind go to the dispatcher.
    Dispatcher,
    /// No live waiter.
    Vacant,
}

/// One router entry: a kind and its waiter.
#[derive(Debug, Clone, PartialEq)]
pub struct RouterEntry<K, M> {
    pub kind: K,
    pub waiter: Waiter<M>,
}

/// What became of a delivered event.
#[derive(Debug, PartialEq)]
pub enum RouteOutcome<M> {
    /// A correlated waiter was empty; the event now sits in its slot.
    Stored,
    /// The kind belongs to the long-lived fan-out; the dispatcher gets it.
    ToDispatcher(M),
    /// The correlated slot already holds an unconsumed event; the new one
    /// is handed back.
    SlotFull(M),
    /// No waiter is installed for this kind; the event is handed back to be
    /// logged and dropped.
    NoWaiter(M),
}

/// The router itself.
pub struct Router<K, M> {
    pub entries: Vec<RouterEntry<K, M>>,
}

impl<K: KindKey, M> Router<K, M> {
    /// Well-formed: at most one entry per kind.
    pub open spec fn wf(self) -> bool {
        forall|i: int, j: int|
            0 <= i < j < self.entries@.len()
                ==> #[trigger] self.entries@[i].kind != #[trigger] self.entries@[j].kind
    }

    /// Whether some entry (live or vacant) exists for the kind.
    pub open spec fn has_kind(self, k: K) -> bool {
        exists|i: int| 0 <= i < self.entries@.len() && #[trigger] self.entries@[i].kind == k
    }

    /// The index of the entry for the kind.
    pub open spec fn kind_index(self, k: K) -> int {
        choose|i: int| 0 <= i < self.entries@.len() && #[trigger] self.entries@[i].kind == k
    }

    /// The waiter for a kind; `Vacant` when no entry exists.
    pub open spec fn slot(self, k: K) -> Waiter<M> {
        if self.has_kind(k) {
            self.entries@[self.kind_index(k)].waiter
        } else {
            Waiter::Vacant
        }
    }

    /// Whether a live waiter (correlated or dispatcher) is installed.
    pub open spec fn live(self, k: K) -> bool {
        !(self.slot(k) is Vacant)
    }

    /// In a well-formed router, the entry at a known index is the entry the
    /// kind routes to.
    pub proof fn lemma_slot_at(self, k: K, i: int)
        requires
            self.wf(),
            0 <= i < self.entries@.len(),
            self.entries@[i].kind == k,
        ensures
            self.has_kind(k),
            self.kind_index(k) == i,
            self.slot(k) == self.entries@[i].waiter,
    {
        assert(self.has_kind(k));
        let j = self.kind_index(k);
        if i != j {
            if i < j {
                assert(self.entries@[i].kind != self.entries@[j].kind);
            } else {
                assert(self.entries@[j].kind != self.entries@[i].kind);
            }
        }
    }

    /// A fresh, empty router.
    pub fn new() -> (r: Self)
        ensures
            r.wf(),
            forall|k: K| !r.has_kind(k),
            forall|k: K| r.slot(k) == Waiter::<M>::Vacant,
    {
        Router { entries: Vec::new() }
    }

    /// Find the entry index for a kind.
    fn find_kind(&self, k: K) -> (r: Option<usize>)
        ensures
            match r {
                Some(i) => i < self.entries@.len() && self.entries@[i as int].kind == k,
                None => !self.has_kind(k),
            },
    {
        let n = self.entries.len();
        let mut i: usize = 0;
        while i < n
            invariant
                n == self.entries@.len(),
                i <= n,
                forall|j: int| 0 <= j < i ==> #[trigger] self.entries@[j].kind != k,
            decreases n - i,
        {
            if self.entries[i].kind.same(&k) {
                return Some(i);
            }
            i = i + 1;
        }
        None
    }

    /// Put a waiter in place for a kind, replacing whatever was there.
    fn set_slot(&mut self, k: K, w: Waiter<M>)
        requires
            old(self).wf(),
        ensures
            final(self).wf(),
            final(self).slot(k) == w,
            final(self).live(k) == !(w is Vacant),
            forall|k2: K| k2 != k ==> final(self).slot(k2) == old(self).slot(k2),
    {
        let ghost pre = *self;
        match self.find_kind(k) {
            Some(i) => {
                self.entries.set(i, RouterEntry { kind: k, waiter: w });
                proof {
                    assert(final(self).wf()) by {
                        assert forall|a: int, b: int|
                            0 <= a < b < self.entries@.len() implies #[trigger] self
                            .entries@[a].kind != #[trigger] self.entries@[b].kind by {
                            assert(pre.entries@[a].kind != pre.entries@[b].kind);
                            assert(pre.entries@[i as int].kind == k);
                        }
                    }
                    self.lemma_slot_at(k, i as int);
                    assert forall|k2: K| k2 != k implies final(self).slot(k2) == pre.slot(
                        k2,
                    ) by {
                        if pre.has_kind(k2) {
                            let j = pre.kind_index(k2);
                            assert(pre.entries@[j].kind == k2);
                            assert(j != i as int);
                            assert(self.entries@[j].kind == k2);
                            self.lemma_slot_at(k2, j);
                            pre.lemma_slot_at(k2, j);
                        } else {
                            assert(!self.has_kind(k2)) by {
                                if self.has_kind(k2) {
                                    let j = self.kind_index(k2);
                                    assert(self.entries@[j].kind == k2);
                                    assert(j != i as int);
                                    assert(pre.entries@[j].kind == k2);
                                }
                            }
                        }
                    }
                }
            },
            None => {
                let ghost n = pre.entries@.len() as int;
                self.entries.push(RouterEntry { kind: k, waiter: w });
                proof {
                    assert(final(self).wf()) by {
                        assert forall|a: int, b: int|
                            0 <= a < b < self.entries@.len() implies #[trigger] self
                            .entries@[a].kind != #[trigger] self.entries@[b].kind by {
                            if b < n {
                                assert(pre.entries@[a].kind != pre.entries@[b].kind);
                            } else {
                                assert(self.entries@[b].kind == k);
                                assert(pre.entries@[a].kind == self.entries@[a].kind);
                            }
                        }
                    }
                    self.lemma_slot_at(k, n);
                    assert forall|k2: K| k2 != k implies final(self).slot(k2) == pre.slot(
                        k2,
                    ) by {
                        if pre.has_kind(k2) {
                            let j = pre.kind_index(k2);
                            assert(pre.entries@[j].kind == k2);
                            assert(self.entries@[j].kind == k2);
                            self.lemma_slot_at(k2, j);
                            pre.lemma_slot_at(k2, j);
                        } else {
                            assert(!self.has_kind(k2)) by {
                                if self.has_kind(k2) {
                                    let j = self.kind_index(k2);
                                    assert(self.entries@[j].kind == k2);
                                    if j < n {
                                        assert(pre.entries@[j].kind == k2);
                                    } else {
                                        assert(self.entries@[j].kind == k);
                                    }
                                }
                            }
                        }
                    }
                }
            },
        }
    }

    /// Install an empty correlated waiter for a kind, replacing whatever
    /// was installed before.
    pub fn install(&mut self, k: K)
        requires
            old(self).wf(),
        ensures
            final(self).wf(),
            final(self).slot(k) == Waiter::<M>::Correlated(None),
            final(self).live(k),
            forall|k2: K| k2 != k ==> final(self).slot(k2) == old(self).slot(k2),
    {
        self.set_slot(k, Waiter::Correlated(None));
    }

    /// Install the dispatcher as the waiter for a long-lived fan-out kind.
    pub fn install_dispatcher(&mut self, k: K)
        requires
            old(self).wf(),
        ensures
            final(self).wf(),
            final(self).slot(k) == Waiter::<M>::Dispatcher,
            final(self).live(k),
            forall|k2: K| k2 != k ==> final(self).slot(k2) == old(self).slot(k2),
    {
        self.set_slot(k, Waiter::Dispatcher);
    }

    /// Remove the waiter for a kind.  Every correlated operation calls this
    /// before returning, so no stale sender outlives its operation.
    pub fn vacate(&mut self, k: K)
        requires
            old(self).wf(),
        ensures
            final(self).wf(),
            final(self).slot(k) == Waiter::<M>::Vacant,
            !final(self).live(k),
            forall|k2: K| k2 != k ==> final(self).slot(k2) == old(self).slot(k2),
    {
        self.set_slot(k, Waiter::Vacant);
    }

    /// Deliver an event of kind `k` to whatever waiter is installed.
    pub fn deliver(&mut self, k: K, msg: M) -> (r: RouteOutcome<M>)
        requires
            old(self).wf(),
        ensures
            final(self).wf(),
            forall|k2: K| k2 != k ==> final(self).slot(k2) == old(self).slot(k2),
            match r {
                RouteOutcome::Stored => old(self).slot(k) == Waiter::<M>::Correlated(None)
                    && final(self).slot(k) == Waiter::<M>::Correlated(Some(msg)),
                RouteOutcome::ToDispatcher(m) => m == msg
                    && old(self).slot(k) is Dispatcher
                    && *final(self) == *old(self),
                RouteOutcome::SlotFull(m) => m == msg
                    && (old(self).slot(k) matches Waiter::Correlated(Some(_)))
                    && *final(self) == *old(self),
                RouteOutcome::NoWaiter(m) => m == msg
                    && old(self).slot(k) is Vacant
                    && *final(self) == *old(self),
            },
    {
        match self.find_kind(k) {
            None => {
                proof {
                    assert(!old(self).has_kind(k));
                }
                RouteOutcome::NoWaiter(msg)
            },
            Some(i) => {
                proof {
                    self.lemma_slot_at(k, i as int);
                }
                match &self.entries[i].waiter {
                    Waiter::Correlated(slot_contents) => {
                        if slot_contents.is_none() {
                            self.set_slot(k, Waiter::Correlated(Some(msg)));
                            RouteOutcome::Stored
                        } else {
                            RouteOutcome::SlotFull(msg)
                        }
                    },
                    Waiter::Dispatcher => RouteOutcome::ToDispatcher(msg),
                    Waiter::Vacant => RouteOutcome::NoWaiter(msg),
                }
            },
        }
    }

    /// Drain the correlated slot for a kind.  Returns the stored event, if
    /// one arrived; the slot stays installed and becomes empty.
    pub fn take(&mut self, k: K) -> (r: Option<M>)
        requires
            old(self).wf(),
        ensures
            final(self).wf(),
            forall|k2: K| k2 != k ==> final(self).slot(k2) == old(self).slot(k2),
            match old(self).slot(k) {
                Waiter::Correlated(Some(m)) => r == Some(m)
                    && final(self).slot(k) == Waiter::<M>::Correlated(None),
                _ => r is None && *final(self) == *old(self),
            },
    {
        match self.find_kind(k) {
            None => {
                proof {
                    assert(!old(self).has_kind(k));
                }
                None
            },
            Some(i) => {
                proof {
                    self.lemma_slot_at(k, i as int);
                }
                let is_full = match &self.entries[i].waiter {
                    Waiter::Correlated(slot_contents) => slot_contents.is_some(),
                    _ => false,
                };
                if is_full {
                    let mut taken = RouterEntry { kind: k, waiter: Waiter::Correlated(None) };
                    self.entries.set_and_swap(i, &mut taken);
                    proof {
                        let pre = *old(self);
                        assert(final(self).wf()) by {
                            assert forall|a: int, b: int|
                                0 <= a < b < self.entries@.len() implies #[trigger] self
                                .entries@[a].kind != #[trigger] self.entries@[b].kind by {
                                assert(pre.entries@[a].kind != pre.entries@[b].kind);
                                assert(pre.entries@[i as int].kind == k);
                            }
                        }
                        self.lemma_slot_at(k, i as int);
                        assert forall|k2: K| k2 != k implies final(self).slot(k2) == pre.slot(
                            k2,
                        ) by {
                            if pre.has_kind(k2) {
                                let j = pre.kind_index(k2);
                                assert(pre.entries@[j].kind == k2);
                                assert(j != i as int);
                                assert(self.entries@[j].kind == k2);
                                self.lemma_slot_at(k2, j);
                                pre.lemma_slot_at(k2, j);
                            } else {
                                assert(!self.has_kind(k2)) by {
                                    if self.has_kind(k2) {
                                        let j = self.kind_index(k2);
                                        assert(self.entries@[j].kind == k2);
                                        assert(j != i as int);
                                        assert(pre.entries@[j].kind == k2);
                                    }
                                }
                            }
                        }
                    }
                    match taken.waiter {
                        Waiter::Correlated(stored) => stored,
                        _ => None,
                    }
                } else {
                    None
                }
            },
        }
    }
}

} // verus!
