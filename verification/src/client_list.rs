//! Dense registry of live client connections.
//!
//! Maps an opaque client identifier to that connection's record (in practice
//! the sending half of its outbound queue). Records are kept in a dense
//! sequence so that iteration for broadcast touches live connections only;
//! an identifier-to-index map gives O(1) lookup, and removal swaps the last
//! record into the freed slot. Clients must never be able to observe each
//! other's network addresses, so identifiers are opaque `u64` handles and a
//! record never leaves the registry except through its own identifier.

use vstd::prelude::*;
use std::collections::HashMap;

verus! {

broadcast use vstd::std_specs::hash::group_hash_axioms;

/// Dense store of per-connection records, keyed by opaque client identifiers.
///
/// Invariant (see [`ClientStore::wf`]): every identifier in the index map
/// names a valid position of the dense sequence and vice versa, and no two
/// identifiers share a position.
pub struct ClientStore<Val> {
    /// The records, kept dense: position `i` belongs to identifier `keys[i]`.
    data: Vec<Val>,
    /// Reverse mapping position -> identifier, kept in lock step with `data`
    /// so that a swap-removal can re-record the moved identifier in O(1).
    keys: Vec<u64>,
    /// Identifier -> position of its record in `data`.
    data_map: HashMap<u64, usize>,
}

impl<Val> ClientStore<Val> {
    /// The identifiers in dense order.
    pub closed spec fn key_seq(&self) -> Seq<u64> {
        self.keys@
    }

    /// The records in dense order; what iteration yields.
    pub closed spec fn val_seq(&self) -> Seq<Val> {
        self.data@
    }

    /// The position the record of `id` occupies (meaningful when registered).
    pub closed spec fn spec_index_of(&self, id: u64) -> int {
        self.data_map@[id] as int
    }

    /// Well-formedness: the index map and the dense sequences agree exactly.
    pub closed spec fn wf(&self) -> bool {
        &&& self.keys@.len() == self.data@.len()
        &&& forall|i: int|
            0 <= i < self.keys@.len() ==> self.data_map@.contains_key(#[trigger] self.keys@[i])
                && self.data_map@[self.keys@[i]] == i
        &&& forall|k: u64|
            #[trigger] self.data_map@.contains_key(k) ==> self.data_map@[k] < self.keys@.len()
                && self.keys@[self.data_map@[k] as int] == k
    }

    /// Creates an empty registry.
    pub fn new() -> (r: Self)
        ensures
            r.wf(),
            r@ == Map::<u64, Val>::empty(),
            r.key_seq() == Seq::<u64>::empty(),
            r.val_seq() == Seq::<Val>::empty(),
    {
        let r = Self { data: Vec::new(), keys: Vec::new(), data_map: HashMap::new() };
        proof {
            assert(r@ =~= Map::<u64, Val>::empty());
        }
        r
    }

    /// Number of currently registered connections.
    pub fn len(&self) -> (n: usize)
        ensures
            n == self.key_seq().len(),
    {
        self.keys.len()
    }

    /// Position of the record of `id`, if registered.
    pub fn position(&self, id: &u64) -> (r: Option<usize>)
        requires
            self.wf(),
        ensures
            match r {
                Some(i) => self@.contains_key(*id) && i == self.spec_index_of(*id) && i
                    < self.val_seq().len() && self.key_seq()[i as int] == *id
                    && self.val_seq()[i as int] == self@[*id],
                None => !self@.contains_key(*id),
            },
    {
        match self.data_map.get(id) {
            Some(i) => Some(*i),
            None => None,
        }
    }

    /// The dense layout seen abstractly: identifiers are pairwise distinct,
    /// each position holds the record of the identifier recorded for it, and
    /// the registered identifiers are exactly those of the dense order. In
    /// particular no two identifiers ever resolve to the same record.
    pub proof fn lemma_dense_layout(&self)
        requires
            self.wf(),
        ensures
            self.key_seq().no_duplicates(),
            self.key_seq().len() == self.val_seq().len(),
            self@.dom() == self.key_seq().to_set(),
            self@.len() == self.key_seq().len(),
            forall|i: int|
                0 <= i < self.key_seq().len() ==> self@.contains_key(#[trigger] self.key_seq()[i])
                    && self@[self.key_seq()[i]] == self.val_seq()[i] && self.spec_index_of(
                    self.key_seq()[i],
                ) == i,
            forall|k: u64|
                #[trigger] self@.contains_key(k) ==> 0 <= self.spec_index_of(k)
                    < self.key_seq().len() && self.key_seq()[self.spec_index_of(k)] == k && self@[k]
                    == self.val_seq()[self.spec_index_of(k)],
            forall|k1: u64, k2: u64|
                self@.contains_key(k1) && self@.contains_key(k2) && k1 != k2
                    ==> #[trigger] self.spec_index_of(k1) != #[trigger] self.spec_index_of(k2),
    {
        assert(self@.dom() =~= self.key_seq().to_set()) by {
            assert forall|k: u64| self.key_seq().to_set().contains(k) implies self@.contains_key(
                k,
            ) by {
                let i = choose|i: int|
                    0 <= i < self.keys@.len() && #[trigger] self.keys@[i] == k;
                assert(self.data_map@.contains_key(self.keys@[i]));
            }
        }
        self.key_seq().unique_seq_to_set();
    }

    /// A deregistered identifier can never be looked up again: whatever the
    /// registry held, after a removal its contents hold nothing under the
    /// removed identifier, so `get` after `remove` of the same identifier
    /// always answers absent (see the contracts of `remove` and `get`).
    pub proof fn lemma_removed_key_absent(m: Map<u64, Val>, id: u64)
        ensures
            !m.remove(id).contains_key(id),
    {
    }

    /// Registers `channel` as the record of `id`.
    ///
    /// A duplicate identifier replaces the prior record and discards it, so
    /// that no orphaned record can linger in the dense sequence; this is the
    /// replace-with-cleanup reading of the otherwise unspecified duplicate
    /// case.
    pub fn push(&mut self, id: u64, channel: Val)
        requires
            old(self).wf(),
        ensures
            final(self).wf(),
            final(self)@ == old(self)@.insert(id, channel),
            final(self).key_seq().len() == if old(self)@.contains_key(id) {
                old(self).key_seq().len()
            } else {
                old(self).key_seq().len() + 1
            },
            !old(self)@.contains_key(id) ==> final(self).key_seq() == old(self).key_seq().push(id)
                && final(self).val_seq() == old(self).val_seq().push(channel),
            old(self)@.contains_key(id) ==> final(self).key_seq() == old(self).key_seq().update(
                old(self).spec_index_of(id),
                old(self).key_seq().last(),
            ).drop_last().push(id) && final(self).val_seq() == old(self).val_seq().update(
                old(self).spec_index_of(id),
                old(self).val_seq().last(),
            ).drop_last().push(channel),
    {
        let _prior = self.remove(&id);
        let ghost mid = *self;
        let index = self.data.len();
        self.data.push(channel);
        self.keys.push(id);
        self.data_map.insert(id, index);
        proof {
            let n = mid.keys@.len() as int;
            assert forall|i: int| 0 <= i < self.keys@.len() implies self.data_map@.contains_key(
                #[trigger] self.keys@[i],
            ) && self.data_map@[self.keys@[i]] == i by {
                if i < n {
                    assert(mid.data_map@.contains_key(mid.keys@[i]));
                    assert(mid.keys@[i] != id);
                }
            }
            assert forall|k: u64| #[trigger]
                self.data_map@.contains_key(k) implies self.data_map@[k] < self.keys@.len()
                && self.keys@[self.data_map@[k] as int] == k by {
                if k != id {
                    assert(mid.data_map@.contains_key(k));
                }
            }
            assert(self@ =~= old(self)@.insert(id, channel)) by {
                assert forall|k: u64| self@.contains_key(k) implies old(self)@.insert(
                    id,
                    channel,
                ).contains_key(k) && self@[k] == old(self)@.insert(id, channel)[k] by {
                    if k == id {
                        assert(self@[k] == self.data@[n]);
                    } else {
                        assert(mid.data_map@.contains_key(k));
                        assert(mid.data_map@[k] < n);
                        assert(self@[k] == mid.data@[mid.data_map@[k] as int]);
                        assert(mid@.contains_key(k) && mid@[k] == self@[k]);
                    }
                }
                assert forall|k: u64| old(self)@.insert(id, channel).contains_key(
                    k,
                ) implies self@.contains_key(k) by {
                    if k != id {
                        assert(mid@.contains_key(k));
                    }
                }
            }
        }
    }

    /// Looks the record of `id` up; absent identifiers yield `None`.
    pub fn get(&self, id: &u64) -> (r: Option<&Val>)
        requires
            self.wf(),
        ensures
            match r {
                Some(v) => self@.contains_key(*id) && *v == self@[*id],
                None => !self@.contains_key(*id),
            },
    {
        match self.data_map.get(id) {
            Some(i) => Some(&self.data[*i]),
            None => None,
        }
    }

    /// Removes and returns the record of `id`; on an absent identifier this
    /// is a no-op returning `None`, and the registry is unchanged.
    ///
    /// Removal swap-removes: the last record moves into the freed slot and
    /// its identifier's position is re-recorded, so the operation is O(1).
    pub fn remove(&mut self, id: &u64) -> (r: Option<Val>)
        requires
            old(self).wf(),
        ensures
            final(self).wf(),
            match r {
                Some(v) => old(self)@.contains_key(*id) && v == old(self)@[*id] && final(self)@
                    == old(self)@.remove(*id) && final(self).key_seq() == old(
                    self,
                ).key_seq().update(old(self).spec_index_of(*id), old(self).key_seq().last())
                    .drop_last() && final(self).val_seq() == old(self).val_seq().update(
                    old(self).spec_index_of(*id),
                    old(self).val_seq().last(),
                ).drop_last(),
                None => !old(self)@.contains_key(*id) && final(self)@ == old(self)@ && *final(self)
                    == *old(self),
            },
    {
        let index_opt = match self.data_map.get(id) {
            Some(i) => Some(*i),
            None => None,
        };
        match index_opt {
            Some(index) => {
                let removed_value = self.data.swap_remove(index);
                let _removed_key = self.keys.swap_remove(index);
                if index < self.data.len() {
                    let moved_key = self.keys[index];
                    proof {
                        assert(moved_key == old(self).keys@.last());
                        assert(old(self).data_map@[moved_key] == old(self).keys@.len() - 1);
                        assert(moved_key != *id);
                    }
                    self.data_map.insert(moved_key, index);
                }
                self.data_map.remove(id);
                proof {
                    self.lemma_remove_restores(*old(self), *id, index);
                }
                Some(removed_value)
            },
            None => None,
        }
    }

    /// After the swap-removal of `id` from `pre`, the registry is
    /// well-formed again and its contents are exactly `pre` without `id`.
    proof fn lemma_remove_restores(&self, pre: Self, id: u64, index: usize)
        requires
            pre.wf(),
            pre.data_map@.contains_key(id),
            index == pre.data_map@[id],
            self.keys@ == pre.keys@.update(index as int, pre.keys@.last()).drop_last(),
            self.data@ == pre.data@.update(index as int, pre.data@.last()).drop_last(),
            self.data_map@ == if index + 1 < pre.keys@.len() {
                pre.data_map@.insert(pre.keys@.last(), index).remove(id)
            } else {
                pre.data_map@.remove(id)
            },
        ensures
            self.wf(),
            self@ == pre@.remove(id),
    {
        let n = pre.keys@.len() as int;
        assert(pre.keys@[index as int] == id);
        assert forall|i: int| 0 <= i < self.keys@.len() implies self.data_map@.contains_key(
            #[trigger] self.keys@[i],
        ) && self.data_map@[self.keys@[i]] == i by {
            if i != index {
                assert(self.keys@[i] == pre.keys@[i]);
                assert(pre.data_map@[pre.keys@[i]] == i);
                assert(pre.keys@[i] != id);
                assert(pre.keys@[i] != pre.keys@.last() || i == n - 1);
            } else {
                assert(self.keys@[i] == pre.keys@.last());
            }
        }
        assert forall|k: u64| #[trigger]
            self.data_map@.contains_key(k) implies self.data_map@[k] < self.keys@.len()
            && self.keys@[self.data_map@[k] as int] == k by {
            if index + 1 < n && k == pre.keys@.last() {
                assert(self.keys@[index as int] == k);
            } else {
                assert(pre.data_map@.contains_key(k) && k != id);
                let i = pre.data_map@[k] as int;
                assert(pre.keys@[i] == k);
                assert(i != index);
                assert(i != n - 1);
                assert(self.keys@[i] == pre.keys@[i]);
            }
        }
        assert(self@ =~= pre@.remove(id)) by {
            assert forall|k: u64| self@.contains_key(k) implies pre@.remove(id).contains_key(k)
                && self@[k] == pre@.remove(id)[k] by {
                assert(pre.data_map@.contains_key(k) && k != id);
                let i = self.data_map@[k] as int;
                let j = pre.data_map@[k] as int;
                assert(self.keys@[i] == k && pre.keys@[j] == k);
                if i == j {
                    assert(self.data@[i] == pre.data@[j]);
                } else {
                    assert(k == pre.keys@.last() && i == index && j == n - 1);
                    assert(self.data@[i] == pre.data@[j]);
                }
            }
            assert forall|k: u64| pre@.remove(id).contains_key(k) implies self@.contains_key(
                k,
            ) by {
                assert(pre.data_map@.contains_key(k) && k != id);
                if index + 1 < n || k != pre.keys@.last() {
                    assert(pre.keys@[pre.data_map@[k] as int] == k);
                }
            }
        }
    }

    /// Snapshot of the live records, in dense order, for broadcast.
    pub fn iter(&self) -> (r: &Vec<Val>)
        ensures
            r@ == self.val_seq(),
    {
        &self.data
    }

    /// Mutable access to the record at position `index` of the dense order.
    pub fn iter_mut(&mut self, index: usize) -> (r: &mut Val)
        requires
            old(self).wf(),
            index < old(self).val_seq().len(),
        ensures
            *r == old(self).val_seq()[index as int],
            final(self).wf(),
            final(self).val_seq() == old(self).val_seq().update(index as int, *final(r)),
            final(self).key_seq() == old(self).key_seq(),
            final(self)@ == old(self)@.insert(old(self).key_seq()[index as int], *final(r)),
    {
        let r = &mut self.data[index];
        proof {
            let k = old(self).keys@[index as int];
            assert(after_borrow(*self)@ =~= old(self)@.insert(k, *final(r))) by {
                assert(after_borrow(*self).data@ == old(self).data@.update(
                    index as int,
                    *final(r),
                ));
                assert(after_borrow(*self).data_map@ == old(self).data_map@);
                assert forall|k2: u64| after_borrow(*self)@.contains_key(k2) implies old(
                    self,
                )@.insert(k, *final(r)).contains_key(k2) && after_borrow(*self)@[k2] == old(
                    self,
                )@.insert(k, *final(r))[k2] by {
                    let i = old(self).data_map@[k2] as int;
                    if k2 == k {
                        assert(i == index);
                    } else {
                        assert(old(self).keys@[i] == k2);
                        assert(i != index);
                    }
                }
            }
        }
        r
    }
}

impl<Val> View for ClientStore<Val> {
    type V = Map<u64, Val>;

    /// The registered connections as a map from identifier to record.
    closed spec fn view(&self) -> Map<u64, Val> {
        self.data_map@.map_values(|i: usize| self.data@[i as int])
    }
}

} // verus!
