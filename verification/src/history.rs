//! Laws about registration histories.
//!
//! A history is a sequence of insert/remove operations applied to the
//! registry's abstract contents (a map from identifier to record, the view
//! of [`crate::client_list::ClientStore`], whose `push` and `remove`
//! contracts state exactly these map transitions). The lemmas here say what
//! any such history leaves in the registry: with distinct keys, iteration
//! sees exactly the inserted-and-not-removed keys whatever the removal
//! order, and the size is the insert count minus the remove count.

use vstd::prelude::*;

verus! {

/// One operation of a registration history.
pub enum RegistryOp<Val> {
    /// `push(key, record)` on the registry.
    Insert(u64, Val),
    /// `remove(key)` on the registry.
    Remove(u64),
}

/// The key an operation touches.
pub open spec fn op_key<Val>(op: RegistryOp<Val>) -> u64 {
    match op {
        RegistryOp::Insert(k, _) => k,
        RegistryOp::Remove(k) => k,
    }
}

/// What one operation does to the registry contents.
pub open spec fn apply_op<Val>(m: Map<u64, Val>, op: RegistryOp<Val>) -> Map<u64, Val> {
    match op {
        RegistryOp::Insert(k, v) => m.insert(k, v),
        RegistryOp::Remove(k) => m.remove(k),
    }
}

/// The registry contents after a whole history, first operation first.
pub open spec fn apply_ops<Val>(m: Map<u64, Val>, ops: Seq<RegistryOp<Val>>) -> Map<u64, Val>
    decreases ops.len(),
{
    if ops.len() == 0 {
        m
    } else {
        apply_ops(apply_op(m, ops[0]), ops.drop_first())
    }
}

/// The keys a history inserts.
pub open spec fn inserted_keys<Val>(ops: Seq<RegistryOp<Val>>) -> Set<u64>
    decreases ops.len(),
{
    if ops.len() == 0 {
        Set::empty()
    } else if ops[0] is Insert {
        inserted_keys(ops.drop_first()).insert(op_key(ops[0]))
    } else {
        inserted_keys(ops.drop_first())
    }
}

/// The keys a history removes.
pub open spec fn removed_keys<Val>(ops: Seq<RegistryOp<Val>>) -> Set<u64>
    decreases ops.len(),
{
    if ops.len() == 0 {
        Set::empty()
    } else if ops[0] is Remove {
        removed_keys(ops.drop_first()).insert(op_key(ops[0]))
    } else {
        removed_keys(ops.drop_first())
    }
}

/// How many inserts a history holds.
pub open spec fn count_inserts<Val>(ops: Seq<RegistryOp<Val>>) -> nat
    decreases ops.len(),
{
    if ops.len() == 0 {
        0
    } else if ops[0] is Insert {
        count_inserts(ops.drop_first()) + 1
    } else {
        count_inserts(ops.drop_first())
    }
}

/// How many removes a history holds.
pub open spec fn count_removes<Val>(ops: Seq<RegistryOp<Val>>) -> nat
    decreases ops.len(),
{
    if ops.len() == 0 {
        0
    } else if ops[0] is Remove {
        count_removes(ops.drop_first()) + 1
    } else {
        count_removes(ops.drop_first())
    }
}

/// The distinct-key discipline: no key is inserted twice, removed twice, or
/// inserted again once removed.
pub open spec fn distinct_keys_history<Val>(ops: Seq<RegistryOp<Val>>) -> bool {
    &&& forall|i: int, j: int|
        #![trigger ops[i], ops[j]]
        0 <= i < j < ops.len() && ops[i] is Insert && ops[j] is Insert ==> op_key(ops[i])
            != op_key(ops[j])
    &&& forall|i: int, j: int|
        #![trigger ops[i], ops[j]]
        0 <= i < j < ops.len() && ops[i] is Remove && ops[j] is Remove ==> op_key(ops[i])
            != op_key(ops[j])
    &&& forall|i: int, j: int|
        #![trigger ops[i], ops[j]]
        0 <= i < j < ops.len() && ops[i] is Remove && ops[j] is Insert ==> op_key(ops[i])
            != op_key(ops[j])
}

/// Every remove targets a key some earlier operation inserted.
pub open spec fn removes_follow_inserts<Val>(ops: Seq<RegistryOp<Val>>) -> bool {
    forall|i: int|
        0 <= i < ops.len() && (#[trigger] ops[i]) is Remove ==> exists|j: int|
            0 <= j < i && (#[trigger] ops[j]) is Insert && op_key(ops[j]) == op_key(ops[i])
}

proof fn lemma_discipline_tail<Val>(ops: Seq<RegistryOp<Val>>)
    requires
        ops.len() > 0,
        distinct_keys_history(ops),
    ensures
        distinct_keys_history(ops.drop_first()),
{
    let rest = ops.drop_first();
    assert forall|i: int, j: int|
        #![trigger rest[i], rest[j]]
        0 <= i < j < rest.len() implies rest[i] == ops[i + 1] && rest[j] == ops[j + 1] by {}
}

/// A key is inserted by a history exactly when some operation of the
/// history inserts it.
pub proof fn lemma_inserted_membership<Val>(ops: Seq<RegistryOp<Val>>, k: u64)
    ensures
        inserted_keys(ops).contains(k) <==> exists|i: int|
            0 <= i < ops.len() && (#[trigger] ops[i]) is Insert && op_key(ops[i]) == k,
    decreases ops.len(),
{
    if ops.len() > 0 {
        lemma_inserted_membership(ops.drop_first(), k);
        let rest = ops.drop_first();
        assert forall|i: int| 0 <= i < rest.len() implies rest[i] == ops[i + 1] by {}
        if inserted_keys(ops).contains(k) {
            if ops[0] is Insert && op_key(ops[0]) == k {
                assert(ops[0] is Insert && op_key(ops[0]) == k);
            } else {
                let i = choose|i: int|
                    0 <= i < rest.len() && (#[trigger] rest[i]) is Insert && op_key(rest[i]) == k;
                assert(ops[i + 1] is Insert && op_key(ops[i + 1]) == k);
            }
        }
        if exists|i: int|
            0 <= i < ops.len() && (#[trigger] ops[i]) is Insert && op_key(ops[i]) == k {
            let i = choose|i: int|
                0 <= i < ops.len() && (#[trigger] ops[i]) is Insert && op_key(ops[i]) == k;
            if i > 0 {
                assert(rest[i - 1] is Insert && op_key(rest[i - 1]) == k);
            }
        }
    }
}

/// A key is removed by a history exactly when some operation of the
/// history removes it.
pub proof fn lemma_removed_membership<Val>(ops: Seq<RegistryOp<Val>>, k: u64)
    ensures
        removed_keys(ops).contains(k) <==> exists|i: int|
            0 <= i < ops.len() && (#[trigger] ops[i]) is Remove && op_key(ops[i]) == k,
    decreases ops.len(),
{
    if ops.len() > 0 {
        lemma_removed_membership(ops.drop_first(), k);
        let rest = ops.drop_first();
        assert forall|i: int| 0 <= i < rest.len() implies rest[i] == ops[i + 1] by {}
        if removed_keys(ops).contains(k) {
            if ops[0] is Remove && op_key(ops[0]) == k {
            } else {
                let i = choose|i: int|
                    0 <= i < rest.len() && (#[trigger] rest[i]) is Remove && op_key(rest[i]) == k;
                assert(ops[i + 1] is Remove && op_key(ops[i + 1]) == k);
            }
        }
        if exists|i: int|
            0 <= i < ops.len() && (#[trigger] ops[i]) is Remove && op_key(ops[i]) == k {
            let i = choose|i: int|
                0 <= i < ops.len() && (#[trigger] ops[i]) is Remove && op_key(ops[i]) == k;
            if i > 0 {
                assert(rest[i - 1] is Remove && op_key(rest[i - 1]) == k);
            }
        }
    }
}

/// Any history with distinct keys leaves in the registry exactly the keys
/// it had at the start plus those inserted, minus those removed — whatever
/// order the removals came in. Iteration over the registry therefore yields
/// exactly the live keys (see `ClientStore::lemma_dense_layout`).
pub proof fn lemma_history_dom<Val>(m: Map<u64, Val>, ops: Seq<RegistryOp<Val>>)
    requires
        distinct_keys_history(ops),
    ensures
        apply_ops(m, ops).dom() == m.dom().union(inserted_keys(ops)).difference(
            removed_keys(ops),
        ),
    decreases ops.len(),
{
    if ops.len() == 0 {
        assert(apply_ops(m, ops).dom() =~= m.dom().union(inserted_keys(ops)).difference(
            removed_keys(ops),
        ));
    } else {
        let rest = ops.drop_first();
        lemma_discipline_tail(ops);
        let m1 = apply_op(m, ops[0]);
        lemma_history_dom(m1, rest);
        match ops[0] {
            RegistryOp::Insert(k, _) => {
                assert(apply_ops(m, ops).dom() =~= m.dom().union(inserted_keys(ops)).difference(
                    removed_keys(ops),
                ));
            },
            RegistryOp::Remove(k) => {
                assert(!inserted_keys(rest).contains(k)) by {
                    lemma_inserted_membership(rest, k);
                    if inserted_keys(rest).contains(k) {
                        let i = choose|i: int|
                            0 <= i < rest.len() && (#[trigger] rest[i]) is Insert && op_key(
                                rest[i],
                            ) == k;
                        assert(ops[i + 1] == rest[i]);
                    }
                }
                assert(apply_ops(m, ops).dom() =~= m.dom().union(inserted_keys(ops)).difference(
                    removed_keys(ops),
                ));
            },
        }
    }
}

/// The sets a distinct-key history inserts and removes are finite, with as
/// many elements as the history has inserts and removes.
proof fn lemma_key_set_cards<Val>(ops: Seq<RegistryOp<Val>>)
    requires
        distinct_keys_history(ops),
    ensures
        inserted_keys(ops).finite(),
        inserted_keys(ops).len() == count_inserts(ops),
        removed_keys(ops).finite(),
        removed_keys(ops).len() == count_removes(ops),
    decreases ops.len(),
{
    if ops.len() > 0 {
        let rest = ops.drop_first();
        lemma_discipline_tail(ops);
        lemma_key_set_cards(rest);
        assert forall|i: int| 0 <= i < rest.len() implies rest[i] == ops[i + 1] by {}
        match ops[0] {
            RegistryOp::Insert(k, _) => {
                assert(!inserted_keys(rest).contains(k)) by {
                    lemma_inserted_membership(rest, k);
                    if inserted_keys(rest).contains(k) {
                        let i = choose|i: int|
                            0 <= i < rest.len() && (#[trigger] rest[i]) is Insert && op_key(
                                rest[i],
                            ) == k;
                    }
                }
            },
            RegistryOp::Remove(k) => {
                assert(!removed_keys(rest).contains(k)) by {
                    lemma_removed_membership(rest, k);
                    if removed_keys(rest).contains(k) {
                        let i = choose|i: int|
                            0 <= i < rest.len() && (#[trigger] rest[i]) is Remove && op_key(
                                rest[i],
                            ) == k;
                    }
                }
            },
        }
    }
}

/// Cardinality of a difference of finite sets, one inside the other.
proof fn lemma_difference_card(a: Set<u64>, b: Set<u64>)
    requires
        a.finite(),
        b.finite(),
        b.subset_of(a),
    ensures
        a.difference(b).len() == a.len() - b.len(),
    decreases b.len(),
{
    if b.len() == 0 {
        assert(b =~= Set::empty());
        assert(a.difference(b) =~= a);
    } else {
        let x = b.choose();
        assert(b.contains(x));
        lemma_difference_card(a.remove(x), b.remove(x));
        assert(a.remove(x).difference(b.remove(x)) =~= a.difference(b));
    }
}

/// After N inserts and M removes of distinct keys, each remove aimed at a
/// previously inserted key, the registry holds exactly N - M records.
pub proof fn lemma_history_size<Val>(ops: Seq<RegistryOp<Val>>)
    requires
        distinct_keys_history(ops),
        removes_follow_inserts(ops),
    ensures
        count_removes(ops) <= count_inserts(ops),
        apply_ops(Map::<u64, Val>::empty(), ops).dom().finite(),
        apply_ops(Map::<u64, Val>::empty(), ops).len() == count_inserts(ops) - count_removes(
            ops,
        ),
{
    let ins = inserted_keys(ops);
    let rem = removed_keys(ops);
    lemma_history_dom(Map::<u64, Val>::empty(), ops);
    lemma_key_set_cards(ops);
    assert(rem.subset_of(ins)) by {
        assert forall|k: u64| rem.contains(k) implies ins.contains(k) by {
            lemma_removed_membership(ops, k);
            lemma_inserted_membership(ops, k);
            let i = choose|i: int|
                0 <= i < ops.len() && (#[trigger] ops[i]) is Remove && op_key(ops[i]) == k;
            let j = choose|j: int|
                0 <= j < i && (#[trigger] ops[j]) is Insert && op_key(ops[j]) == op_key(ops[i]);
            assert(ops[j] is Insert && op_key(ops[j]) == k);
        }
    }
    assert(apply_ops(Map::<u64, Val>::empty(), ops).dom() =~= ins.difference(rem));
    lemma_difference_card(ins, rem);
}

} // verus!
