//! Laws the graph obeys, stated over the same views its public contracts
//! use and proved once and for all.

use vstd::prelude::*;
use crate::graph::entry_key;
use crate::graph::key_lt;
use crate::graph::lemma_map_of_contains;
use crate::graph::lemma_map_of_get;
use crate::graph::lemma_map_of_len;
use crate::graph::lemma_sorted_distinct;
use crate::graph::role_count;
use crate::graph::GraphEntry;
use crate::graph::TxGraph;
use crate::psbt::derivation_eqv;
use crate::psbt::input_eqv;
use crate::psbt::key_source_eqv;
use crate::psbt::output_eqv;
use crate::psbt::psbt_eqv;
use crate::psbt::Psbt;
use crate::render::is_rendered_cmt;

verus! {

/// The sum, over every role code below `bound`, of the number of entries
/// stored for that role.
pub open spec fn sum_role_counts(s: Seq<GraphEntry>, bound: int) -> int
    decreases bound,
{
    if bound <= 0 {
        0
    } else {
        sum_role_counts(s, bound - 1) + role_count(s, (bound - 1) as u16)
    }
}

proof fn lemma_sum_counts_empty(s: Seq<GraphEntry>, bound: int)
    requires
        s.len() == 0,
    ensures
        sum_role_counts(s, bound) == 0,
    decreases bound,
{
    if bound > 0 {
        lemma_sum_counts_empty(s, bound - 1);
    }
}

proof fn lemma_sum_counts_step(s: Seq<GraphEntry>, bound: int)
    requires
        s.len() > 0,
        bound <= 0x10000,
    ensures
        sum_role_counts(s, bound) == sum_role_counts(s.drop_last(), bound) + if (
        s.last().role as int) < bound {
            1int
        } else {
            0int
        },
    decreases bound,
{
    if bound > 0 {
        lemma_sum_counts_step(s, bound - 1);
    }
}

/// Count consistency: the total number of stored templates equals the sum,
/// over all 2^16 role codes, of the per-role count that `last_index`
/// returns.
pub proof fn lemma_count_consistency(s: Seq<GraphEntry>)
    ensures
        sum_role_counts(s, 0x10000) == s.len(),
    decreases s.len(),
{
    if s.len() == 0 {
        lemma_sum_counts_empty(s, 0x10000);
    } else {
        lemma_count_consistency(s.drop_last());
        lemma_sum_counts_step(s, 0x10000);
        assert((s.last().role as int) < 0x10000);
    }
}

/// Insert-then-lookup: storing a template at a (role, sequence number) key
/// and looking the same key up yields exactly that template. `insert_tx`
/// ensures the store's map becomes `m.insert(..)`, and `tx` returns the
/// map's value at the key.
pub proof fn lemma_insert_then_lookup(m: Map<(u16, u64), Psbt>, role: u16, index: u64, t: Psbt)
    ensures
        m.insert((role, index), t).contains_key((role, index)),
        m.insert((role, index), t)[(role, index)] == t,
{
}

/// Overwrite returns the prior value: after one insert at a key, the store
/// holds the first template at that key, so a second insert at the same
/// key returns the first template — by `insert_tx`'s contract — and leaves
/// the second one stored.
pub proof fn lemma_overwrite_returns_prior(
    m: Map<(u16, u64), Psbt>,
    role: u16,
    index: u64,
    t1: Psbt,
    t2: Psbt,
)
    ensures
        m.insert((role, index), t1).contains_key((role, index)),
        m.insert((role, index), t1)[(role, index)] == t1,
        m.insert((role, index), t1).insert((role, index), t2)[(role, index)] == t2,
{
}

/// Emptiness: the store holds no template exactly when its map is empty; a
/// fresh graph starts that way, inserts always succeed, and no operation
/// removes an entry, so `is_empty` holds exactly until the first insert.
pub proof fn lemma_emptiness(g: TxGraph<'_>)
    requires
        g.wf(),
    ensures
        g.store_seq().len() == 0 <==> g.store_map() == Map::<(u16, u64), Psbt>::empty(),
{
    lemma_sorted_distinct(g.store_seq());
    lemma_map_of_len(g.store_seq());
    if g.store_seq().len() == 0 {
        assert(g.store_map() =~= Map::<(u16, u64), Psbt>::empty());
    } else {
        assert(g.store_map().len() >= 1);
        assert(Map::<(u16, u64), Psbt>::empty().len() == 0);
    }
}

/// Iterator completeness: the triples the ordered iterator yields — the
/// store's entry `i` at iterator position `i` — are exactly `len()` many,
/// their keys strictly ascending by role and then sequence number, every
/// (role, sequence number) pair of the store appearing exactly once with
/// its stored template.
pub proof fn lemma_iterator_complete(g: TxGraph<'_>)
    requires
        g.wf(),
    ensures
        g.store_map().dom().finite(),
        g.store_map().len() == g.store_seq().len(),
        forall|i: int, j: int|
            0 <= i < j < g.store_seq().len() ==> key_lt(
                entry_key(g.store_seq()[i]),
                entry_key(g.store_seq()[j]),
            ),
        forall|i: int|
            0 <= i < g.store_seq().len() ==> #[trigger] g.store_map().contains_key(
                entry_key(g.store_seq()[i]),
            ) && g.store_map()[entry_key(g.store_seq()[i])] == g.store_seq()[i].psbt,
        forall|k: (u16, u64)|
            #[trigger] g.store_map().contains_key(k) ==> exists|i: int|
                0 <= i < g.store_seq().len() && entry_key(#[trigger] g.store_seq()[i]) == k,
{
    let s = g.store_seq();
    lemma_sorted_distinct(s);
    lemma_map_of_len(s);
    assert forall|i: int| 0 <= i < s.len() implies #[trigger] g.store_map().contains_key(
        entry_key(s[i]),
    ) && g.store_map()[entry_key(s[i])] == s[i].psbt by {
        lemma_map_of_get(s, i);
    }
    assert forall|k: (u16, u64)| #[trigger] g.store_map().contains_key(k) implies exists|i: int|
        0 <= i < s.len() && entry_key(#[trigger] s[i]) == k by {
        lemma_map_of_contains(s, k);
    }
}

/// Render determinism: two commitment transactions rendered from the same
/// graph state agree in every field, so identical state always renders the
/// identical unsigned transaction.
pub proof fn lemma_render_deterministic(g: TxGraph<'_>, p1: Psbt, p2: Psbt)
    requires
        is_rendered_cmt(g, p1),
        is_rendered_cmt(g, p2),
    ensures
        psbt_eqv(p1, p2),
{
    let f = g.funding_spec();
    let fout = f.psbt.outputs@[f.output as int];
    assert forall|i: int| 0 <= i < p1.outputs@.len() implies output_eqv(
        p1.outputs@[i],
        p2.outputs@[i],
    ) by {
        assert(output_eqv(p1.outputs@[i], g.cmt_outs@[i]));
        assert(output_eqv(p2.outputs@[i], g.cmt_outs@[i]));
        lemma_derivation_eqv_trans(
            p1.outputs@[i].bip32_derivation@,
            g.cmt_outs@[i].bip32_derivation@,
            p2.outputs@[i].bip32_derivation@,
        );
    }
    lemma_derivation_eqv_trans(
        p1.inputs@[0].bip32_derivation@,
        fout.bip32_derivation@,
        p2.inputs@[0].bip32_derivation@,
    );
    assert(input_eqv(p1.inputs@[0], p2.inputs@[0]));
    assert forall|i: int| 0 <= i < p1.inputs@.len() implies input_eqv(
        p1.inputs@[i],
        p2.inputs@[i],
    ) by {
        assert(i == 0);
    }
}

/// Two derivation-hint lists each equivalent to a third are equivalent to
/// each other.
proof fn lemma_derivation_eqv_trans(
    a: Seq<crate::psbt::KeySource>,
    b: Seq<crate::psbt::KeySource>,
    c: Seq<crate::psbt::KeySource>,
)
    requires
        derivation_eqv(a, b),
        derivation_eqv(c, b),
    ensures
        derivation_eqv(a, c),
{
    assert forall|i: int| 0 <= i < a.len() implies key_source_eqv(a[i], c[i]) by {
        assert(key_source_eqv(a[i], b[i]));
        assert(key_source_eqv(c[i], b[i]));
    }
}

} // verus!
