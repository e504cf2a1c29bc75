//! The graph store: an ordered, two-level index from (role, sequence number)
//! to transaction templates, held as one flat sequence of entries sorted by
//! the composite key, with upsert, lookup and counting operations.

use vstd::prelude::*;
use crate::funding::Funding;
use crate::psbt::Output;
use crate::psbt::Psbt;

verus! {

/// Code of the commitment role.
pub const TX_ROLE_COMMITMENT: u16 = 0;

/// Code of the HTLC-timeout role.
pub const TX_ROLE_HTLC_TIMEOUT: u16 = 1;

/// Code of the HTLC-success role.
pub const TX_ROLE_HTLC_SUCCESS: u16 = 2;

/// The well-known categories of stored transaction templates.
#[derive(Clone, Copy, Debug, PartialEq, Eq, Structural)]
pub enum TxType {
    /// The commitment transaction itself (never stored; always re-rendered).
    Commitment,
    /// A second-stage HTLC transaction, timeout variant.
    HtlcTimeout,
    /// A second-stage HTLC transaction, success variant.
    HtlcSuccess,
}

impl TxType {
    /// The 16-bit code of the category.
    pub open spec fn spec_code(self) -> u16 {
        match self {
            TxType::Commitment => TX_ROLE_COMMITMENT,
            TxType::HtlcTimeout => TX_ROLE_HTLC_TIMEOUT,
            TxType::HtlcSuccess => TX_ROLE_HTLC_SUCCESS,
        }
    }
}

/// A category key of the store, convertible to a 16-bit code. Extensible:
/// further roles can be added by keying the store with fresh codes directly.
pub trait TxRole: Sized {
    /// The 16-bit code this role stands for.
    spec fn role_code(&self) -> u16;

    /// Returns the 16-bit code of this role.
    fn to_code(&self) -> (c: u16)
        ensures
            c == self.role_code(),
    ;
}

/// A sequence-number key of the store, convertible to an unsigned 64-bit
/// counter.
pub trait TxIndex: Sized {
    /// The 64-bit counter this index stands for.
    spec fn index_value(&self) -> u64;

    /// Returns the 64-bit counter of this index.
    fn to_index(&self) -> (v: u64)
        ensures
            v == self.index_value(),
    ;
}

impl TxRole for u16 {
    open spec fn role_code(&self) -> u16 {
        *self
    }

    fn to_code(&self) -> u16 {
        *self
    }
}

impl TxRole for TxType {
    open spec fn role_code(&self) -> u16 {
        self.spec_code()
    }

    fn to_code(&self) -> u16 {
        match self {
            TxType::Commitment => TX_ROLE_COMMITMENT,
            TxType::HtlcTimeout => TX_ROLE_HTLC_TIMEOUT,
            TxType::HtlcSuccess => TX_ROLE_HTLC_SUCCESS,
        }
    }
}

impl TxIndex for u64 {
    open spec fn index_value(&self) -> u64 {
        *self
    }

    fn to_index(&self) -> u64 {
        *self
    }
}

/// One stored template together with its position in the two-level index.
pub struct GraphEntry {
    /// The role code the template is filed under.
    pub role: u16,
    /// The sequence number within the role.
    pub index: u64,
    /// The stored template.
    pub psbt: Psbt,
}

/// The composite key of an entry.
pub open spec fn entry_key(e: GraphEntry) -> (u16, u64) {
    (e.role, e.index)
}

/// Strict ordering of composite keys: ascending role, then ascending
/// sequence number within a role.
pub open spec fn key_lt(a: (u16, u64), b: (u16, u64)) -> bool {
    a.0 < b.0 || (a.0 == b.0 && a.1 < b.1)
}

/// Entries in strictly ascending key order; in particular all keys differ.
pub open spec fn sorted_strict(s: Seq<GraphEntry>) -> bool {
    forall|i: int, j: int| 0 <= i < j < s.len() ==> key_lt(entry_key(s[i]), entry_key(s[j]))
}

/// The mapping a sequence of entries denotes; a later entry wins over an
/// earlier one of the same key.
pub open spec fn map_of(s: Seq<GraphEntry>) -> Map<(u16, u64), Psbt>
    decreases s.len(),
{
    if s.len() == 0 {
        Map::empty()
    } else {
        map_of(s.drop_last()).insert(entry_key(s.last()), s.last().psbt)
    }
}

/// The number of entries of a role in a sequence of entries.
pub open spec fn role_count(s: Seq<GraphEntry>, role: u16) -> int
    decreases s.len(),
{
    if s.len() == 0 {
        0
    } else {
        role_count(s.drop_last(), role) + if s.last().role == role {
            1int
        } else {
            0int
        }
    }
}

/// A key is in the denoted map exactly when some entry carries it.
pub proof fn lemma_map_of_contains(s: Seq<GraphEntry>, k: (u16, u64))
    ensures
        map_of(s).contains_key(k) <==> exists|i: int| 0 <= i < s.len() && entry_key(s[i]) == k,
    decreases s.len(),
{
    if s.len() == 0 {
    } else {
        lemma_map_of_contains(s.drop_last(), k);
        if entry_key(s.last()) == k {
            assert(entry_key(s[s.len() - 1]) == k);
        } else {
            if map_of(s).contains_key(k) {
                let i = choose|i: int|
                    0 <= i < s.drop_last().len() && entry_key(s.drop_last()[i]) == k;
                assert(entry_key(s[i]) == k);
            }
            if exists|i: int| 0 <= i < s.len() && entry_key(s[i]) == k {
                let i = choose|i: int| 0 <= i < s.len() && entry_key(s[i]) == k;
                assert(i < s.len() - 1);
                assert(entry_key(s.drop_last()[i]) == k);
            }
        }
    }
}

/// An entry whose key no later entry repeats gives the denoted map's value
/// at its key.
pub proof fn lemma_map_of_get(s: Seq<GraphEntry>, i: int)
    requires
        0 <= i < s.len(),
        forall|j: int| i < j < s.len() ==> entry_key(s[j]) != entry_key(s[i]),
    ensures
        map_of(s).contains_key(entry_key(s[i])),
        map_of(s)[entry_key(s[i])] == s[i].psbt,
    decreases s.len(),
{
    if i == s.len() - 1 {
    } else {
        assert(entry_key(s[s.len() - 1]) != entry_key(s[i]));
        assert(s.drop_last()[i] == s[i]);
        lemma_map_of_get(s.drop_last(), i);
    }
}

/// With pairwise distinct keys, the denoted map is finite and has exactly
/// one slot per entry.
pub proof fn lemma_map_of_len(s: Seq<GraphEntry>)
    requires
        forall|i: int, j: int| 0 <= i < j < s.len() ==> entry_key(s[i]) != entry_key(s[j]),
    ensures
        map_of(s).dom().finite(),
        map_of(s).len() == s.len(),
    decreases s.len(),
{
    if s.len() == 0 {
        assert(map_of(s).dom() =~= Set::<(u16, u64)>::empty());
    } else {
        lemma_map_of_len(s.drop_last());
        lemma_map_of_contains(s.drop_last(), entry_key(s.last()));
        assert(!map_of(s.drop_last()).contains_key(entry_key(s.last())));
    }
}

/// Inserting an entry with a fresh key anywhere in the sequence inserts its
/// binding into the denoted map.
pub proof fn lemma_map_of_insert(s: Seq<GraphEntry>, pos: int, e: GraphEntry)
    requires
        0 <= pos <= s.len(),
        forall|i: int| 0 <= i < s.len() ==> entry_key(s[i]) != entry_key(e),
    ensures
        map_of(s.insert(pos, e)) == map_of(s).insert(entry_key(e), e.psbt),
    decreases s.len(),
{
    let s2 = s.insert(pos, e);
    if pos == s.len() {
        assert(s2.drop_last() =~= s);
        assert(s2.last() == e);
    } else {
        assert(s2.last() == s[s.len() - 1]);
        assert(s2.drop_last() =~= s.drop_last().insert(pos, e));
        lemma_map_of_insert(s.drop_last(), pos, e);
        assert(entry_key(s[s.len() - 1]) != entry_key(e));
        assert(map_of(s2) =~= map_of(s).insert(entry_key(e), e.psbt));
    }
}

/// Replacing the one entry of a key rebinds that key in the denoted map.
pub proof fn lemma_map_of_update(s: Seq<GraphEntry>, pos: int, e: GraphEntry)
    requires
        0 <= pos < s.len(),
        entry_key(e) == entry_key(s[pos]),
        forall|i: int, j: int| 0 <= i < j < s.len() ==> entry_key(s[i]) != entry_key(s[j]),
    ensures
        map_of(s.update(pos, e)) == map_of(s).insert(entry_key(e), e.psbt),
    decreases s.len(),
{
    let s2 = s.update(pos, e);
    if pos == s.len() - 1 {
        assert(s2.drop_last() =~= s.drop_last());
        assert(s2.last() == e);
        assert(map_of(s2) =~= map_of(s).insert(entry_key(e), e.psbt));
    } else {
        assert(s2.drop_last() =~= s.drop_last().update(pos, e));
        assert(entry_key(s.drop_last()[pos]) == entry_key(s[pos]));
        lemma_map_of_update(s.drop_last(), pos, e);
        assert(s2.last() == s.last());
        assert(entry_key(s[s.len() - 1]) != entry_key(e));
        assert(map_of(s2) =~= map_of(s).insert(entry_key(e), e.psbt));
    }
}

/// Strictly ascending keys are pairwise distinct.
pub proof fn lemma_sorted_distinct(s: Seq<GraphEntry>)
    requires
        sorted_strict(s),
    ensures
        forall|i: int, j: int| 0 <= i < j < s.len() ==> entry_key(s[i]) != entry_key(s[j]),
{
    assert forall|i: int, j: int| 0 <= i < j < s.len() implies entry_key(s[i]) != entry_key(
        s[j],
    ) by {
        assert(key_lt(entry_key(s[i]), entry_key(s[j])));
    }
}

/// In a sorted sequence, a key smaller than the first not-smaller entry is
/// carried by no entry at all.
pub proof fn lemma_sorted_absent(s: Seq<GraphEntry>, k: (u16, u64), pos: int)
    requires
        sorted_strict(s),
        0 <= pos <= s.len(),
        forall|i: int| 0 <= i < pos ==> key_lt(entry_key(s[i]), k),
        pos < s.len() ==> !key_lt(entry_key(s[pos]), k) && entry_key(s[pos]) != k,
    ensures
        forall|i: int| 0 <= i < s.len() ==> entry_key(s[i]) != k,
{
    assert forall|i: int| 0 <= i < s.len() implies entry_key(s[i]) != k by {
        if i >= pos {
            assert(!key_lt(entry_key(s[pos]), k));
            if i > pos {
                assert(key_lt(entry_key(s[pos]), entry_key(s[i])));
            }
        }
    }
}

/// The transaction graph of one channel: funding data, the commitment
/// transaction's header scalars and output list, and the store of
/// second-stage transaction templates.
pub struct TxGraph<'channel> {
    /// Read-only funding data the graph is bound to; the graph borrows it
    /// for its whole life, never outliving nor mutating it.
    pub funding: &'channel Funding,
    /// Version field of the commitment transaction.
    pub cmt_version: i32,
    /// Lock time field of the commitment transaction.
    pub cmt_locktime: u32,
    /// Sequence number of the commitment transaction's sole input.
    pub cmt_sequence: u32,
    /// Output templates of the commitment transaction, in output order.
    pub cmt_outs: Vec<Output>,
    /// The store: entries sorted strictly by (role, sequence number); treat
    /// it through the methods below, which keep the order.
    pub graph: Vec<GraphEntry>,
}

impl<'channel> TxGraph<'channel> {
    /// The ordered sequence of stored entries.
    pub open spec fn store_seq(self) -> Seq<GraphEntry> {
        self.graph@
    }

    /// The mapping from (role code, sequence number) to stored template.
    pub open spec fn store_map(self) -> Map<(u16, u64), Psbt> {
        map_of(self.store_seq())
    }

    /// The funding data the graph was created around.
    pub open spec fn funding_spec(self) -> Funding {
        *self.funding
    }

    /// Well-formed: valid funding data, and the store in strictly ascending
    /// key order.
    pub open spec fn wf(self) -> bool {
        self.funding_spec().wf() && sorted_strict(self.store_seq())
    }

    /// Creates the graph of a channel around its funding data, with zeroed
    /// commitment header fields, no outputs and an empty store.
    pub fn from_funding(funding: &'channel Funding) -> (r: TxGraph<'channel>)
        requires
            funding.wf(),
        ensures
            r.wf(),
            r.funding_spec() == *funding,
            r.cmt_version == 0,
            r.cmt_locktime == 0,
            r.cmt_sequence == 0,
            r.cmt_outs@ == Seq::<Output>::empty(),
            r.store_seq() == Seq::<GraphEntry>::empty(),
            r.store_map() == Map::<(u16, u64), Psbt>::empty(),
    {
        let r = TxGraph {
            funding,
            cmt_version: 0,
            cmt_locktime: 0,
            cmt_sequence: 0,
            cmt_outs: Vec::new(),
            graph: Vec::new(),
        };
        proof {
            assert(r.cmt_outs@ =~= Seq::<Output>::empty());
            assert(r.store_seq() =~= Seq::<GraphEntry>::empty());
        }
        r
    }

    /// The funding data the graph was created around.
    pub fn funding(&self) -> (f: &'channel Funding)
        ensures
            *f == self.funding_spec(),
    {
        self.funding
    }

    /// The number of stored entries.
    pub fn len(&self) -> (r: usize)
        requires
            self.wf(),
        ensures
            r == self.store_seq().len(),
            r == self.store_map().len(),
            self.store_map().dom().finite(),
    {
        proof {
            lemma_sorted_distinct(self.store_seq());
            lemma_map_of_len(self.store_seq());
        }
        self.graph.len()
    }

    /// Whether nothing has ever been stored: inserts always succeed and no
    /// deletion exists, so this holds exactly until the first insert.
    pub fn is_empty(&self) -> (r: bool)
        requires
            self.wf(),
        ensures
            r <==> self.store_seq().len() == 0,
            r <==> self.store_map().len() == 0,
    {
        proof {
            lemma_sorted_distinct(self.store_seq());
            lemma_map_of_len(self.store_seq());
        }
        self.graph.len() == 0
    }

    /// The number of entries currently stored for a role: a count of
    /// entries, not the highest sequence number in use.
    pub fn last_index<R: TxRole>(&self, role: R) -> (r: usize)
        requires
            self.wf(),
        ensures
            r == role_count(self.store_seq(), role.role_code()),
    {
        let rc = role.to_code();
        let ghost s = self.store_seq();
        let mut count: usize = 0;
        let mut i: usize = 0;
        while i < self.graph.len()
            invariant
                i <= s.len(),
                count <= i,
                s == self.store_seq(),
                count == role_count(s.subrange(0, i as int), rc),
            decreases s.len() - i,
        {
            proof {
                assert(s.subrange(0, i + 1).drop_last() =~= s.subrange(0, i as int));
                assert(s.subrange(0, i + 1).last() == s[i as int]);
            }
            if self.graph[i].role == rc {
                count = count + 1;
            }
            i = i + 1;
        }
        proof {
            assert(s.subrange(0, s.len() as int) =~= s);
        }
        count
    }

    /// The position of the first entry whose key is not below (role, index);
    /// the length when every key is below it.
    fn lower_bound(&self, role: u16, index: u64) -> (pos: usize)
        requires
            self.wf(),
        ensures
            pos <= self.store_seq().len(),
            forall|i: int| 0 <= i < pos ==> key_lt(entry_key(self.store_seq()[i]), (role, index)),
            pos < self.store_seq().len() ==> !key_lt(
                entry_key(self.store_seq()[pos as int]),
                (role, index),
            ),
    {
        let mut pos: usize = 0;
        while pos < self.graph.len() && (self.graph[pos].role < role || (self.graph[pos].role
            == role && self.graph[pos].index < index))
            invariant
                pos <= self.store_seq().len(),
                forall|i: int|
                    0 <= i < pos ==> key_lt(entry_key(self.store_seq()[i]), (role, index)),
            decreases self.store_seq().len() - pos,
        {
            pos = pos + 1;
        }
        pos
    }

    /// Looks a template up by role and sequence number; absence is a normal
    /// outcome, not an error.
    pub fn tx<R: TxRole, I: TxIndex>(&self, role: R, index: I) -> (r: Option<&Psbt>)
        requires
            self.wf(),
        ensures
            match r {
                Some(p) => self.store_map().contains_key((role.role_code(), index.index_value()))
                    && *p == self.store_map()[(role.role_code(), index.index_value())],
                None => !self.store_map().contains_key((role.role_code(), index.index_value())),
            },
    {
        let rc = role.to_code();
        let iv = index.to_index();
        let ghost s = self.store_seq();
        let ghost k = (rc, iv);
        let pos = self.lower_bound(rc, iv);
        if pos < self.graph.len() {
            let e = &self.graph[pos];
            if e.role == rc && e.index == iv {
                proof {
                    assert forall|j: int| pos < j < s.len() implies entry_key(s[j]) != entry_key(
                        s[pos as int],
                    ) by {
                        assert(key_lt(entry_key(s[pos as int]), entry_key(s[j])));
                    }
                    lemma_map_of_get(s, pos as int);
                }
                return Some(&e.psbt);
            }
        }
        proof {
            lemma_sorted_absent(s, k, pos as int);
            lemma_map_of_contains(s, k);
        }
        None
    }

    /// Stores a template at (role, sequence number), replacing and returning
    /// whatever the slot held before; upserting never fails.
    pub fn insert_tx<R: TxRole, I: TxIndex>(&mut self, role: R, index: I, psbt: Psbt) -> (r: Option<
        Psbt,
    >)
        requires
            old(self).wf(),
        ensures
            final(self).wf(),
            final(self).store_map() == old(self).store_map().insert(
                (role.role_code(), index.index_value()),
                psbt,
            ),
            final(self).funding_spec() == old(self).funding_spec(),
            final(self).cmt_version == old(self).cmt_version,
            final(self).cmt_locktime == old(self).cmt_locktime,
            final(self).cmt_sequence == old(self).cmt_sequence,
            final(self).cmt_outs == old(self).cmt_outs,
            final(self).store_seq().len() >= 1,
            match r {
                Some(prev) => old(self).store_map().contains_key(
                    (role.role_code(), index.index_value()),
                ) && prev == old(self).store_map()[(role.role_code(), index.index_value())]
                    && final(self).store_seq().len() == old(self).store_seq().len(),
                None => !old(self).store_map().contains_key(
                    (role.role_code(), index.index_value()),
                ) && final(self).store_seq().len() == old(self).store_seq().len() + 1,
            },
    {
        let rc = role.to_code();
        let iv = index.to_index();
        let ghost s0 = old(self).store_seq();
        let ghost k = (rc, iv);
        let pos = self.lower_bound(rc, iv);
        let found = pos < self.graph.len() && self.graph[pos].role == rc && self.graph[pos].index
            == iv;
        if found {
            let old_e = self.graph.remove(pos);
            let new_e = GraphEntry { role: rc, index: iv, psbt };
            self.graph.insert(pos, new_e);
            proof {
                let e = GraphEntry { role: rc, index: iv, psbt };
                assert(self.store_seq() =~= s0.update(pos as int, e));
                assert forall|i: int, j: int|
                    0 <= i < j < s0.len() implies entry_key(s0[i]) != entry_key(s0[j]) by {
                    assert(key_lt(entry_key(s0[i]), entry_key(s0[j])));
                }
                assert forall|i: int, j: int|
                    0 <= i < j < self.store_seq().len() implies key_lt(
                    entry_key(self.store_seq()[i]),
                    entry_key(self.store_seq()[j]),
                ) by {
                    assert(entry_key(s0.update(pos as int, e)[i]) == entry_key(s0[i]));
                    assert(entry_key(s0.update(pos as int, e)[j]) == entry_key(s0[j]));
                }
                lemma_map_of_update(s0, pos as int, e);
                assert forall|j: int| pos < j < s0.len() implies entry_key(s0[j]) != entry_key(
                    s0[pos as int],
                ) by {
                    assert(key_lt(entry_key(s0[pos as int]), entry_key(s0[j])));
                }
                lemma_map_of_get(s0, pos as int);
            }
            Some(old_e.psbt)
        } else {
            let new_e = GraphEntry { role: rc, index: iv, psbt };
            self.graph.insert(pos, new_e);
            proof {
                let e = GraphEntry { role: rc, index: iv, psbt };
                let s2 = s0.insert(pos as int, e);
                assert(self.store_seq() == s2);
                assert(pos < s0.len() ==> entry_key(s0[pos as int]) != k);
                lemma_sorted_absent(s0, k, pos as int);
                assert forall|m: int| pos <= m < s0.len() implies key_lt(
                    k,
                    entry_key(s0[m]),
                ) by {
                    assert(!key_lt(entry_key(s0[pos as int]), k));
                    assert(entry_key(s0[pos as int]) != k);
                    if m > pos {
                        assert(key_lt(entry_key(s0[pos as int]), entry_key(s0[m])));
                    }
                }
                assert forall|i: int, j: int| 0 <= i < j < s2.len() implies key_lt(
                    entry_key(s2[i]),
                    entry_key(s2[j]),
                ) by {
                    if i < pos {
                        assert(s2[i] == s0[i]);
                        assert(key_lt(entry_key(s0[i]), k));
                    } else if i == pos {
                        assert(s2[i] == e);
                    } else {
                        assert(s2[i] == s0[i - 1]);
                    }
                    if j < pos {
                        assert(s2[j] == s0[j]);
                    } else if j == pos {
                        assert(s2[j] == e);
                    } else {
                        assert(s2[j] == s0[j - 1]);
                        assert(key_lt(k, entry_key(s0[j - 1])));
                    }
                }
                lemma_map_of_insert(s0, pos as int, e);
                lemma_map_of_contains(s0, k);
            }
            None
        }
    }

    /// Mutable access to the template at a store position, as handed out by
    /// `vec_mut`; the keys — and with them the store's order — stay
    /// untouched.
    pub fn tx_at_mut(&mut self, pos: usize) -> (p: &mut Psbt)
        requires
            old(self).wf(),
            pos < old(self).store_seq().len(),
        ensures
            *p == old(self).store_seq()[pos as int].psbt,
            final(self).store_seq() == old(self).store_seq().update(
                pos as int,
                GraphEntry {
                    role: old(self).store_seq()[pos as int].role,
                    index: old(self).store_seq()[pos as int].index,
                    psbt: *final(p),
                },
            ),
            final(self).wf(),
            final(self).store_map() == old(self).store_map().insert(
                entry_key(old(self).store_seq()[pos as int]),
                *final(p),
            ),
            final(self).store_seq().len() == old(self).store_seq().len(),
            final(self).funding_spec() == old(self).funding_spec(),
            final(self).cmt_version == old(self).cmt_version,
            final(self).cmt_locktime == old(self).cmt_locktime,
            final(self).cmt_sequence == old(self).cmt_sequence,
            final(self).cmt_outs == old(self).cmt_outs,
    {
        let ghost s0 = self.store_seq();
        let entry = &mut self.graph[pos];
        let p = &mut entry.psbt;
        proof {
            let e2 = GraphEntry {
                role: s0[pos as int].role,
                index: s0[pos as int].index,
                psbt: *final(p),
            };
            assert forall|i: int, j: int|
                0 <= i < j < s0.update(pos as int, e2).len() implies key_lt(
                entry_key(s0.update(pos as int, e2)[i]),
                entry_key(s0.update(pos as int, e2)[j]),
            ) by {
                assert(entry_key(s0.update(pos as int, e2)[i]) == entry_key(s0[i]));
                assert(entry_key(s0.update(pos as int, e2)[j]) == entry_key(s0[j]));
            }
            lemma_sorted_distinct(s0);
            lemma_map_of_update(s0, pos as int, e2);
        }
        p
    }

    /// Mutable lookup by role and sequence number; absence is a normal
    /// outcome. Whatever the caller writes through the reference replaces
    /// the stored template; the key set stays as it was.
    pub fn tx_mut<R: TxRole, I: TxIndex>(&mut self, role: R, index: I) -> (r: Option<&mut Psbt>)
        requires
            old(self).wf(),
        ensures
            match r {
                Some(p) => {
                    &&& old(self).store_map().contains_key(
                        (role.role_code(), index.index_value()),
                    )
                    &&& *p == old(self).store_map()[(role.role_code(), index.index_value())]
                    &&& final(self).wf()
                    &&& final(self).store_map() == old(self).store_map().insert(
                        (role.role_code(), index.index_value()),
                        *final(p),
                    )
                    &&& final(self).store_seq().len() == old(self).store_seq().len()
                    &&& final(self).funding_spec() == old(self).funding_spec()
                    &&& final(self).cmt_version == old(self).cmt_version
                    &&& final(self).cmt_locktime == old(self).cmt_locktime
                    &&& final(self).cmt_sequence == old(self).cmt_sequence
                    &&& final(self).cmt_outs == old(self).cmt_outs
                },
                None => {
                    &&& *final(self) == *old(self)
                    &&& !old(self).store_map().contains_key(
                        (role.role_code(), index.index_value()),
                    )
                },
            },
    {
        let rc = role.to_code();
        let iv = index.to_index();
        let ghost s = self.store_seq();
        let ghost k = (rc, iv);
        let pos = self.lower_bound(rc, iv);
        if pos < self.graph.len() && self.graph[pos].role == rc && self.graph[pos].index == iv {
            proof {
                assert forall|j: int| pos < j < s.len() implies entry_key(s[j]) != entry_key(
                    s[pos as int],
                ) by {
                    assert(key_lt(entry_key(s[pos as int]), entry_key(s[j])));
                }
                lemma_map_of_get(s, pos as int);
            }
            Some(self.tx_at_mut(pos))
        } else {
            proof {
                lemma_sorted_absent(s, k, pos as int);
                lemma_map_of_contains(s, k);
            }
            None
        }
    }

    /// A mutable traversal, materialized eagerly: every stored (role code,
    /// sequence number) pair in ascending order, each with a handle — the
    /// entry's position, for `tx_at_mut` — in place of a live reference, so
    /// that no two mutable references into the store can alias.
    pub fn vec_mut(&self) -> (r: Vec<(u16, u64, usize)>)
        requires
            self.wf(),
        ensures
            r@.len() == self.store_seq().len(),
            forall|i: int|
                0 <= i < r@.len() ==> r@[i].0 == self.store_seq()[i].role && r@[i].1
                    == self.store_seq()[i].index && r@[i].2 == i,
    {
        let mut r: Vec<(u16, u64, usize)> = Vec::new();
        let mut i: usize = 0;
        while i < self.graph.len()
            invariant
                i <= self.store_seq().len(),
                r@.len() == i,
                forall|j: int|
                    0 <= j < i ==> r@[j].0 == self.store_seq()[j].role && r@[j].1
                        == self.store_seq()[j].index && r@[j].2 == j,
            decreases self.store_seq().len() - i,
        {
            let e = &self.graph[i];
            r.push((e.role, e.index, i));
            i = i + 1;
        }
        r
    }
}

} // verus!
