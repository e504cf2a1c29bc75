//! The commitment renderer and the HTLC linker: building the commitment
//! transaction template from funding data, header scalars and the output
//! list, and rewriting stored HTLC templates to spend the rendered
//! commitment's outputs once its identifier is known.

use vstd::prelude::*;
use crate::graph::TxGraph;
use crate::graph::TX_ROLE_HTLC_SUCCESS;
use crate::graph::TX_ROLE_HTLC_TIMEOUT;
use crate::psbt::clone_bytes;
use crate::psbt::clone_key_sources;
use crate::psbt::clone_opt_bytes;
use crate::psbt::clone_output;
use crate::psbt::clone_psbt;
use crate::psbt::derivation_eqv;
use crate::psbt::input_eqv;
use crate::psbt::opt_bytes_eqv;
use crate::psbt::opt_tx_out_eqv;
use crate::psbt::output_eqv;
use crate::psbt::outpoint_eqv;
use crate::psbt::psbt_eqv;
use crate::psbt::Input;
use crate::psbt::Outpoint;
use crate::psbt::Output;
use crate::psbt::Psbt;
use crate::psbt::TxOut;
use crate::psbt::Txid;

verus! {

/// What a transaction input contributes to the transaction's identifier:
/// spent txid, spent output index, and sequence number.
pub open spec fn input_essence(i: Input) -> (Seq<u8>, u32, u32) {
    (i.previous_outpoint.txid.bytes@, i.previous_outpoint.vout, i.sequence)
}

/// What a transaction output contributes to the transaction's identifier:
/// amount and script.
pub open spec fn output_essence(o: Output) -> (u64, Seq<u8>) {
    (o.amount, o.script@)
}

/// The 32 bytes of the identifier of the unsigned transaction with the given
/// version, lock time, inputs and outputs.
pub uninterp spec fn txid_of(
    version: i32,
    locktime: u32,
    inputs: Seq<(Seq<u8>, u32, u32)>,
    outputs: Seq<(u64, Seq<u8>)>,
) -> Seq<u8>;

/// The identifier of a template, viewed as an unsigned transaction.
pub open spec fn psbt_txid(p: Psbt) -> Seq<u8> {
    txid_of(
        p.version,
        p.locktime,
        p.inputs@.map_values(|i: Input| input_essence(i)),
        p.outputs@.map_values(|o: Output| output_essence(o)),
    )
}

/// The identifier the rendered commitment transaction of a graph will have.
pub open spec fn cmt_txid(g: TxGraph<'_>) -> Seq<u8> {
    txid_of(
        g.cmt_version,
        g.cmt_locktime,
        seq![
            (
                g.funding_spec().outpoint.txid.bytes@,
                g.funding_spec().outpoint.vout,
                g.cmt_sequence,
            ),
        ],
        g.cmt_outs@.map_values(|o: Output| output_essence(o)),
    )
}

/// Relies on bitcoin::Transaction::txid: the identifier is the digest of the
/// transaction's consensus encoding without witness data (version, inputs
/// with empty script sigs, outputs, lock time), so it is a function of those
/// fields alone.
#[verifier::external_body]
fn compute_txid(p: &Psbt) -> (r: Txid)
    ensures
        r.bytes@ == txid_of(
            p.version,
            p.locktime,
            p.inputs@.map_values(|i: Input| input_essence(i)),
            p.outputs@.map_values(|o: Output| output_essence(o)),
        ),
{
    let input = p.inputs.iter().map(|i| bitcoin::TxIn {
        previous_output: bitcoin::OutPoint {
            txid: <bitcoin::Txid as bitcoin::hashes::Hash>::from_inner(i.previous_outpoint.txid.bytes),
            vout: i.previous_outpoint.vout,
        },
        script_sig: bitcoin::Script::new(),
        sequence: bitcoin::Sequence(i.sequence),
        witness: bitcoin::Witness::new(),
    }).collect();
    let output = p.outputs.iter().map(
        |o| bitcoin::TxOut { value: o.amount, script_pubkey: o.script.clone().into() },
    ).collect();
    let tx =
        bitcoin::Transaction { version: p.version, lock_time: bitcoin::PackedLockTime(p.locktime), input, output };
    Txid { bytes: <bitcoin::Txid as bitcoin::hashes::Hash>::into_inner(tx.txid()) }
}

/// The commitment transaction a graph renders: header scalars from the
/// graph; one input spending the funding outpoint, with empty script data
/// and the witness description copied from the capitalizing funding output;
/// and the graph's output templates, in order.
pub open spec fn is_rendered_cmt(g: TxGraph<'_>, p: Psbt) -> bool {
    let f = g.funding_spec();
    let fout = f.psbt.outputs@[f.output as int];
    &&& p.version == g.cmt_version
    &&& p.locktime == g.cmt_locktime
    &&& p.inputs@.len() == 1
    &&& outpoint_eqv(p.inputs@[0].previous_outpoint, f.outpoint)
    &&& p.inputs@[0].sequence == g.cmt_sequence
    &&& match p.inputs@[0].witness_utxo {
        Some(u) => u.value == fout.amount && u.script_pubkey@ == fout.script@,
        None => false,
    }
    &&& opt_bytes_eqv(p.inputs@[0].witness_script, fout.witness_script)
    &&& derivation_eqv(p.inputs@[0].bip32_derivation@, fout.bip32_derivation@)
    &&& p.outputs@.len() == g.cmt_outs@.len()
    &&& forall|i: int| 0 <= i < g.cmt_outs@.len() ==> output_eqv(p.outputs@[i], g.cmt_outs@[i])
}

/// A rendered commitment transaction of a graph has the graph's identifier.
pub proof fn lemma_rendered_txid(g: TxGraph<'_>, p: Psbt)
    requires
        is_rendered_cmt(g, p),
    ensures
        psbt_txid(p) == cmt_txid(g),
{
    let f = g.funding_spec();
    assert(p.inputs@.map_values(|i: Input| input_essence(i)) =~~= seq![
        (f.outpoint.txid.bytes@, f.outpoint.vout, g.cmt_sequence),
    ]);
    assert(p.outputs@.map_values(|o: Output| output_essence(o)) =~~= g.cmt_outs@.map_values(
        |o: Output| output_essence(o),
    ));
}

/// A clone of a stored template whose first input was rewritten to spend
/// output `vout` of the transaction identified by `txid`; every other field
/// is kept.
pub open spec fn is_linked_clone(r: Psbt, stored: Psbt, txid: Seq<u8>, vout: u32) -> bool {
    &&& r.version == stored.version
    &&& r.locktime == stored.locktime
    &&& r.outputs@.len() == stored.outputs@.len()
    &&& forall|i: int| 0 <= i < r.outputs@.len() ==> output_eqv(r.outputs@[i], stored.outputs@[i])
    &&& stored.inputs@.len() >= 1
    &&& r.inputs@.len() == stored.inputs@.len()
    &&& r.inputs@[0].previous_outpoint.txid.bytes@ == txid
    &&& r.inputs@[0].previous_outpoint.vout == vout
    &&& r.inputs@[0].sequence == stored.inputs@[0].sequence
    &&& opt_tx_out_eqv(r.inputs@[0].witness_utxo, stored.inputs@[0].witness_utxo)
    &&& opt_bytes_eqv(r.inputs@[0].witness_script, stored.inputs@[0].witness_script)
    &&& derivation_eqv(r.inputs@[0].bip32_derivation@, stored.inputs@[0].bip32_derivation@)
    &&& forall|i: int| 1 <= i < r.inputs@.len() ==> input_eqv(r.inputs@[i], stored.inputs@[i])
}

/// The templates of a role that link to the first `n` outputs of the
/// commitment transaction, oldest output first, each with the output index
/// it spends; output index `m` is looked up at sequence number `m + 1`,
/// sequence 0 being reserved.
pub open spec fn linked_hits(g: TxGraph<'_>, role: u16, n: int) -> Seq<(Psbt, int)>
    decreases n,
{
    if n <= 0 {
        Seq::empty()
    } else if g.store_map().contains_key((role, n as u64)) {
        linked_hits(g, role, n - 1).push((g.store_map()[(role, n as u64)], n - 1))
    } else {
        linked_hits(g, role, n - 1)
    }
}

/// Every HTLC template stored at a sequence number the linker will look up
/// has an input to rewrite.
pub open spec fn htlc_linkable(g: TxGraph<'_>) -> bool {
    forall|role: u16, n: int|
        (role == TX_ROLE_HTLC_TIMEOUT || role == TX_ROLE_HTLC_SUCCESS) && 1 <= n
            <= g.cmt_outs@.len() && #[trigger] g.store_map().contains_key((role, n as u64))
            ==> g.store_map()[(role, n as u64)].inputs@.len() >= 1
}

impl<'channel> TxGraph<'channel> {
    /// Renders the commitment transaction from the funding outpoint, the
    /// stored header scalars and the stored output templates; it never
    /// fails, whatever state the public mutators can reach, and identical
    /// graph state always renders the same transaction.
    pub fn render_cmt(&self) -> (r: Psbt)
        requires
            self.wf(),
        ensures
            is_rendered_cmt(*self, r),
    {
        let f = self.funding();
        let fout = &f.psbt.outputs[f.output];
        let first = Input {
            previous_outpoint: f.outpoint,
            sequence: self.cmt_sequence,
            witness_utxo: Some(
                TxOut { value: fout.amount, script_pubkey: clone_bytes(&fout.script) },
            ),
            witness_script: clone_opt_bytes(&fout.witness_script),
            bip32_derivation: clone_key_sources(&fout.bip32_derivation),
        };
        let mut inputs: Vec<Input> = Vec::new();
        inputs.push(first);
        let mut outputs: Vec<Output> = Vec::new();
        let mut i: usize = 0;
        while i < self.cmt_outs.len()
            invariant
                i <= self.cmt_outs@.len(),
                outputs@.len() == i,
                forall|j: int| 0 <= j < i ==> output_eqv(outputs@[j], self.cmt_outs@[j]),
            decreases self.cmt_outs@.len() - i,
        {
            outputs.push(clone_output(&self.cmt_outs[i]));
            i = i + 1;
        }
        Psbt { version: self.cmt_version, locktime: self.cmt_locktime, inputs, outputs }
    }

    /// Renders the commitment transaction followed by a clone of every
    /// stored template in ascending (role, sequence number) order, with no
    /// input rewriting.
    pub fn render(&self) -> (r: Vec<Psbt>)
        requires
            self.wf(),
        ensures
            r@.len() == 1 + self.store_seq().len(),
            is_rendered_cmt(*self, r@[0]),
            forall|i: int|
                0 <= i < self.store_seq().len() ==> psbt_eqv(r@[i + 1], self.store_seq()[i].psbt),
    {
        let mut txes: Vec<Psbt> = Vec::new();
        txes.push(self.render_cmt());
        let mut i: usize = 0;
        while i < self.graph.len()
            invariant
                self.wf(),
                i <= self.store_seq().len(),
                txes@.len() == 1 + i,
                is_rendered_cmt(*self, txes@[0]),
                forall|j: int| 0 <= j < i ==> psbt_eqv(txes@[j + 1], self.store_seq()[j].psbt),
            decreases self.store_seq().len() - i,
        {
            txes.push(clone_psbt(&self.graph[i].psbt));
            i = i + 1;
        }
        txes
    }

    /// One linker pass: appends, for each commitment output index `m` in
    /// ascending order, a clone of the template stored at (role, `m + 1`),
    /// if any, rewritten to spend output `m` of the transaction identified
    /// by `cid`.
    fn link_pass(&self, role: u16, cid: Txid, txes: &mut Vec<Psbt>)
        requires
            self.wf(),
            self.cmt_outs@.len() <= u32::MAX,
            role == TX_ROLE_HTLC_TIMEOUT || role == TX_ROLE_HTLC_SUCCESS,
            htlc_linkable(*self),
        ensures
            ({
                let hits = linked_hits(*self, role, self.cmt_outs@.len() as int);
                &&& final(txes)@.len() == old(txes)@.len() + hits.len()
                &&& forall|j: int| 0 <= j < old(txes)@.len() ==> final(txes)@[j] == old(txes)@[j]
                &&& forall|j: int|
                    0 <= j < hits.len() ==> is_linked_clone(
                        final(txes)@[old(txes)@.len() + j],
                        hits[j].0,
                        cid.bytes@,
                        hits[j].1 as u32,
                    )
            }),
    {
        let n = self.cmt_outs.len();
        let ghost base = old(txes)@.len();
        let mut m: usize = 0;
        while m < n
            invariant
                self.wf(),
                htlc_linkable(*self),
                role == TX_ROLE_HTLC_TIMEOUT || role == TX_ROLE_HTLC_SUCCESS,
                n == self.cmt_outs@.len(),
                n <= u32::MAX,
                m <= n,
                base == old(txes)@.len(),
                txes@.len() == base + linked_hits(*self, role, m as int).len(),
                forall|j: int| 0 <= j < base ==> txes@[j] == old(txes)@[j],
                forall|j: int|
                    0 <= j < linked_hits(*self, role, m as int).len() ==> is_linked_clone(
                        txes@[base + j],
                        linked_hits(*self, role, m as int)[j].0,
                        cid.bytes@,
                        linked_hits(*self, role, m as int)[j].1 as u32,
                    ),
            decreases n - m,
        {
            let seq_no: u64 = (m as u64) + 1;
            let ghost nn: int = m as int + 1;
            proof {
                assert(seq_no == nn as u64);
            }
            match self.tx(role, seq_no) {
                Some(p) => {
                    proof {
                        assert(self.store_map().contains_key((role, nn as u64)));
                        assert(self.store_map()[(role, nn as u64)].inputs@.len() >= 1);
                    }
                    let mut c = clone_psbt(p);
                    let ghost c0 = c;
                    let head = c.inputs.remove(0);
                    let relinked = Input {
                        previous_outpoint: Outpoint { txid: cid, vout: m as u32 },
                        sequence: head.sequence,
                        witness_utxo: head.witness_utxo,
                        witness_script: head.witness_script,
                        bip32_derivation: head.bip32_derivation,
                    };
                    c.inputs.insert(0, relinked);
                    proof {
                        assert(c.inputs@ =~= c0.inputs@.update(0, relinked));
                        assert(is_linked_clone(c, *p, cid.bytes@, m as u32));
                    }
                    txes.push(c);
                    proof {
                        assert(linked_hits(*self, role, nn) == linked_hits(
                            *self,
                            role,
                            m as int,
                        ).push((self.store_map()[(role, nn as u64)], m as int)));
                    }
                },
                None => {
                    proof {
                        assert(!self.store_map().contains_key((role, nn as u64)));
                        assert(linked_hits(*self, role, nn) == linked_hits(*self, role, m as int));
                    }
                },
            }
            m = m + 1;
        }
    }

    /// Renders the commitment transaction and follows it by the HTLC
    /// templates that link to it: for each commitment output index `m` in
    /// ascending order, every HTLC-timeout template stored at sequence
    /// number `m + 1` is cloned and rewritten to spend output `m` of the
    /// commitment transaction; a second, independent pass does the same for
    /// the HTLC-success role. Only clones are rewritten: the store is never
    /// changed, so repeated calls are idempotent.
    pub fn render_cmt_htlcs(&self) -> (r: Vec<Psbt>)
        requires
            self.wf(),
            self.cmt_outs@.len() <= u32::MAX,
            htlc_linkable(*self),
        ensures
            ({
                let n = self.cmt_outs@.len() as int;
                let th = linked_hits(*self, TX_ROLE_HTLC_TIMEOUT, n);
                let sh = linked_hits(*self, TX_ROLE_HTLC_SUCCESS, n);
                &&& r@.len() == 1 + th.len() + sh.len()
                &&& is_rendered_cmt(*self, r@[0])
                &&& forall|j: int|
                    0 <= j < th.len() ==> is_linked_clone(
                        r@[1 + j],
                        th[j].0,
                        cmt_txid(*self),
                        th[j].1 as u32,
                    )
                &&& forall|j: int|
                    0 <= j < sh.len() ==> is_linked_clone(
                        r@[1 + th.len() + j],
                        sh[j].0,
                        cmt_txid(*self),
                        sh[j].1 as u32,
                    )
            }),
    {
        let mut txes: Vec<Psbt> = Vec::new();
        let cmt = self.render_cmt();
        let cid = compute_txid(&cmt);
        proof {
            lemma_rendered_txid(*self, cmt);
            assert(cid.bytes@ == cmt_txid(*self));
        }
        txes.push(cmt);
        self.link_pass(TX_ROLE_HTLC_TIMEOUT, cid, &mut txes);
        self.link_pass(TX_ROLE_HTLC_SUCCESS, cid, &mut txes);
        txes
    }
}

} // verus!
