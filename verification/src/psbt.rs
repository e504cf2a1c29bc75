//! In-memory transaction templates: partially built, unsigned transactions
//! carrying the metadata a later signing stage needs (amounts, scripts and
//! key-derivation hints), together with spec-level equivalence predicates
//! and verified deep-clone functions for them.

use vstd::prelude::*;

verus! {

/// Identifier of a transaction under the standard transaction-id rule.
#[derive(Clone, Copy, Debug)]
pub struct Txid {
    pub bytes: [u8; 32],
}

/// Reference to one output of a prior transaction.
#[derive(Clone, Copy, Debug)]
pub struct Outpoint {
    pub txid: Txid,
    pub vout: u32,
}

/// Value and spending conditions of a spent output, kept beside an input as
/// its witness description.
pub struct TxOut {
    pub value: u64,
    pub script_pubkey: Vec<u8>,
}

/// One key-derivation hint: a public key together with the origin data a
/// signer needs to derive the matching private key.
pub struct KeySource {
    pub pubkey: Vec<u8>,
    pub origin: Vec<u8>,
}

/// Template of a transaction output: amount plus spending conditions.
pub struct Output {
    pub amount: u64,
    pub script: Vec<u8>,
    pub witness_script: Option<Vec<u8>>,
    pub bip32_derivation: Vec<KeySource>,
}

/// Template of a transaction input: the outpoint it spends, its sequence
/// number, and the witness description copied from the spent output.
pub struct Input {
    pub previous_outpoint: Outpoint,
    pub sequence: u32,
    pub witness_utxo: Option<TxOut>,
    pub witness_script: Option<Vec<u8>>,
    pub bip32_derivation: Vec<KeySource>,
}

/// A partially built, unsigned transaction template.
pub struct Psbt {
    pub version: i32,
    pub locktime: u32,
    pub inputs: Vec<Input>,
    pub outputs: Vec<Output>,
}

pub open spec fn txid_eqv(a: Txid, b: Txid) -> bool {
    a.bytes@ == b.bytes@
}

pub open spec fn outpoint_eqv(a: Outpoint, b: Outpoint) -> bool {
    txid_eqv(a.txid, b.txid) && a.vout == b.vout
}

pub open spec fn tx_out_eqv(a: TxOut, b: TxOut) -> bool {
    a.value == b.value && a.script_pubkey@ == b.script_pubkey@
}

pub open spec fn opt_tx_out_eqv(a: Option<TxOut>, b: Option<TxOut>) -> bool {
    match (a, b) {
        (Some(x), Some(y)) => tx_out_eqv(x, y),
        (None, None) => true,
        _ => false,
    }
}

pub open spec fn opt_bytes_eqv(a: Option<Vec<u8>>, b: Option<Vec<u8>>) -> bool {
    match (a, b) {
        (Some(x), Some(y)) => x@ == y@,
        (None, None) => true,
        _ => false,
    }
}

pub open spec fn key_source_eqv(a: KeySource, b: KeySource) -> bool {
    a.pubkey@ == b.pubkey@ && a.origin@ == b.origin@
}

pub open spec fn derivation_eqv(a: Seq<KeySource>, b: Seq<KeySource>) -> bool {
    a.len() == b.len() && forall|i: int| 0 <= i < a.len() ==> key_source_eqv(a[i], b[i])
}

pub open spec fn output_eqv(a: Output, b: Output) -> bool {
    &&& a.amount == b.amount
    &&& a.script@ == b.script@
    &&& opt_bytes_eqv(a.witness_script, b.witness_script)
    &&& derivation_eqv(a.bip32_derivation@, b.bip32_derivation@)
}

pub open spec fn input_eqv(a: Input, b: Input) -> bool {
    &&& outpoint_eqv(a.previous_outpoint, b.previous_outpoint)
    &&& a.sequence == b.sequence
    &&& opt_tx_out_eqv(a.witness_utxo, b.witness_utxo)
    &&& opt_bytes_eqv(a.witness_script, b.witness_script)
    &&& derivation_eqv(a.bip32_derivation@, b.bip32_derivation@)
}

pub open spec fn psbt_eqv(a: Psbt, b: Psbt) -> bool {
    &&& a.version == b.version
    &&& a.locktime == b.locktime
    &&& a.inputs@.len() == b.inputs@.len()
    &&& forall|i: int| 0 <= i < a.inputs@.len() ==> input_eqv(a.inputs@[i], b.inputs@[i])
    &&& a.outputs@.len() == b.outputs@.len()
    &&& forall|i: int| 0 <= i < a.outputs@.len() ==> output_eqv(a.outputs@[i], b.outputs@[i])
}

pub fn clone_bytes(v: &Vec<u8>) -> (r: Vec<u8>)
    ensures
        r@ == v@,
{
    let mut r: Vec<u8> = Vec::new();
    let mut i: usize = 0;
    while i < v.len()
        invariant
            i <= v.len(),
            r@ == v@.subrange(0, i as int),
        decreases v.len() - i,
    {
        r.push(v[i]);
        proof {
            assert(r@ =~= v@.subrange(0, i + 1 as int));
        }
        i += 1;
    }
    proof {
        assert(r@ =~= v@);
    }
    r
}

pub fn clone_opt_bytes(v: &Option<Vec<u8>>) -> (r: Option<Vec<u8>>)
    ensures
        opt_bytes_eqv(r, *v),
{
    match v {
        Some(b) => Some(clone_bytes(b)),
        None => None,
    }
}

pub fn clone_key_sources(v: &Vec<KeySource>) -> (r: Vec<KeySource>)
    ensures
        derivation_eqv(r@, v@),
{
    let mut r: Vec<KeySource> = Vec::new();
    let mut i: usize = 0;
    while i < v.len()
        invariant
            i <= v.len(),
            r@.len() == i,
            forall|j: int| 0 <= j < i ==> key_source_eqv(r@[j], v@[j]),
        decreases v.len() - i,
    {
        let ks = KeySource { pubkey: clone_bytes(&v[i].pubkey), origin: clone_bytes(&v[i].origin) };
        r.push(ks);
        i += 1;
    }
    r
}

pub fn clone_opt_tx_out(v: &Option<TxOut>) -> (r: Option<TxOut>)
    ensures
        opt_tx_out_eqv(r, *v),
{
    match v {
        Some(t) => Some(TxOut { value: t.value, script_pubkey: clone_bytes(&t.script_pubkey) }),
        None => None,
    }
}

pub fn clone_output(o: &Output) -> (r: Output)
    ensures
        output_eqv(r, *o),
{
    Output {
        amount: o.amount,
        script: clone_bytes(&o.script),
        witness_script: clone_opt_bytes(&o.witness_script),
        bip32_derivation: clone_key_sources(&o.bip32_derivation),
    }
}

pub fn clone_input(inp: &Input) -> (r: Input)
    ensures
        input_eqv(r, *inp),
{
    Input {
        previous_outpoint: inp.previous_outpoint,
        sequence: inp.sequence,
        witness_utxo: clone_opt_tx_out(&inp.witness_utxo),
        witness_script: clone_opt_bytes(&inp.witness_script),
        bip32_derivation: clone_key_sources(&inp.bip32_derivation),
    }
}

pub fn clone_psbt(p: &Psbt) -> (r: Psbt)
    ensures
        psbt_eqv(r, *p),
{
    let mut inputs: Vec<Input> = Vec::new();
    let mut i: usize = 0;
    while i < p.inputs.len()
        invariant
            i <= p.inputs@.len(),
            inputs@.len() == i,
            forall|j: int| 0 <= j < i ==> input_eqv(inputs@[j], p.inputs@[j]),
        decreases p.inputs@.len() - i,
    {
        inputs.push(clone_input(&p.inputs[i]));
        i += 1;
    }
    let mut outputs: Vec<Output> = Vec::new();
    let mut k: usize = 0;
    while k < p.outputs.len()
        invariant
            k <= p.outputs@.len(),
            outputs@.len() == k,
            forall|j: int| 0 <= j < k ==> output_eqv(outputs@[j], p.outputs@[j]),
        decreases p.outputs@.len() - k,
    {
        outputs.push(clone_output(&p.outputs[k]));
        k += 1;
    }
    Psbt { version: p.version, locktime: p.locktime, inputs, outputs }
}

} // verus!
