//! Tests of the commitment renderer and the HTLC linker, including
//! cross-checks of the transaction identifier against the bitcoin and
//! wallet crates.

use tx_graph::funding::Funding;
use tx_graph::graph::TxGraph;
use tx_graph::graph::TxType;
use tx_graph::psbt::Input;
use tx_graph::psbt::Outpoint;
use tx_graph::psbt::Output;
use tx_graph::psbt::Psbt;
use tx_graph::psbt::Txid;

fn outp(tag: u8, vout: u32) -> Outpoint {
    Outpoint { txid: Txid { bytes: [tag; 32] }, vout }
}

fn out(amount: u64, script: Vec<u8>) -> Output {
    Output { amount, script, witness_script: None, bip32_derivation: vec![] }
}

fn htlc_tmpl(locktime: u32) -> Psbt {
    Psbt {
        version: 2,
        locktime,
        inputs: vec![Input {
            previous_outpoint: outp(0x00, 9),
            sequence: 0,
            witness_utxo: None,
            witness_script: None,
            bip32_derivation: vec![],
        }],
        outputs: vec![out(39_000, vec![0x53])],
    }
}

fn funding() -> Funding {
    Funding {
        outpoint: outp(0xAB, 0),
        psbt: Psbt {
            version: 2,
            locktime: 0,
            inputs: vec![],
            outputs: vec![out(100_000, vec![0x00, 0x14, 0x20])],
        },
        output: 0,
    }
}

/// The graph of the commitment scenario: header (2, 0, 0xFFFFFFFE), funding
/// outpoint `[0xAB; 32]:0`, and two outputs of 40000 and 60000 satoshi.
fn scenario_graph(f: &Funding) -> TxGraph<'_> {
    let mut g = TxGraph::from_funding(f);
    g.cmt_version = 2;
    g.cmt_locktime = 0;
    g.cmt_sequence = 0xFFFF_FFFE;
    g.cmt_outs = vec![out(40_000, vec![0x51]), out(60_000, vec![0x52])];
    g
}

/// The unsigned commitment transaction of `scenario_graph`, built with the
/// bitcoin crate directly.
fn scenario_bitcoin_tx() -> bitcoin::Transaction {
    bitcoin::Transaction {
        version: 2,
        lock_time: bitcoin::PackedLockTime(0),
        input: vec![bitcoin::TxIn {
            previous_output: bitcoin::OutPoint {
                txid: <bitcoin::Txid as bitcoin::hashes::Hash>::from_inner([0xAB; 32]),
                vout: 0,
            },
            script_sig: bitcoin::Script::new(),
            sequence: bitcoin::Sequence(0xFFFF_FFFE),
            witness: bitcoin::Witness::new(),
        }],
        output: vec![
            bitcoin::TxOut { value: 40_000, script_pubkey: bitcoin::Script::from(vec![0x51]) },
            bitcoin::TxOut { value: 60_000, script_pubkey: bitcoin::Script::from(vec![0x52]) },
        ],
    }
}

#[test]
fn commitment_has_the_stated_shape() {
    let f = funding();
    let g = scenario_graph(&f);
    let cmt = g.render_cmt();
    assert_eq!(cmt.version, 2);
    assert_eq!(cmt.locktime, 0);
    assert_eq!(cmt.inputs.len(), 1);
    assert_eq!(cmt.inputs[0].previous_outpoint.txid.bytes, [0xAB; 32]);
    assert_eq!(cmt.inputs[0].previous_outpoint.vout, 0);
    assert_eq!(cmt.inputs[0].sequence, 0xFFFF_FFFE);
    assert_eq!(cmt.outputs.len(), 2);
    assert_eq!(cmt.outputs[0].amount, 40_000);
    assert_eq!(cmt.outputs[1].amount, 60_000);
}

#[test]
fn commitment_copies_the_funding_witness_description() {
    let f = funding();
    let g = scenario_graph(&f);
    let cmt = g.render_cmt();
    let utxo = cmt.inputs[0].witness_utxo.as_ref().expect("witness description");
    assert_eq!(utxo.value, 100_000);
    assert_eq!(utxo.script_pubkey, vec![0x00, 0x14, 0x20]);
}

#[test]
fn rendering_with_no_outputs_succeeds() {
    let f = funding();
    let g = TxGraph::from_funding(&f);
    let cmt = g.render_cmt();
    assert_eq!(cmt.inputs.len(), 1);
    assert!(cmt.outputs.is_empty());
    assert_eq!(g.render_cmt_htlcs().len(), 1);
}

#[test]
fn render_has_one_slot_per_stored_template_plus_the_commitment() {
    let f = funding();
    let mut g = scenario_graph(&f);
    g.insert_tx(1u16, 1u64, htlc_tmpl(1));
    g.insert_tx(2u16, 1u64, htlc_tmpl(2));
    g.insert_tx(7u16, 4u64, htlc_tmpl(3));
    let rendered = g.render();
    assert_eq!(rendered.len(), 1 + g.len());
    assert_eq!(rendered[0].version, 2);
    assert_eq!(rendered[1].locktime, 1);
    assert_eq!(rendered[2].locktime, 2);
    assert_eq!(rendered[3].locktime, 3);
    assert_eq!(rendered[1].inputs[0].previous_outpoint.vout, 9);
}

#[test]
fn htlc_linking_rewrites_the_clone_to_spend_the_commitment() {
    let f = funding();
    let mut g = scenario_graph(&f);
    g.insert_tx(TxType::HtlcTimeout, 1u64, htlc_tmpl(500));
    let txes = g.render_cmt_htlcs();
    assert_eq!(txes.len(), 2);
    let expected = <bitcoin::Txid as bitcoin::hashes::Hash>::into_inner(
        scenario_bitcoin_tx().txid(),
    );
    assert_eq!(txes[1].locktime, 500);
    assert_eq!(txes[1].inputs[0].previous_outpoint.txid.bytes, expected);
    assert_eq!(txes[1].inputs[0].previous_outpoint.vout, 0);
    assert_ne!(txes[1].inputs[0].previous_outpoint.txid.bytes, [0xAB; 32]);
}

#[test]
fn linked_identifier_matches_the_wallet_crate_psbt_identifier() {
    let f = funding();
    let mut g = scenario_graph(&f);
    g.insert_tx(TxType::HtlcSuccess, 2u64, htlc_tmpl(600));
    let txes = g.render_cmt_htlcs();
    assert_eq!(txes.len(), 2);
    let psbt = wallet::psbt::Psbt::with(scenario_bitcoin_tx(), wallet::psbt::PsbtVersion::V0)
        .expect("empty script sig and witness");
    let expected = <bitcoin::Txid as bitcoin::hashes::Hash>::into_inner(psbt.to_txid());
    assert_eq!(txes[1].inputs[0].previous_outpoint.txid.bytes, expected);
    assert_eq!(txes[1].inputs[0].previous_outpoint.vout, 1);
}

#[test]
fn linking_order_is_commitment_then_timeouts_then_successes() {
    let f = funding();
    let mut g = scenario_graph(&f);
    g.insert_tx(TxType::HtlcTimeout, 1u64, htlc_tmpl(10));
    g.insert_tx(TxType::HtlcTimeout, 2u64, htlc_tmpl(11));
    g.insert_tx(TxType::HtlcSuccess, 1u64, htlc_tmpl(20));
    g.insert_tx(TxType::HtlcTimeout, 3u64, htlc_tmpl(99));
    let txes = g.render_cmt_htlcs();
    assert_eq!(txes.len(), 4);
    assert_eq!(txes[1].locktime, 10);
    assert_eq!(txes[1].inputs[0].previous_outpoint.vout, 0);
    assert_eq!(txes[2].locktime, 11);
    assert_eq!(txes[2].inputs[0].previous_outpoint.vout, 1);
    assert_eq!(txes[3].locktime, 20);
    assert_eq!(txes[3].inputs[0].previous_outpoint.vout, 0);
}

#[test]
fn linking_never_mutates_the_store() {
    let f = funding();
    let mut g = scenario_graph(&f);
    g.insert_tx(TxType::HtlcTimeout, 1u64, htlc_tmpl(500));
    let first = g.render_cmt_htlcs();
    let second = g.render_cmt_htlcs();
    let stored = g.tx(TxType::HtlcTimeout, 1u64).expect("still stored");
    assert_eq!(stored.inputs[0].previous_outpoint.txid.bytes, [0x00; 32]);
    assert_eq!(stored.inputs[0].previous_outpoint.vout, 9);
    assert_eq!(
        first[1].inputs[0].previous_outpoint.txid.bytes,
        second[1].inputs[0].previous_outpoint.txid.bytes,
    );
}

#[test]
fn identical_state_renders_identical_transactions() {
    let f = funding();
    let g = scenario_graph(&f);
    let a = g.render_cmt();
    let b = g.render_cmt();
    assert_eq!(a.version, b.version);
    assert_eq!(a.locktime, b.locktime);
    assert_eq!(a.inputs[0].previous_outpoint.txid.bytes, b.inputs[0].previous_outpoint.txid.bytes);
    assert_eq!(a.inputs[0].sequence, b.inputs[0].sequence);
    assert_eq!(a.outputs.len(), b.outputs.len());
    assert_eq!(a.outputs[0].amount, b.outputs[0].amount);
    assert_eq!(a.outputs[1].script, b.outputs[1].script);
}
