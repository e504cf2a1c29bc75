//! Tests of the graph store: insertion, lookup, counting, mutation and the
//! ordered iterator.

use tx_graph::funding::Funding;
use tx_graph::graph::TxGraph;
use tx_graph::graph::TxType;
use tx_graph::graph::TxRole;
use tx_graph::psbt::Input;
use tx_graph::psbt::Outpoint;
use tx_graph::psbt::Output;
use tx_graph::psbt::Psbt;
use tx_graph::psbt::Txid;

fn outp(tag: u8, vout: u32) -> Outpoint {
    Outpoint { txid: Txid { bytes: [tag; 32] }, vout }
}

fn out(amount: u64, script: Vec<u8>) -> Output {
    Output { amount, script, witness_script: None, bip32_derivation: vec![] }
}

fn tmpl(locktime: u32) -> Psbt {
    Psbt {
        version: 2,
        locktime,
        inputs: vec![Input {
            previous_outpoint: outp(0, 0),
            sequence: 0,
            witness_utxo: None,
            witness_script: None,
            bip32_derivation: vec![],
        }],
        outputs: vec![out(1000, vec![0x51])],
    }
}

fn funding() -> Funding {
    Funding {
        outpoint: outp(0xAB, 0),
        psbt: Psbt {
            version: 2,
            locktime: 0,
            inputs: vec![],
            outputs: vec![out(100_000, vec![0x00, 0x14, 0x20])],
        },
        output: 0,
    }
}

#[test]
fn fresh_graph_is_zeroed_and_empty() {
    let f = funding();
    let g = TxGraph::from_funding(&f);
    assert_eq!(g.cmt_version, 0);
    assert_eq!(g.cmt_locktime, 0);
    assert_eq!(g.cmt_sequence, 0);
    assert!(g.cmt_outs.is_empty());
    assert!(g.is_empty());
    assert_eq!(g.len(), 0);
}

#[test]
fn insert_then_lookup_yields_the_template() {
    let f = funding();
    let mut g = TxGraph::from_funding(&f);
    let prev = g.insert_tx(5u16, 7u64, tmpl(77));
    assert!(prev.is_none());
    let got = g.tx(5u16, 7u64).expect("stored template");
    assert_eq!(got.locktime, 77);
    assert!(g.tx(5u16, 8u64).is_none());
    assert!(g.tx(6u16, 7u64).is_none());
}

#[test]
fn overwrite_returns_the_prior_template() {
    let f = funding();
    let mut g = TxGraph::from_funding(&f);
    assert!(g.insert_tx(5u16, 7u64, tmpl(1)).is_none());
    let prev = g.insert_tx(5u16, 7u64, tmpl(2)).expect("first template back");
    assert_eq!(prev.locktime, 1);
    assert_eq!(g.tx(5u16, 7u64).expect("second template").locktime, 2);
    assert_eq!(g.len(), 1);
}

#[test]
fn count_is_the_sum_of_per_role_counts() {
    let f = funding();
    let mut g = TxGraph::from_funding(&f);
    g.insert_tx(1u16, 1u64, tmpl(1));
    g.insert_tx(1u16, 4u64, tmpl(2));
    g.insert_tx(2u16, 1u64, tmpl(3));
    g.insert_tx(9u16, 3u64, tmpl(4));
    assert_eq!(g.len(), 4);
    let mut sum: usize = 0;
    for role in 0u16..=u16::MAX {
        sum += g.last_index(role);
    }
    assert_eq!(sum, g.len());
    assert_eq!(g.last_index(1u16), 2);
    assert_eq!(g.last_index(2u16), 1);
    assert_eq!(g.last_index(9u16), 1);
    assert_eq!(g.last_index(3u16), 0);
}

#[test]
fn per_role_count_counts_entries_not_highest_sequence() {
    let f = funding();
    let mut g = TxGraph::from_funding(&f);
    g.insert_tx(1u16, 5u64, tmpl(1));
    assert_eq!(g.last_index(1u16), 1);
}

#[test]
fn emptiness_ends_with_the_first_insert() {
    let f = funding();
    let mut g = TxGraph::from_funding(&f);
    assert!(g.is_empty());
    g.insert_tx(0u16, 0u64, tmpl(1));
    assert!(!g.is_empty());
    g.insert_tx(0u16, 0u64, tmpl(2));
    assert!(!g.is_empty());
}

#[test]
fn tx_type_codes_key_the_same_slots_as_raw_codes() {
    let f = funding();
    let mut g = TxGraph::from_funding(&f);
    assert_eq!(TxType::Commitment.to_code(), 0);
    assert_eq!(TxType::HtlcTimeout.to_code(), 1);
    assert_eq!(TxType::HtlcSuccess.to_code(), 2);
    g.insert_tx(TxType::HtlcTimeout, 1u64, tmpl(9));
    assert_eq!(g.tx(1u16, 1u64).expect("same slot").locktime, 9);
    assert_eq!(g.tx(TxType::HtlcTimeout, 1u64).expect("same slot").locktime, 9);
}

#[test]
fn tx_mut_edits_the_stored_template_in_place() {
    let f = funding();
    let mut g = TxGraph::from_funding(&f);
    g.insert_tx(5u16, 7u64, tmpl(1));
    assert!(g.tx_mut(5u16, 8u64).is_none());
    {
        let p = g.tx_mut(5u16, 7u64).expect("stored template");
        p.locktime = 42;
    }
    assert_eq!(g.tx(5u16, 7u64).expect("stored template").locktime, 42);
    assert_eq!(g.len(), 1);
}

#[test]
fn vec_mut_hands_out_ordered_handles_for_mutation() {
    let f = funding();
    let mut g = TxGraph::from_funding(&f);
    g.insert_tx(2u16, 1u64, tmpl(1));
    g.insert_tx(1u16, 9u64, tmpl(2));
    let handles = g.vec_mut();
    assert_eq!(handles.len(), 2);
    assert_eq!((handles[0].0, handles[0].1), (1u16, 9u64));
    assert_eq!((handles[1].0, handles[1].1), (2u16, 1u64));
    for (_role, _index, slot) in handles {
        g.tx_at_mut(slot).locktime = 55;
    }
    assert_eq!(g.tx(2u16, 1u64).expect("stored").locktime, 55);
    assert_eq!(g.tx(1u16, 9u64).expect("stored").locktime, 55);
}

#[test]
fn iterator_yields_every_entry_in_ascending_key_order() {
    let f = funding();
    let mut g = TxGraph::from_funding(&f);
    g.insert_tx(4u16, 1u64, tmpl(1));
    g.insert_tx(1u16, 5u64, tmpl(2));
    g.insert_tx(1u16, 2u64, tmpl(3));
    g.insert_tx(0u16, 3u64, tmpl(4));
    g.insert_tx(9u16, 7u64, tmpl(5));
    let mut got: Vec<(u16, u64, u32)> = vec![];
    let mut it = g.iter();
    while let Some((role, index, p)) = it.next() {
        got.push((role, index, p.locktime));
    }
    assert_eq!(got.len(), g.len());
    assert_eq!(
        got,
        vec![(0, 3, 4), (1, 2, 3), (1, 5, 2), (4, 1, 1), (9, 7, 5)],
    );
    let mut again = g.iter();
    let first = again.next().expect("fresh traversal starts over");
    assert_eq!((first.0, first.1), (0u16, 3u64));
}

#[test]
fn iterator_on_empty_graph_yields_nothing() {
    let f = funding();
    let g = TxGraph::from_funding(&f);
    let mut it = g.iter();
    assert!(it.next().is_none());
}
