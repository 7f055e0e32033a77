use bitcoin::consensus::encode::{deserialize, serialize_hex};
use slugline::assemble::{build_parent_with_scripts, build_transaction, create_cpfp_transaction, tx_vsize};
use slugline::codec::encode_tx;
use slugline::encoding::hex_encode;
use slugline::model::{Network, RelayError, RuneEntry, Transaction, Utxo, WalletUtxo};
use slugline::orchestrate::{advance, Config, Event, Outcome, PackageResponse, Step, TxError};
use slugline::validate::validate_transaction;

fn unit(outpoint: &str, value: u64) -> Utxo {
    Utxo {
        address: String::from("addr"),
        confirmations: 1,
        outpoint: String::from(outpoint),
        runes: Vec::new(),
        spent: false,
        value,
    }
}

fn rune_unit(outpoint: &str, value: u64) -> Utxo {
    let mut u = unit(outpoint, value);
    u.runes.push(RuneEntry {
        name: String::from("TESTSLUGLINERUNE"),
        amount: 500,
        divisibility: 0,
        symbol: String::from("R"),
    });
    u
}

fn sample_outpoint(fill: u8, vout: u32) -> String {
    let bytes = vec![fill; 32];
    format!("{}:{}", hex_encode(&bytes), vout)
}

fn p2pkh_script(fill: u8) -> Vec<u8> {
    bitcoin::ScriptBuf::new_p2pkh(&<bitcoin::PubkeyHash as bitcoin::hashes::Hash>::from_byte_array([fill; 20])).to_bytes()
}

fn address_of(script: &[u8]) -> String {
    let sb = bitcoin::ScriptBuf::from_bytes(script.to_vec());
    bitcoin::Address::from_script(&sb, bitcoin::Network::Bitcoin).unwrap().to_string()
}

fn sample_parent() -> Transaction {
    let selected = vec![unit(&sample_outpoint(0x11, 0), 60000)];
    let runes = vec![rune_unit(&sample_outpoint(0x33, 2), 546)];
    build_parent_with_scripts(&selected, &runes, p2pkh_script(0xaa), p2pkh_script(0xbb), 30000)
        .unwrap()
}

fn to_bitcoin_tx(t: &Transaction) -> bitcoin::Transaction {
    deserialize(&encode_tx(t)).expect("consensus decode")
}

fn psbt_of(t: &Transaction) -> String {
    bitcoin::psbt::Psbt::from_unsigned_tx(to_bitcoin_tx(t)).unwrap().to_string()
}

fn config() -> Config {
    Config { network: Network::Bitcoin, fee_rate: 100 }
}

fn failure_error(s: Step) -> RelayError {
    match s {
        Step::Complete { outcome: Outcome::Failure { error, .. } } => error,
        _ => panic!("expected a completed failure"),
    }
}

#[test]
fn parent_anchor_output_first() {
    // the first output is the anchor even when change is zero, and a zero
    // change is omitted entirely
    let selected = vec![unit(&sample_outpoint(0x11, 0), 29454)];
    let runes = vec![rune_unit(&sample_outpoint(0x33, 2), 546)];
    let t = build_parent_with_scripts(&selected, &runes, p2pkh_script(0xaa), p2pkh_script(0xbb),
        30000).unwrap();
    assert_eq!(t.outputs.len(), 2);
    assert_eq!(t.outputs[0].value, 0);
    assert_eq!(t.outputs[0].script_pubkey, vec![0x51, 0x02, 0x4e, 0x73]);
    assert_eq!(t.outputs[1].value, 30000);
    // the token input sits last
    assert_eq!(t.inputs.len(), 2);
    assert_eq!(t.inputs[1].prev_txid, vec![0x33u8; 32]);
    assert_eq!(t.inputs[1].prev_vout, 2);
}

#[test]
fn parent_requires_token_unit() {
    let selected = vec![unit(&sample_outpoint(0x11, 0), 60000)];
    let r = build_parent_with_scripts(&selected, &Vec::new(), p2pkh_script(0xaa),
        p2pkh_script(0xbb), 30000);
    assert!(matches!(r, Err(RelayError::NoTokenUnitsAvailable)));
}

#[test]
fn parent_rejects_malformed_outpoint() {
    let selected = vec![unit("nonsense", 60000)];
    let runes = vec![rune_unit(&sample_outpoint(0x33, 2), 546)];
    let r = build_parent_with_scripts(&selected, &runes, p2pkh_script(0xaa), p2pkh_script(0xbb),
        30000);
    assert!(matches!(r, Err(RelayError::InvalidOutpoint)));
}

#[test]
fn parent_from_addresses_resolves_scripts() {
    let dest_script = p2pkh_script(0xaa);
    let change_script = p2pkh_script(0xbb);
    let selected = vec![unit(&sample_outpoint(0x11, 0), 60000)];
    let runes = vec![rune_unit(&sample_outpoint(0x33, 2), 546)];
    let t = build_transaction(&selected, &runes, &address_of(&change_script),
        &address_of(&dest_script), 30000, Network::Bitcoin).unwrap();
    assert_eq!(t.outputs[1].script_pubkey, dest_script);
    assert_eq!(t.outputs[2].script_pubkey, change_script);
}

#[test]
fn parent_rejects_wrong_network_address() {
    let dest_script = p2pkh_script(0xaa);
    let selected = vec![unit(&sample_outpoint(0x11, 0), 60000)];
    let runes = vec![rune_unit(&sample_outpoint(0x33, 2), 546)];
    let r = build_transaction(&selected, &runes, &address_of(&p2pkh_script(0xbb)),
        &address_of(&dest_script), 30000, Network::Regtest);
    assert!(matches!(r, Err(RelayError::AddressNetworkMismatch)));
    let r2 = build_transaction(&selected, &runes, "not an address",
        &address_of(&dest_script), 30000, Network::Bitcoin);
    assert!(matches!(r2, Err(RelayError::InvalidAddress)));
}

#[test]
fn anchor_check_passes_and_fails() {
    let good = sample_parent();
    assert!(validate_transaction(&good).is_ok());
    let mut no_anchor = sample_parent();
    no_anchor.outputs.remove(0);
    assert!(matches!(validate_transaction(&no_anchor), Err(RelayError::NotAnchorTransaction)));
    let mut nonzero = sample_parent();
    nonzero.outputs[0].value = 1;
    assert!(matches!(validate_transaction(&nonzero), Err(RelayError::NotAnchorTransaction)));
    let mut empty = sample_parent();
    empty.outputs.clear();
    assert!(matches!(validate_transaction(&empty), Err(RelayError::NotAnchorTransaction)));
}

#[test]
fn cpfp_fee_arithmetic() {
    let parent = sample_parent();
    let script = p2pkh_script(0xcc);
    let utxo = WalletUtxo {
        txid: vec![0x44u8; 32],
        vout: 1,
        amount: 200000,
        address: Some(address_of(&script)),
    };
    let child = create_cpfp_transaction(&parent, &utxo, 100).unwrap();
    assert_eq!(child.inputs.len(), 2);
    assert_eq!(child.inputs[0].prev_vout, 0);
    assert_eq!(child.inputs[1].prev_txid, vec![0x44u8; 32]);
    assert_eq!(child.inputs[1].prev_vout, 1);
    assert_eq!(child.outputs.len(), 1);
    assert_eq!(child.outputs[0].script_pubkey, script);
    // the fee re-derived from the constructed transactions reproduces the
    // output value
    let fee = (tx_vsize(&parent) as u64 + tx_vsize(&child) as u64) * 100;
    assert_eq!(child.outputs[0].value, 200000 - fee);
    // the first input spends the parent's computed id
    let parent_id = to_bitcoin_tx(&parent).compute_txid();
    assert_eq!(child.inputs[0].prev_txid, <bitcoin::Txid as bitcoin::hashes::Hash>::to_byte_array(parent_id).to_vec());
}

#[test]
fn cpfp_output_floors_at_zero() {
    let parent = sample_parent();
    let script = p2pkh_script(0xcc);
    let utxo = WalletUtxo {
        txid: vec![0x44u8; 32],
        vout: 1,
        amount: 10,
        address: Some(address_of(&script)),
    };
    let child = create_cpfp_transaction(&parent, &utxo, 100).unwrap();
    assert_eq!(child.outputs[0].value, 0);
}

#[test]
fn cpfp_requires_address() {
    let parent = sample_parent();
    let utxo = WalletUtxo { txid: vec![0x44u8; 32], vout: 1, amount: 200000, address: None };
    assert!(matches!(
        create_cpfp_transaction(&parent, &utxo, 100),
        Err(RelayError::MissingFundingAddress)
    ));
}

#[test]
fn pipeline_rejects_unparseable_submission() {
    let next = advance(&config(), Step::AwaitingRequest, Event::Request {
        psbt: String::from("not a psbt"),
    });
    assert!(matches!(failure_error(next), RelayError::MalformedInput));
}

#[test]
fn pipeline_rejects_missing_anchor_at_parse() {
    // a parent without the anchor output is turned away right after parsing
    let mut t = sample_parent();
    t.outputs.remove(0);
    let next = advance(&config(), Step::AwaitingRequest, Event::Request { psbt: psbt_of(&t) });
    assert!(matches!(failure_error(next), RelayError::NotAnchorTransaction));
}

#[test]
fn pipeline_accepts_anchored_parent() {
    let t = sample_parent();
    let next = advance(&config(), Step::AwaitingRequest, Event::Request { psbt: psbt_of(&t) });
    match next {
        Step::AwaitingTxDetail { txid, vout, txid_display, .. } => {
            assert_eq!(txid, vec![0x33u8; 32]);
            assert_eq!(vout, 2);
            assert_eq!(txid_display, hex_encode(&vec![0x33u8; 32]));
        },
        _ => panic!("expected the first lookup state"),
    }
}

#[test]
fn pipeline_derives_address_from_script() {
    let parent = sample_parent();
    let script = p2pkh_script(0xdd);
    let state = Step::AwaitingTxDetail {
        parent,
        txid: vec![0x33u8; 32],
        vout: 2,
        txid_display: hex_encode(&vec![0x33u8; 32]),
    };
    let next = advance(&config(), state, Event::TxDetail {
        script_hex: Some(hex_encode(&script)),
    });
    match next {
        Step::AwaitingOutputs { txid, vout, address, .. } => {
            assert_eq!(txid, vec![0x33u8; 32]);
            assert_eq!(vout, 2);
            assert_eq!(address, address_of(&script));
        },
        _ => panic!("expected the outputs state"),
    }
}

#[test]
fn pipeline_fails_lookup_without_script() {
    let state = Step::AwaitingTxDetail {
        parent: sample_parent(),
        txid: vec![0x33u8; 32],
        vout: 2,
        txid_display: hex_encode(&vec![0x33u8; 32]),
    };
    let next = advance(&config(), state, Event::TxDetail { script_hex: None });
    assert!(matches!(failure_error(next), RelayError::IndexLookupFailed));
    let state2 = Step::AwaitingTxDetail {
        parent: sample_parent(),
        txid: vec![0x33u8; 32],
        vout: 2,
        txid_display: hex_encode(&vec![0x33u8; 32]),
    };
    let next2 = advance(&config(), state2, Event::TxDetail {
        script_hex: Some(String::from("zz")),
    });
    assert!(matches!(failure_error(next2), RelayError::IndexLookupFailed));
}

fn outputs_state() -> Step {
    Step::AwaitingOutputs {
        parent: sample_parent(),
        txid: vec![0x33u8; 32],
        vout: 2,
        address: String::from("addr"),
    }
}

#[test]
fn pipeline_token_check_passes_on_matching_rune_unit() {
    let utxos = vec![unit(&sample_outpoint(0x33, 1), 700), rune_unit(&sample_outpoint(0x33, 2), 546)];
    let next = advance(&config(), outputs_state(), Event::Outputs { utxos: Some(utxos) });
    assert!(matches!(next, Step::AwaitingFunding { .. }));
}

#[test]
fn pipeline_token_check_rejects_missing_rune() {
    let utxos = vec![unit(&sample_outpoint(0x33, 2), 546)];
    let next = advance(&config(), outputs_state(), Event::Outputs { utxos: Some(utxos) });
    assert!(matches!(failure_error(next), RelayError::TokenInputMissing));
}

#[test]
fn pipeline_token_check_requires_matching_outpoint() {
    let utxos = vec![rune_unit(&sample_outpoint(0x55, 0), 546)];
    let next = advance(&config(), outputs_state(), Event::Outputs { utxos: Some(utxos) });
    assert!(matches!(failure_error(next), RelayError::IndexLookupFailed));
    let next2 = advance(&config(), outputs_state(), Event::Outputs { utxos: None });
    assert!(matches!(failure_error(next2), RelayError::IndexLookupFailed));
}

#[test]
fn pipeline_reports_empty_wallet() {
    // an operator with no funding units is reported before any child is
    // built
    let state = Step::AwaitingFunding { parent: sample_parent() };
    let next = advance(&config(), state, Event::Funding { units: Some(Vec::new()) });
    assert!(matches!(failure_error(next), RelayError::NoSearcherFunds));
}

#[test]
fn pipeline_funding_lookup_failure_is_service_error() {
    let state = Step::AwaitingFunding { parent: sample_parent() };
    let next = advance(&config(), state, Event::Funding { units: None });
    assert!(matches!(next, Step::Complete { outcome: Outcome::ServiceError }));
}

fn funding_unit() -> WalletUtxo {
    WalletUtxo {
        txid: vec![0x44u8; 32],
        vout: 1,
        amount: 200000,
        address: Some(address_of(&p2pkh_script(0xcc))),
    }
}

#[test]
fn pipeline_builds_child_from_first_unit() {
    let parent = sample_parent();
    let parent_id = to_bitcoin_tx(&parent).compute_txid();
    let state = Step::AwaitingFunding { parent };
    let next = advance(&config(), state, Event::Funding { units: Some(vec![funding_unit()]) });
    match next {
        Step::AwaitingSignature { child, child_hex, parent_txid, .. } => {
            assert_eq!(parent_txid, <bitcoin::Txid as bitcoin::hashes::Hash>::to_byte_array(parent_id).to_vec());
            assert_eq!(child_hex, hex_encode(&encode_tx(&child)));
            let parsed: bitcoin::Transaction =
                deserialize(&encode_tx(&child)).expect("consensus decode");
            assert_eq!(parsed.input.len(), 2);
            assert_eq!(parsed.input[0].previous_output.txid, parent_id);
            assert_eq!(parsed.input[0].previous_output.vout, 0);
        },
        _ => panic!("expected the signing state"),
    }
}

#[test]
fn pipeline_signing_gate() {
    let parent = sample_parent();
    let parent_hex_expected = serialize_hex(&to_bitcoin_tx(&parent));
    let child = create_cpfp_transaction(&parent, &funding_unit(), 100).unwrap();
    let child_hex = hex_encode(&encode_tx(&child));
    let state = Step::AwaitingSignature {
        parent,
        child,
        child_hex: child_hex.clone(),
        parent_txid: vec![0u8; 32],
    };
    let next = advance(&config(), state, Event::Signature {
        complete: true,
        signed_hex: Some(String::from("aa00")),
    });
    match next {
        Step::AwaitingSubmission { parent_hex, child_hex, .. } => {
            assert_eq!(parent_hex, parent_hex_expected);
            assert_eq!(child_hex, "aa00");
        },
        _ => panic!("expected the submission state"),
    }
}

#[test]
fn pipeline_incomplete_signature_stops() {
    let parent = sample_parent();
    let child = create_cpfp_transaction(&parent, &funding_unit(), 100).unwrap();
    let state = Step::AwaitingSignature {
        parent,
        child,
        child_hex: String::new(),
        parent_txid: vec![0u8; 32],
    };
    let next = advance(&config(), state, Event::Signature {
        complete: false,
        signed_hex: Some(String::from("aa00")),
    });
    assert!(matches!(failure_error(next), RelayError::SigningIncomplete));
}

fn submission_state() -> Step {
    let parent = sample_parent();
    let child = create_cpfp_transaction(&parent, &funding_unit(), 100).unwrap();
    Step::AwaitingSubmission {
        parent,
        child,
        parent_hex: String::new(),
        child_hex: String::new(),
    }
}

#[test]
fn pipeline_reports_package_rejection_with_details() {
    let response = PackageResponse {
        package_msg: Some(String::from("transaction failed")),
        tx_errors: vec![TxError {
            txid: String::from("deadbeef"),
            error: String::from("bad-txns"),
        }],
    };
    let next = advance(&config(), submission_state(), Event::Submission {
        response: Some(response),
    });
    match next {
        Step::Complete { outcome: Outcome::Failure { error, details } } => {
            assert!(matches!(error, RelayError::PackageRejected));
            assert_eq!(details.len(), 1);
            assert_eq!(details[0].txid, "deadbeef");
            assert_eq!(details[0].error, "bad-txns");
        },
        _ => panic!("expected a rejection"),
    }
}

#[test]
fn pipeline_reports_success_with_both_txids() {
    let parent = sample_parent();
    let child = create_cpfp_transaction(&parent, &funding_unit(), 100).unwrap();
    let parent_id = to_bitcoin_tx(&parent).compute_txid().to_string();
    let child_id = to_bitcoin_tx(&child).compute_txid().to_string();
    let state = Step::AwaitingSubmission {
        parent,
        child,
        parent_hex: String::new(),
        child_hex: String::new(),
    };
    let response = PackageResponse { package_msg: None, tx_errors: Vec::new() };
    let next = advance(&config(), state, Event::Submission { response: Some(response) });
    match next {
        Step::Complete { outcome: Outcome::Success { parent_txid, child_txid } } => {
            assert_eq!(parent_txid, parent_id);
            assert_eq!(child_txid, child_id);
        },
        _ => panic!("expected success"),
    }
}

#[test]
fn pipeline_submit_transport_failure() {
    let next = advance(&config(), submission_state(), Event::Submission { response: None });
    assert!(matches!(failure_error(next), RelayError::NodeRequestFailed));
}

#[test]
fn error_messages() {
    assert_eq!(
        RelayError::NoSearcherFunds.message(),
        "No UTXOs available in searcher wallet"
    );
    assert_eq!(RelayError::MalformedInput.message(), "Invalid PSBT");
}

#[test]
fn library_psbt_envelope_round_trips() {
    let t = sample_parent();
    let psbt = slugline::assemble::transaction_psbt(&t).unwrap();
    // the envelope must parse as a PSBT carrying exactly the encoded
    // transaction
    let parsed: bitcoin::psbt::Psbt = psbt.parse().unwrap();
    assert_eq!(
        bitcoin::consensus::encode::serialize(&parsed.unsigned_tx),
        encode_tx(&t)
    );
    // and the pipeline accepts it
    let next = advance(&config(), Step::AwaitingRequest, Event::Request { psbt });
    assert!(matches!(next, Step::AwaitingTxDetail { .. }));
}
