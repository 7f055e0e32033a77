use bitcoin::consensus::encode::{deserialize, serialize};
use slugline::assemble::{build_parent_with_scripts, tx_vsize};
use slugline::codec::{decode_tx, encode_tx};
use slugline::encoding::{hex_decode, hex_encode, parse_outpoint, parse_u32_decimal, txid_hex};
use slugline::model::{anchor_script, parse_network, Network, RuneEntry, Transaction, Utxo};

fn unit(outpoint: &str, value: u64) -> Utxo {
    Utxo {
        address: String::from("addr"),
        confirmations: 1,
        outpoint: String::from(outpoint),
        runes: Vec::new(),
        spent: false,
        value,
    }
}

fn rune_unit(outpoint: &str, value: u64) -> Utxo {
    let mut u = unit(outpoint, value);
    u.runes.push(RuneEntry {
        name: String::from("TESTSLUGLINERUNE"),
        amount: 500,
        divisibility: 0,
        symbol: String::from("R"),
    });
    u
}

fn sample_outpoint(fill: u8, vout: u32) -> String {
    let bytes = vec![fill; 32];
    format!("{}:{}", hex_encode(&bytes), vout)
}

fn sample_parent() -> Transaction {
    let selected = vec![unit(&sample_outpoint(0x11, 0), 60000), unit(&sample_outpoint(0x22, 1), 40000)];
    let runes = vec![rune_unit(&sample_outpoint(0x33, 2), 546)];
    let dest_script = vec![0x00, 0x14, 0xaa, 0xaa, 0xaa, 0xaa, 0xaa, 0xaa, 0xaa, 0xaa, 0xaa, 0xaa,
        0xaa, 0xaa, 0xaa, 0xaa, 0xaa, 0xaa, 0xaa, 0xaa, 0xaa, 0xaa];
    let change_script = vec![0x00, 0x14, 0xbb, 0xbb, 0xbb, 0xbb, 0xbb, 0xbb, 0xbb, 0xbb, 0xbb,
        0xbb, 0xbb, 0xbb, 0xbb, 0xbb, 0xbb, 0xbb, 0xbb, 0xbb, 0xbb, 0xbb];
    build_parent_with_scripts(&selected, &runes, dest_script, change_script, 70000).unwrap()
}

#[test]
fn hex_round_trip() {
    let bytes = vec![0x00u8, 0x0f, 0xa5, 0xff, 0x51];
    let s = hex_encode(&bytes);
    assert_eq!(s, "000fa5ff51");
    assert_eq!(hex_decode(&s).unwrap(), bytes);
}

#[test]
fn hex_decode_accepts_upper_case() {
    assert_eq!(hex_decode("DEADBEEF").unwrap(), vec![0xde, 0xad, 0xbe, 0xef]);
}

#[test]
fn hex_decode_rejects_bad_input() {
    assert!(hex_decode("abc").is_none());
    assert!(hex_decode("zz").is_none());
}

#[test]
fn decimal_parse() {
    assert_eq!(parse_u32_decimal("0").unwrap(), 0);
    assert_eq!(parse_u32_decimal("4294967295").unwrap(), u32::MAX);
    assert!(parse_u32_decimal("4294967296").is_none());
    assert!(parse_u32_decimal("").is_none());
    assert!(parse_u32_decimal("12a").is_none());
}

#[test]
fn outpoint_parse_reverses_txid() {
    let s = sample_outpoint(0x11, 7);
    let (txid, vout) = parse_outpoint(&s).unwrap();
    assert_eq!(vout, 7);
    assert_eq!(txid, vec![0x11u8; 32]);
    // a non-palindromic id must come back byte-reversed
    let mut bytes = vec![0u8; 32];
    bytes[0] = 0xab;
    let s2 = format!("{}:0", hex_encode(&bytes));
    let (txid2, _) = parse_outpoint(&s2).unwrap();
    assert_eq!(txid2[31], 0xab);
    assert_eq!(txid2[0], 0x00);
}

#[test]
fn outpoint_parse_rejects_malformed() {
    assert!(parse_outpoint("abc").is_none());
    assert!(parse_outpoint("11:2:3").is_none());
    assert!(parse_outpoint("1122:0").is_none());
    let long = format!("{}:x", hex_encode(&vec![0u8; 32]));
    assert!(parse_outpoint(&long).is_none());
}

#[test]
fn network_names() {
    assert_eq!(parse_network("testnet"), Network::Testnet);
    assert_eq!(parse_network("testnet4"), Network::Testnet);
    assert_eq!(parse_network("signet"), Network::Signet);
    assert_eq!(parse_network("regtest"), Network::Regtest);
    assert_eq!(parse_network("mainnet"), Network::Bitcoin);
    assert_eq!(parse_network("anything"), Network::Bitcoin);
}

#[test]
fn anchor_script_matches_builder() {
    let expected = bitcoin::script::Builder::new()
        .push_opcode(bitcoin::opcodes::all::OP_PUSHNUM_1)
        .push_slice(bitcoin::script::PushBytesBuf::try_from(vec![0x4e, 0x73]).unwrap())
        .into_script();
    assert_eq!(anchor_script(), expected.to_bytes());
}

#[test]
fn codec_round_trip() {
    let t = sample_parent();
    let bytes = encode_tx(&t);
    let back = decode_tx(&bytes).unwrap();
    assert_eq!(back.version, t.version);
    assert_eq!(back.lock_time, t.lock_time);
    assert_eq!(back.inputs.len(), t.inputs.len());
    assert_eq!(back.outputs.len(), t.outputs.len());
    for (a, b) in back.inputs.iter().zip(t.inputs.iter()) {
        assert_eq!(a.prev_txid, b.prev_txid);
        assert_eq!(a.prev_vout, b.prev_vout);
        assert_eq!(a.script_sig, b.script_sig);
        assert_eq!(a.sequence, b.sequence);
    }
    for (a, b) in back.outputs.iter().zip(t.outputs.iter()) {
        assert_eq!(a.value, b.value);
        assert_eq!(a.script_pubkey, b.script_pubkey);
    }
}

#[test]
fn codec_rejects_trailing_bytes() {
    let t = sample_parent();
    let mut bytes = encode_tx(&t);
    bytes.push(0);
    assert!(decode_tx(&bytes).is_none());
    assert!(decode_tx(&vec![1, 2, 3]).is_none());
}

#[test]
fn encoding_matches_consensus_rules() {
    let t = sample_parent();
    let bytes = encode_tx(&t);
    let parsed: bitcoin::Transaction = deserialize(&bytes).expect("consensus decode");
    assert_eq!(parsed.version.0, 3);
    assert_eq!(parsed.input.len(), 3);
    assert_eq!(parsed.output.len(), 3);
    assert_eq!(parsed.output[0].value.to_sat(), 0);
    assert_eq!(parsed.output[1].value.to_sat(), 70000);
    // change: 60000 + 40000 + 546 - 70000
    assert_eq!(parsed.output[2].value.to_sat(), 30546);
    assert_eq!(serialize(&parsed), bytes);
}

#[test]
fn vsize_matches_consensus_rules() {
    let t = sample_parent();
    let bytes = encode_tx(&t);
    let parsed: bitcoin::Transaction = deserialize(&bytes).expect("consensus decode");
    assert_eq!(tx_vsize(&t) as usize, parsed.vsize());
}

#[test]
fn txid_display_matches_consensus_rules() {
    let t = sample_parent();
    let bytes = encode_tx(&t);
    let parsed: bitcoin::Transaction = deserialize(&bytes).expect("consensus decode");
    let expected = parsed.compute_txid();
    let digest = <bitcoin::hashes::sha256d::Hash as bitcoin::hashes::Hash>::hash(&bytes);
    let id_bytes = <bitcoin::hashes::sha256d::Hash as bitcoin::hashes::Hash>::to_byte_array(digest).to_vec();
    assert_eq!(txid_hex(&id_bytes), expected.to_string());
}
