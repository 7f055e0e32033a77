//! Transaction assembly: the standalone parent builder, which lays out the
//! anchor, destination and change outputs over the selected funding units and
//! one token-bearing unit, and the fee-bump child builder, which spends the
//! parent's anchor together with the operator's funds and sizes the fee
//! against both transactions' virtual sizes.

use vstd::prelude::*;
use vstd::bytes::lemma_auto_spec_u64_to_from_le_bytes;
use crate::codec::{enc_tx, enc_outputs, enc_output, encode_tx, wf_tx, wf_input, wf_output};
use crate::encoding::{outpoint_txid, outpoint_vout, parse_outpoint, valid_outpoint};
use crate::external::{addr_on_network, addr_parses, address_script, address_to_script, address_to_script_unchecked, sha256d, sha256d_digest};
use crate::model::{Network, RelayError, Transaction, TransactionView, TxInput, TxInputView, TxOutput, TxOutputView, Utxo, WalletUtxo, SEQUENCE_RBF, TX_VERSION, spec_anchor_script};
use crate::model::anchor_script;
use crate::select::{sum_values, lemma_sum_snoc, lemma_sum_nonneg};

verus! {

/// The virtual size of a transaction: its weight, rounded up to whole units
/// of four weight units. An unsigned transaction's weight is four times its
/// encoded length.
pub open spec fn spec_tx_weight(t: TransactionView) -> int {
    4 * enc_tx(t).len() as int
}

pub open spec fn spec_tx_vsize(t: TransactionView) -> int {
    (spec_tx_weight(t) + 3) / 4
}

/// Computes a transaction's virtual size from its encoding.
pub fn tx_vsize(t: &Transaction) -> (r: usize)
    ensures
        r == spec_tx_vsize(t@),
{
    let enc = encode_tx(t);
    proof {
        assert((4 * enc@.len() + 3) / 4 == enc@.len());
    }
    enc.len()
}

/// An input spending the given outpoint, with an empty signature script and
/// the replaceable sequence number.
fn make_input(prev_txid: Vec<u8>, prev_vout: u32) -> (i: TxInput)
    ensures
        i@ == (TxInputView {
            prev_txid: prev_txid@,
            prev_vout,
            script_sig: Seq::<u8>::empty(),
            sequence: SEQUENCE_RBF,
        }),
{
    let i = TxInput { prev_txid, prev_vout, script_sig: Vec::new(), sequence: SEQUENCE_RBF };
    proof {
        assert(i@.script_sig =~= Seq::<u8>::empty());
    }
    i
}

/// The shape of an assembled parent transaction: one input per selected
/// funding unit in order, then the token-bearing unit's input last; the
/// anchor output first with value zero, the destination payment second, and
/// the change third exactly when the remainder is not zero.
pub open spec fn parent_structure(
    t: TransactionView,
    selected: Seq<Utxo>,
    rune_utxo: Utxo,
    dest_script: Seq<u8>,
    change_script: Seq<u8>,
    amount: u64,
) -> bool {
    let total_input = sum_values(selected) + rune_utxo.value;
    let change = if total_input >= amount {
        total_input - amount
    } else {
        0
    };
    &&& t.version == TX_VERSION
    &&& t.lock_time == 0
    &&& t.inputs.len() == selected.len() + 1
    &&& forall|i: int|
        0 <= i < selected.len() ==> #[trigger] t.inputs[i] == (TxInputView {
            prev_txid: outpoint_txid(selected[i].outpoint@),
            prev_vout: outpoint_vout(selected[i].outpoint@) as u32,
            script_sig: Seq::<u8>::empty(),
            sequence: SEQUENCE_RBF,
        })
    &&& t.inputs[t.inputs.len() - 1] == (TxInputView {
        prev_txid: outpoint_txid(rune_utxo.outpoint@),
        prev_vout: outpoint_vout(rune_utxo.outpoint@) as u32,
        script_sig: Seq::<u8>::empty(),
        sequence: SEQUENCE_RBF,
    })
    &&& t.outputs.len() == (if change > 0 {
        3int
    } else {
        2int
    })
    &&& t.outputs[0] == (TxOutputView { value: 0u64, script_pubkey: spec_anchor_script() })
    &&& t.outputs[1] == (TxOutputView { value: amount, script_pubkey: dest_script })
    &&& (change > 0 ==> t.outputs[2] == (TxOutputView {
        value: change as u64,
        script_pubkey: change_script,
    }))
}

/// Builds the parent transaction from already-resolved locking scripts.
/// Fails with `NoTokenUnitsAvailable` exactly when no token-bearing unit is
/// given, and with `InvalidOutpoint` exactly when some unit's outpoint is
/// malformed.
pub fn build_parent_with_scripts(
    selected_utxos: &Vec<Utxo>,
    rune_utxos: &Vec<Utxo>,
    dest_script: Vec<u8>,
    change_script: Vec<u8>,
    amount: u64,
) -> (r: Result<Transaction, RelayError>)
    requires
        rune_utxos@.len() > 0 ==> sum_values(selected_utxos@) + rune_utxos@[0].value <= u64::MAX,
    ensures
        match r {
            Ok(t) => {
                &&& rune_utxos@.len() > 0
                &&& forall|i: int|
                    0 <= i < selected_utxos@.len() ==> valid_outpoint(
                        (#[trigger] selected_utxos@[i]).outpoint@,
                    )
                &&& valid_outpoint(rune_utxos@[0].outpoint@)
                &&& parent_structure(
                    t@,
                    selected_utxos@,
                    rune_utxos@[0],
                    dest_script@,
                    change_script@,
                    amount,
                )
                &&& wf_tx(t@)
            },
            Err(e) => match e {
                RelayError::NoTokenUnitsAvailable => rune_utxos@.len() == 0,
                RelayError::InvalidOutpoint => rune_utxos@.len() > 0 && !((forall|i: int|
                    0 <= i < selected_utxos@.len() ==> valid_outpoint(
                        (#[trigger] selected_utxos@[i]).outpoint@,
                    )) && valid_outpoint(rune_utxos@[0].outpoint@)),
                _ => false,
            },
        },
{
    if rune_utxos.len() == 0 {
        return Err(RelayError::NoTokenUnitsAvailable);
    }
    let mut inputs: Vec<TxInput> = Vec::new();
    let mut btc_input: u64 = 0;
    let mut i: usize = 0;
    proof {
        lemma_sum_nonneg(selected_utxos@);
        assert(selected_utxos@.take(0) =~= Seq::<Utxo>::empty());
    }
    while i < selected_utxos.len()
        invariant
            0 <= i <= selected_utxos@.len(),
            rune_utxos@.len() > 0,
            sum_values(selected_utxos@) + rune_utxos@[0].value <= u64::MAX,
            btc_input == sum_values(selected_utxos@.take(i as int)),
            btc_input <= sum_values(selected_utxos@),
            inputs@.len() == i,
            forall|k: int|
                0 <= k < i ==> valid_outpoint((#[trigger] selected_utxos@[k]).outpoint@),
            forall|k: int|
                0 <= k < i ==> #[trigger] inputs@[k]@ == (TxInputView {
                    prev_txid: outpoint_txid(selected_utxos@[k].outpoint@),
                    prev_vout: outpoint_vout(selected_utxos@[k].outpoint@) as u32,
                    script_sig: Seq::<u8>::empty(),
                    sequence: SEQUENCE_RBF,
                }),
            forall|k: int| 0 <= k < i ==> (#[trigger] inputs@[k]@).prev_txid.len() == 32,
        decreases selected_utxos@.len() - i,
    {
        let u = &selected_utxos[i];
        let (txid, vout) = match parse_outpoint(u.outpoint.as_str()) {
            Some(x) => x,
            None => {
                return Err(RelayError::InvalidOutpoint);
            },
        };
        inputs.push(make_input(txid, vout));
        proof {
            let taken = selected_utxos@.take(i as int);
            assert(selected_utxos@.take(i as int + 1).drop_last() =~= taken);
            assert(selected_utxos@.take(i as int + 1) =~= taken.push(selected_utxos@[i as int]));
            lemma_sum_snoc(taken, selected_utxos@[i as int]);
            lemma_sum_prefix_bound(selected_utxos@, i as int + 1);
        }
        btc_input = btc_input + u.value;
        i = i + 1;
    }
    proof {
        assert(selected_utxos@.take(selected_utxos@.len() as int) =~= selected_utxos@);
    }
    let rune_utxo = &rune_utxos[0];
    let (rtxid, rvout) = match parse_outpoint(rune_utxo.outpoint.as_str()) {
        Some(x) => x,
        None => {
            return Err(RelayError::InvalidOutpoint);
        },
    };
    inputs.push(make_input(rtxid, rvout));
    let total_input = btc_input + rune_utxo.value;
    let ghost gds = dest_script@;
    let ghost gcs = change_script@;
    let dlen = dest_script.len();
    let clen = change_script.len();
    proof {
        assert(gds.len() == dlen && gcs.len() == clen);
    }
    let mut outputs: Vec<TxOutput> = Vec::new();
    outputs.push(TxOutput { value: 0, script_pubkey: anchor_script() });
    outputs.push(TxOutput { value: amount, script_pubkey: dest_script });
    let change = if total_input >= amount {
        total_input - amount
    } else {
        0
    };
    if change > 0 {
        outputs.push(TxOutput { value: change, script_pubkey: change_script });
    }
    let ilen = inputs.len();
    let olen = outputs.len();
    proof {
        assert(inputs@.len() == ilen && outputs@.len() == olen);
    }
    let t = Transaction { version: TX_VERSION, lock_time: 0, inputs, outputs };
    proof {
        assert(parent_structure(
            t@,
            selected_utxos@,
            rune_utxos@[0],
            gds,
            gcs,
            amount,
        ));
        assert(wf_tx(t@)) by {
            assert forall|k: int| 0 <= k < t@.inputs.len() implies wf_input(
                #[trigger] t@.inputs[k],
            ) by {
                assert(t@.inputs[k] == inputs@[k]@);
            }
            assert forall|k: int| 0 <= k < t@.outputs.len() implies wf_output(
                #[trigger] t@.outputs[k],
            ) by {
                assert(t@.outputs[k] == outputs@[k]@);
                assert(gds.len() <= usize::MAX);
                assert(gcs.len() <= usize::MAX);
            }
        }
    }
    Ok(t)
}

proof fn lemma_sum_prefix_bound(s: Seq<Utxo>, i: int)
    requires
        0 <= i <= s.len(),
    ensures
        sum_values(s.take(i)) <= sum_values(s),
{
    assert(s =~= s.take(i) + s.skip(i));
    crate::select::lemma_sum_concat(s.take(i), s.skip(i));
    lemma_sum_nonneg(s.skip(i));
}

/// An address string that parses and belongs to the network.
pub open spec fn address_resolves(a: Seq<char>, network: Network) -> bool {
    addr_parses(a) && addr_on_network(a, network)
}

/// Every funding unit's outpoint, and the token unit's, is well formed.
pub open spec fn all_outpoints_valid(selected: Seq<Utxo>, rune_utxo: Utxo) -> bool {
    &&& forall|i: int|
        0 <= i < selected.len() ==> valid_outpoint((#[trigger] selected[i]).outpoint@)
    &&& valid_outpoint(rune_utxo.outpoint@)
}

/// Builds the parent transaction from address strings: both addresses are
/// resolved against the network tag (the destination first, as submitted
/// work is checked before the operator's own address), then the verified
/// builder lays the transaction out. Succeeds exactly when both addresses
/// resolve, a token-bearing unit is given, and every outpoint is well
/// formed; each error names its exact cause.
pub fn build_transaction(
    selected_utxos: &Vec<Utxo>,
    rune_utxos: &Vec<Utxo>,
    btc_address: &str,
    destination_address: &str,
    amount: u64,
    network: Network,
) -> (r: Result<Transaction, RelayError>)
    requires
        rune_utxos@.len() > 0 ==> sum_values(selected_utxos@) + rune_utxos@[0].value <= u64::MAX,
    ensures
        r is Ok <==> (address_resolves(destination_address@, network) && address_resolves(
            btc_address@,
            network,
        ) && rune_utxos@.len() > 0 && all_outpoints_valid(selected_utxos@, rune_utxos@[0])),
        match r {
            Ok(t) => {
                &&& parent_structure(
                    t@,
                    selected_utxos@,
                    rune_utxos@[0],
                    address_script(destination_address@),
                    address_script(btc_address@),
                    amount,
                )
                &&& wf_tx(t@)
            },
            Err(e) => match e {
                RelayError::InvalidAddress => !addr_parses(destination_address@) || (
                address_resolves(destination_address@, network) && !addr_parses(btc_address@)),
                RelayError::AddressNetworkMismatch => (addr_parses(destination_address@)
                    && !addr_on_network(destination_address@, network)) || (address_resolves(
                    destination_address@,
                    network,
                ) && addr_parses(btc_address@) && !addr_on_network(btc_address@, network)),
                RelayError::NoTokenUnitsAvailable => address_resolves(
                    destination_address@,
                    network,
                ) && address_resolves(btc_address@, network) && rune_utxos@.len() == 0,
                RelayError::InvalidOutpoint => address_resolves(destination_address@, network)
                    && address_resolves(btc_address@, network) && rune_utxos@.len() > 0
                    && !all_outpoints_valid(selected_utxos@, rune_utxos@[0]),
                _ => false,
            },
        },
{
    let dest_script = match address_to_script(destination_address, network) {
        Ok(s) => s,
        Err(e) => {
            return Err(e);
        },
    };
    let change_script = match address_to_script(btc_address, network) {
        Ok(s) => s,
        Err(e) => {
            return Err(e);
        },
    };
    build_parent_with_scripts(selected_utxos, rune_utxos, dest_script, change_script, amount)
}

} // verus!

verus! {

/// The shape of the fee-bump child transaction: exactly the parent's anchor
/// outpoint first and the operator's funding outpoint second, and exactly
/// one output returning the operator's funds after the package fee, floored
/// at zero. The fee is the combined virtual size of parent and child at the
/// given rate.
pub open spec fn cpfp_structure(
    child: TransactionView,
    parent: TransactionView,
    parent_txid: Seq<u8>,
    funding_txid: Seq<u8>,
    funding_vout: u32,
    funding_amount: u64,
    return_script: Seq<u8>,
    fee_rate: u64,
) -> bool {
    let fee = (spec_tx_vsize(parent) + spec_tx_vsize(child)) * fee_rate;
    &&& child.version == TX_VERSION
    &&& child.lock_time == 0
    &&& child.inputs.len() == 2
    &&& child.inputs[0] == (TxInputView {
        prev_txid: parent_txid,
        prev_vout: 0u32,
        script_sig: Seq::<u8>::empty(),
        sequence: SEQUENCE_RBF,
    })
    &&& child.inputs[1] == (TxInputView {
        prev_txid: funding_txid,
        prev_vout: funding_vout,
        script_sig: Seq::<u8>::empty(),
        sequence: SEQUENCE_RBF,
    })
    &&& child.outputs.len() == 1
    &&& child.outputs[0].script_pubkey == return_script
    &&& child.outputs[0].value == (if funding_amount >= fee {
        funding_amount - fee
    } else {
        0int
    })
}

/// Two transactions that differ only in the value of their single output
/// have encodings of the same length.
proof fn lemma_same_encoded_len(t1: TransactionView, t2: TransactionView)
    requires
        t1.version == t2.version,
        t1.lock_time == t2.lock_time,
        t1.inputs == t2.inputs,
        t1.outputs.len() == 1,
        t2.outputs.len() == 1,
        t1.outputs[0].script_pubkey == t2.outputs[0].script_pubkey,
    ensures
        enc_tx(t1).len() == enc_tx(t2).len(),
{
    lemma_auto_spec_u64_to_from_le_bytes();
    assert(enc_outputs(t1.outputs) == enc_output(t1.outputs[0]) + enc_outputs(
        t1.outputs.drop_first(),
    ));
    assert(enc_outputs(t2.outputs) == enc_output(t2.outputs[0]) + enc_outputs(
        t2.outputs.drop_first(),
    ));
    assert(t1.outputs.drop_first().len() == 0);
    assert(t2.outputs.drop_first().len() == 0);
    assert(enc_output(t1.outputs[0]).len() == enc_output(t2.outputs[0]).len());
}

/// Builds the fee-bump child from plain values: the parent's identifier, the
/// operator's funding outpoint and amount, and the locking script its funds
/// return to. Never fails; the output value is the funding amount less the
/// package fee, floored at zero.
pub fn build_cpfp_with_script(
    parent_tx: &Transaction,
    parent_txid: Vec<u8>,
    funding_txid: Vec<u8>,
    funding_vout: u32,
    funding_amount: u64,
    return_script: Vec<u8>,
    fee_rate: u64,
) -> (t: Transaction)
    requires
        parent_txid@.len() == 32,
        funding_txid@.len() == 32,
    ensures
        cpfp_structure(
            t@,
            parent_tx@,
            parent_txid@,
            funding_txid@,
            funding_vout,
            funding_amount,
            return_script@,
            fee_rate,
        ),
        wf_tx(t@),
{
    let ghost gpt = parent_txid@;
    let ghost gft = funding_txid@;
    let ghost grs = return_script@;
    let rs_len = return_script.len();
    let mut inputs: Vec<TxInput> = Vec::new();
    inputs.push(make_input(parent_txid, 0));
    inputs.push(make_input(funding_txid, funding_vout));
    let mut outputs: Vec<TxOutput> = Vec::new();
    outputs.push(TxOutput { value: funding_amount, script_pubkey: return_script });
    let mut child = Transaction { version: TX_VERSION, lock_time: 0, inputs, outputs };
    let parent_vsize = tx_vsize(parent_tx);
    let child_vsize = tx_vsize(&child);
    let pv = parent_vsize as u64;
    let cv = child_vsize as u64;
    let ghost fee_spec = (spec_tx_vsize(parent_tx@) + spec_tx_vsize(child@)) * fee_rate;
    let output_value: u64;
    if fee_rate == 0 {
        output_value = funding_amount;
    } else if pv > u64::MAX - cv {
        proof {
            assert((pv + cv) * fee_rate > u64::MAX) by (nonlinear_arith)
                requires
                    pv + cv > u64::MAX,
                    fee_rate >= 1,
            ;
        }
        output_value = 0;
    } else {
        match (pv + cv).checked_mul(fee_rate) {
            Some(fee) => {
                output_value = if funding_amount >= fee {
                    funding_amount - fee
                } else {
                    0
                };
            },
            None => {
                output_value = 0;
            },
        }
    }
    let ghost gdraft = child@;
    let old_out = child.outputs.remove(0);
    child.outputs.push(TxOutput { value: output_value, script_pubkey: old_out.script_pubkey });
    proof {
        lemma_same_encoded_len(gdraft, child@);
        assert(spec_tx_vsize(child@) == spec_tx_vsize(gdraft));
        assert(child@.inputs == gdraft.inputs);
        assert(child@.outputs.len() == 1);
        assert(child@.outputs[0].script_pubkey == grs);
        assert(child@.outputs[0].value == (if funding_amount >= fee_spec {
            funding_amount - fee_spec
        } else {
            0int
        }));
        assert(wf_tx(child@)) by {
            assert forall|k: int| 0 <= k < child@.inputs.len() implies wf_input(
                #[trigger] child@.inputs[k],
            ) by {
                assert(child@.inputs[k] == gdraft.inputs[k]);
            }
            assert(rs_len <= usize::MAX);
        }
    }
    child
}

} // verus!

verus! {

/// Builds the fee-bump child for a parent transaction and the operator's
/// funding unit: the parent's identifier is the digest of its encoding, the
/// funds return to the unit's own address. Fails exactly when the unit
/// carries no address, its identifier is not 32 bytes, or its address does
/// not parse — in that order of checks.
pub fn create_cpfp_transaction(
    parent_tx: &Transaction,
    searcher_utxo: &WalletUtxo,
    fee_rate: u64,
) -> (r: Result<Transaction, RelayError>)
    ensures
        r is Ok <==> (searcher_utxo.txid@.len() == 32 && (searcher_utxo.address matches Some(a)
            && addr_parses(a@))),
        match r {
            Ok(t) => {
                &&& searcher_utxo.address matches Some(a) && cpfp_structure(
                    t@,
                    parent_tx@,
                    sha256d(enc_tx(parent_tx@)),
                    searcher_utxo.txid@,
                    searcher_utxo.vout,
                    searcher_utxo.amount,
                    address_script(a@),
                    fee_rate,
                )
                &&& wf_tx(t@)
            },
            Err(e) => match e {
                RelayError::MissingFundingAddress => searcher_utxo.address is None,
                RelayError::InvalidOutpoint => searcher_utxo.address is Some
                    && searcher_utxo.txid@.len() != 32,
                RelayError::InvalidAddress => searcher_utxo.txid@.len() == 32 && (
                searcher_utxo.address matches Some(a) && !addr_parses(a@)),
                _ => false,
            },
        },
{
    let addr = match &searcher_utxo.address {
        Some(a) => a,
        None => {
            return Err(RelayError::MissingFundingAddress);
        },
    };
    if searcher_utxo.txid.len() != 32 {
        return Err(RelayError::InvalidOutpoint);
    }
    let return_script = match address_to_script_unchecked(addr.as_str()) {
        Some(s) => s,
        None => {
            return Err(RelayError::InvalidAddress);
        },
    };
    let parent_bytes = encode_tx(parent_tx);
    let parent_txid = sha256d_digest(&parent_bytes);
    let funding_txid = vstd::slice::slice_to_vec(searcher_utxo.txid.as_slice());
    let t = build_cpfp_with_script(
        parent_tx,
        parent_txid,
        funding_txid,
        searcher_utxo.vout,
        searcher_utxo.amount,
        return_script,
        fee_rate,
    );
    Ok(t)
}

} // verus!

verus! {

/// The PSBT envelope of an assembled transaction: its encoding, wrapped in
/// the base64 PSBT form; nothing when the encoding is not one a PSBT can
/// carry.
pub fn transaction_psbt(t: &Transaction) -> (r: Option<String>)
    ensures
        r is Some <==> crate::external::psbt_encodable(enc_tx(t@)),
        r matches Some(p) ==> p@ == crate::external::psbt_of_tx_bytes(enc_tx(t@)),
{
    let bytes = encode_tx(t);
    crate::external::psbt_envelope(&bytes)
}

} // verus!
