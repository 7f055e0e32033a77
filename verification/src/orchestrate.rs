//! The submission pipeline as a state machine over plain values. Each state
//! names the one outside call the runner must make next; the runner performs
//! it and hands the answer back as an event, and `advance` makes every
//! decision: parse, anchor check, token check, funding choice, child build,
//! signing gate and package-result inspection. A failure at any state
//! short-circuits to a completed outcome; nothing is handed to the node
//! before the final state.

use vstd::prelude::*;
use crate::assemble::{cpfp_structure, create_cpfp_transaction};
use crate::codec::{dec_tx, decode_tx, enc_tx, encode_tx};
use crate::encoding::{hex_bytes, hex_decode, hex_seq, txid_hex, valid_hex};
use crate::external::{addr_parses, address_script, extract_psbt_tx, psbt_parses, psbt_tx_bytes, script_address, script_has_address, script_to_address, sha256d, sha256d_digest};
use crate::model::{Network, RelayError, Transaction, Utxo, WalletUtxo, spec_has_rune, spec_rune_name, rune_name};
use crate::validate::{anchor_ok, find_utxo_by_outpoint, has_rune, outpoint_matches, validate_transaction};

verus! {

/// Process-wide configuration read by every request.
pub struct Config {
    /// The network the relay serves; addresses are resolved against it.
    pub network: Network,
    /// The fee rate, in value per virtual byte, for fee-bump construction.
    pub fee_rate: u64,
}

/// One per-transaction rejection detail from a package submission.
pub struct TxError {
    pub txid: String,
    pub error: String,
}

/// The structured result of one submission request.
pub enum Outcome {
    /// The package was accepted; both resulting transaction ids, in display
    /// form.
    Success { parent_txid: String, child_txid: String },
    /// The request failed validation or processing; reported to the caller.
    Failure { error: RelayError, details: Vec<TxError> },
    /// The node could not be consulted at all: a service-level error, not a
    /// validation failure.
    ServiceError,
}

/// The states of one request, in pipeline order. Every non-final state
/// carries exactly what the runner needs for its one outside call.
pub enum Step {
    /// Waiting for a submission.
    AwaitingRequest,
    /// Ask the index for the transaction named by the parent's last input.
    AwaitingTxDetail { parent: Transaction, txid: Vec<u8>, vout: u32, txid_display: String },
    /// Ask the index for the funding units of the derived address.
    AwaitingOutputs { parent: Transaction, txid: Vec<u8>, vout: u32, address: String },
    /// Ask the node for the operator's spendable funding units.
    AwaitingFunding { parent: Transaction },
    /// Ask the node to sign the built child transaction.
    AwaitingSignature {
        parent: Transaction,
        child: Transaction,
        child_hex: String,
        parent_txid: Vec<u8>,
    },
    /// Hand the package to the node.
    AwaitingSubmission {
        parent: Transaction,
        child: Transaction,
        parent_hex: String,
        child_hex: String,
    },
    /// Report the outcome; no further calls.
    Complete { outcome: Outcome },
}

/// The package-submission response, reduced to what the inspection reads.
pub struct PackageResponse {
    pub package_msg: Option<String>,
    pub tx_errors: Vec<TxError>,
}

/// The answer to the one call a state asked for.
pub enum Event {
    /// A submission arrived.
    Request { psbt: String },
    /// The locking script (in hexadecimal) of the referenced output, or
    /// nothing when the lookup failed or the output does not exist.
    TxDetail { script_hex: Option<String> },
    /// The funding units of the derived address, or nothing on failure.
    Outputs { utxos: Option<Vec<Utxo>> },
    /// The operator's spendable funding units, or nothing on failure.
    Funding { units: Option<Vec<WalletUtxo>> },
    /// The signer's answer: whether it signed completely, and the signed
    /// transaction in hexadecimal.
    Signature { complete: bool, signed_hex: Option<String> },
    /// The package-submission response, or nothing when the call failed.
    Submission { response: Option<PackageResponse> },
}

/// Which event answers which state.
pub open spec fn expects(state: Step, event: Event) -> bool {
    match state {
        Step::AwaitingRequest => event matches Event::Request { .. },
        Step::AwaitingTxDetail { .. } => event matches Event::TxDetail { .. },
        Step::AwaitingOutputs { .. } => event matches Event::Outputs { .. },
        Step::AwaitingFunding { .. } => event matches Event::Funding { .. },
        Step::AwaitingSignature { .. } => event matches Event::Signature { .. },
        Step::AwaitingSubmission { .. } => event matches Event::Submission { .. },
        Step::Complete { .. } => false,
    }
}

pub open spec fn is_failure(next: Step, e: RelayError) -> bool {
    next matches Step::Complete { outcome: Outcome::Failure { error, details } } && error == e
        && details@.len() == 0
}

/// What the parse stage decides, exactly: an unparseable envelope or an
/// undecodable transaction is malformed input; a decoded parent that fails
/// the anchor check is rejected before any external call; one without
/// inputs lacks the token input; one that passes moves on, carrying its
/// last input's outpoint.
pub open spec fn request_post(psbt: Seq<char>, next: Step) -> bool {
    if !psbt_parses(psbt) {
        is_failure(next, RelayError::MalformedInput)
    } else {
        match dec_tx(psbt_tx_bytes(psbt)) {
            None => is_failure(next, RelayError::MalformedInput),
            Some(t) => {
                if !anchor_ok(t) {
                    is_failure(next, RelayError::NotAnchorTransaction)
                } else if t.inputs.len() == 0 {
                    is_failure(next, RelayError::TokenInputMissing)
                } else {
                    let last = t.inputs[t.inputs.len() - 1];
                    next matches Step::AwaitingTxDetail { parent, txid, vout, txid_display }
                        && parent@ == t && txid@ == last.prev_txid && vout == last.prev_vout
                        && txid_display@ == hex_seq(last.prev_txid.reverse())
                }
            },
        }
    }
}

/// What the first lookup stage decides, exactly: a failed lookup, a script
/// that is not hexadecimal, or one no address can be derived from fails the
/// lookup; otherwise the derived address moves on, with the outpoint
/// carried unchanged.
pub open spec fn txdetail_post(
    cfg: Config,
    parent0: Transaction,
    txid0: Seq<u8>,
    vout0: u32,
    script_hex: Option<String>,
    next: Step,
) -> bool {
    match script_hex {
        None => is_failure(next, RelayError::IndexLookupFailed),
        Some(h) => {
            if !valid_hex(h@) || !script_has_address(hex_bytes(h@), cfg.network) {
                is_failure(next, RelayError::IndexLookupFailed)
            } else {
                next matches Step::AwaitingOutputs { parent, txid, vout, address }
                    && parent@ == parent0@ && txid@ == txid0 && vout == vout0
                    && address@ == script_address(hex_bytes(h@), cfg.network)
            }
        },
    }
}

/// The first index entry matching the outpoint.
pub open spec fn first_outpoint_match(us: Seq<Utxo>, txid: Seq<u8>, vout: u32, k: int) -> bool {
    &&& 0 <= k < us.len()
    &&& outpoint_matches(us[k], txid, vout)
    &&& forall|j: int| 0 <= j < k ==> !outpoint_matches(#[trigger] us[j], txid, vout)
}

/// What the second lookup stage decides, exactly: no answer or no matching
/// unit fails the lookup; a matching unit without the token is rejected; a
/// matching unit with the token moves on to the funding lookup.
pub open spec fn outputs_post(
    parent0: Transaction,
    txid0: Seq<u8>,
    vout0: u32,
    utxos: Option<Vec<Utxo>>,
    next: Step,
) -> bool {
    match utxos {
        None => is_failure(next, RelayError::IndexLookupFailed),
        Some(us) => {
            &&& ((forall|k: int|
                0 <= k < us@.len() ==> !outpoint_matches(#[trigger] us@[k], txid0, vout0))
                ==> is_failure(next, RelayError::IndexLookupFailed))
            &&& (forall|k: int|
                first_outpoint_match(us@, txid0, vout0, k) && !spec_has_rune(
                    #[trigger] us@[k],
                    spec_rune_name(),
                ) ==> is_failure(next, RelayError::TokenInputMissing))
            &&& (forall|k: int|
                first_outpoint_match(us@, txid0, vout0, k) && spec_has_rune(
                    #[trigger] us@[k],
                    spec_rune_name(),
                ) ==> (next matches Step::AwaitingFunding { parent } && parent@ == parent0@))
        },
    }
}

/// What the funding stage decides, exactly: no answer is a service error;
/// an empty wallet is `NoSearcherFunds`; a first unit without an address,
/// with a malformed identifier, or with an unparseable address is rejected
/// with its exact cause; otherwise it funds the child, whose shape and
/// output value are fixed by `cpfp_structure`.
pub open spec fn funding_post(
    cfg: Config,
    parent0: Transaction,
    units: Option<Vec<WalletUtxo>>,
    next: Step,
) -> bool {
    match units {
        None => next matches Step::Complete { outcome: Outcome::ServiceError },
        Some(us) => {
            if us@.len() == 0 {
                is_failure(next, RelayError::NoSearcherFunds)
            } else {
                let u = us@[0];
                match u.address {
                    None => is_failure(next, RelayError::MissingFundingAddress),
                    Some(a) => {
                        if u.txid@.len() != 32 {
                            is_failure(next, RelayError::InvalidOutpoint)
                        } else if !addr_parses(a@) {
                            is_failure(next, RelayError::InvalidAddress)
                        } else {
                            next matches Step::AwaitingSignature {
                                parent,
                                child,
                                child_hex,
                                parent_txid,
                            } && parent@ == parent0@ && cpfp_structure(
                                child@,
                                parent0@,
                                sha256d(enc_tx(parent0@)),
                                u.txid@,
                                u.vout,
                                u.amount,
                                address_script(a@),
                                cfg.fee_rate,
                            ) && child_hex@ == hex_seq(enc_tx(child@)) && parent_txid@ == sha256d(
                                enc_tx(parent0@),
                            )
                        }
                    },
                }
            }
        },
    }
}

/// What the signing gate decides, exactly: an incomplete or missing
/// signature stops the pipeline; a complete one moves to submission with
/// the parent's encoding and the signed child passed through.
pub open spec fn signature_post(
    parent0: Transaction,
    child0: Transaction,
    complete: bool,
    signed_hex: Option<String>,
    next: Step,
) -> bool {
    if !complete || signed_hex is None {
        is_failure(next, RelayError::SigningIncomplete)
    } else {
        signed_hex matches Some(h) && next matches Step::AwaitingSubmission {
            parent,
            child,
            parent_hex,
            child_hex,
        } && parent@ == parent0@ && child@ == child0@ && parent_hex@ == hex_seq(enc_tx(parent0@))
            && child_hex@ == h@
    }
}

/// What the package inspection decides, exactly: a failed call is reported
/// as such; a response carrying the failure marker is a rejection with its
/// per-transaction details; anything else is success, reporting both
/// transaction ids in display form.
pub open spec fn submission_post(
    parent0: Transaction,
    child0: Transaction,
    response: Option<PackageResponse>,
    next: Step,
) -> bool {
    match response {
        None => is_failure(next, RelayError::NodeRequestFailed),
        Some(resp) => {
            if resp.package_msg matches Some(m) && m@ == "transaction failed"@ {
                next matches Step::Complete {
                    outcome: Outcome::Failure { error: RelayError::PackageRejected, details },
                } && details == resp.tx_errors
            } else {
                next matches Step::Complete {
                    outcome: Outcome::Success { parent_txid, child_txid },
                } && parent_txid@ == hex_seq(sha256d(enc_tx(parent0@)).reverse())
                    && child_txid@ == hex_seq(sha256d(enc_tx(child0@)).reverse())
            }
        },
    }
}

/// The whole transition relation of the pipeline.
pub open spec fn advance_post(cfg: Config, state: Step, event: Event, next: Step) -> bool {
    match state {
        Step::AwaitingRequest => match event {
            Event::Request { psbt } => request_post(psbt@, next),
            _ => true,
        },
        Step::AwaitingTxDetail { parent, txid, vout, .. } => match event {
            Event::TxDetail { script_hex } => txdetail_post(
                cfg,
                parent,
                txid@,
                vout,
                script_hex,
                next,
            ),
            _ => true,
        },
        Step::AwaitingOutputs { parent, txid, vout, .. } => match event {
            Event::Outputs { utxos } => outputs_post(parent, txid@, vout, utxos, next),
            _ => true,
        },
        Step::AwaitingFunding { parent } => match event {
            Event::Funding { units } => funding_post(cfg, parent, units, next),
            _ => true,
        },
        Step::AwaitingSignature { parent, child, .. } => match event {
            Event::Signature { complete, signed_hex } => signature_post(
                parent,
                child,
                complete,
                signed_hex,
                next,
            ),
            _ => true,
        },
        Step::AwaitingSubmission { parent, child, .. } => match event {
            Event::Submission { response } => submission_post(parent, child, response, next),
            _ => true,
        },
        Step::Complete { .. } => true,
    }
}

fn fail(error: RelayError) -> (s: Step)
    ensures
        is_failure(s, error),
{
    let details: Vec<TxError> = Vec::new();
    Step::Complete { outcome: Outcome::Failure { error, details } }
}

/// Performs one transition of the pipeline: from the current state and the
/// answer to its outside call, decide the next state and, through it, the
/// next call.
pub fn advance(config: &Config, state: Step, event: Event) -> (next: Step)
    requires
        expects(state, event),
    ensures
        advance_post(*config, state, event, next),
{
    let ghost gstate = state;
    let ghost gevent = event;
    match (state, event) {
        (Step::AwaitingRequest, Event::Request { psbt }) => {
            let bytes = match extract_psbt_tx(psbt.as_str()) {
                Some(b) => b,
                None => {
                    return fail(RelayError::MalformedInput);
                },
            };
            let parent = match decode_tx(&bytes) {
                Some(t) => t,
                None => {
                    return fail(RelayError::MalformedInput);
                },
            };
            if let Err(e) = validate_transaction(&parent) {
                return fail(e);
            }
            if parent.inputs.len() == 0 {
                return fail(RelayError::TokenInputMissing);
            }
            let last = &parent.inputs[parent.inputs.len() - 1];
            let txid = vstd::slice::slice_to_vec(last.prev_txid.as_slice());
            let vout = last.prev_vout;
            let txid_display = txid_hex(&txid);
            Step::AwaitingTxDetail { parent, txid, vout, txid_display }
        },
        (Step::AwaitingTxDetail { parent, txid, vout, .. }, Event::TxDetail { script_hex }) => {
            let h = match script_hex {
                Some(h) => h,
                None => {
                    return fail(RelayError::IndexLookupFailed);
                },
            };
            let script = match hex_decode(h.as_str()) {
                Some(s) => s,
                None => {
                    return fail(RelayError::IndexLookupFailed);
                },
            };
            let address = match script_to_address(&script, config.network) {
                Some(a) => a,
                None => {
                    return fail(RelayError::IndexLookupFailed);
                },
            };
            Step::AwaitingOutputs { parent, txid, vout, address }
        },
        (Step::AwaitingOutputs { parent, txid, vout, .. }, Event::Outputs { utxos }) => {
            let us = match utxos {
                Some(us) => us,
                None => {
                    return fail(RelayError::IndexLookupFailed);
                },
            };
            let idx = match find_utxo_by_outpoint(&us, &txid, vout) {
                Some(i) => i,
                None => {
                    return fail(RelayError::IndexLookupFailed);
                },
            };
            let name = rune_name();
            if !has_rune(&us[idx], &name) {
                proof {
                    assert(first_outpoint_match(us@, txid@, vout, idx as int));
                }
                return fail(RelayError::TokenInputMissing);
            }
            proof {
                assert(first_outpoint_match(us@, txid@, vout, idx as int));
                assert forall|k: int|
                    first_outpoint_match(us@, txid@, vout, k) implies k == idx as int by {
                    if k < idx as int {
                        assert(outpoint_matches(us@[k], txid@, vout));
                    }
                }
            }
            Step::AwaitingFunding { parent }
        },
        (Step::AwaitingFunding { parent }, Event::Funding { units }) => {
            let us = match units {
                Some(us) => us,
                None => {
                    return Step::Complete { outcome: Outcome::ServiceError };
                },
            };
            if us.len() == 0 {
                return fail(RelayError::NoSearcherFunds);
            }
            let child = match create_cpfp_transaction(&parent, &us[0], config.fee_rate) {
                Ok(c) => c,
                Err(e) => {
                    return fail(e);
                },
            };
            let child_bytes = encode_tx(&child);
            let child_hex = crate::encoding::hex_encode(&child_bytes);
            let parent_bytes = encode_tx(&parent);
            let parent_txid = sha256d_digest(&parent_bytes);
            Step::AwaitingSignature { parent, child, child_hex, parent_txid }
        },
        (
            Step::AwaitingSignature { parent, child, .. },
            Event::Signature { complete, signed_hex },
        ) => {
            let h = match signed_hex {
                Some(h) => h,
                None => {
                    return fail(RelayError::SigningIncomplete);
                },
            };
            if !complete {
                return fail(RelayError::SigningIncomplete);
            }
            let parent_bytes = encode_tx(&parent);
            let parent_hex = crate::encoding::hex_encode(&parent_bytes);
            Step::AwaitingSubmission { parent, child, parent_hex, child_hex: h }
        },
        (Step::AwaitingSubmission { parent, child, .. }, Event::Submission { response }) => {
            let resp = match response {
                Some(r) => r,
                None => {
                    return fail(RelayError::NodeRequestFailed);
                },
            };
            let rejected = match &resp.package_msg {
                Some(m) => *m == "transaction failed".to_owned(),
                None => false,
            };
            if rejected {
                return Step::Complete {
                    outcome: Outcome::Failure {
                        error: RelayError::PackageRejected,
                        details: resp.tx_errors,
                    },
                };
            }
            let parent_bytes = encode_tx(&parent);
            let parent_id = sha256d_digest(&parent_bytes);
            let child_bytes = encode_tx(&child);
            let child_id = sha256d_digest(&child_bytes);
            let parent_txid = txid_hex(&parent_id);
            let child_txid = txid_hex(&child_id);
            Step::Complete { outcome: Outcome::Success { parent_txid, child_txid } }
        },
        _ => {
            proof {
                assert(false);
            }
            Step::AwaitingRequest
        },
    }
}

} // verus!
