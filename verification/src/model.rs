//! Plain-value data model: the network tag, transactions as ordered inputs and
//! outputs, funding units as reported by the index service, the operator's
//! wallet funding units, protocol constants, and the error kinds surfaced by
//! the pipeline.

use vstd::prelude::*;

verus! {

/// The network a request is served against; addresses are validated against it.
#[derive(Clone, Copy, PartialEq, Eq, Structural, Debug)]
pub enum Network {
    Bitcoin,
    Testnet,
    Signet,
    Regtest,
}

/// Maps a network name to its tag; unknown names fall back to the main network.
pub fn parse_network(network_str: &str) -> (n: Network)
    ensures
        n == spec_parse_network(network_str@),
{
    let s = network_str.to_owned();
    if s == "testnet".to_owned() || s == "testnet4".to_owned() {
        Network::Testnet
    } else if s == "signet".to_owned() {
        Network::Signet
    } else if s == "regtest".to_owned() {
        Network::Regtest
    } else {
        Network::Bitcoin
    }
}

pub open spec fn spec_parse_network(s: Seq<char>) -> Network {
    if s == "testnet"@ || s == "testnet4"@ {
        Network::Testnet
    } else if s == "signet"@ {
        Network::Signet
    } else if s == "regtest"@ {
        Network::Regtest
    } else {
        Network::Bitcoin
    }
}

/// The name of the fungible token whose presence marks a token-bearing input.
pub fn rune_name() -> (s: String)
    ensures
        s@ == spec_rune_name(),
{
    "TESTSLUGLINERUNE".to_owned()
}

pub open spec fn spec_rune_name() -> Seq<char> {
    "TESTSLUGLINERUNE"@
}

/// The fixed anchor locking script: `OP_PUSHNUM_1` followed by a two-byte push.
pub open spec fn spec_anchor_script() -> Seq<u8> {
    seq![0x51u8, 0x02u8, 0x4eu8, 0x73u8]
}

/// Builds the anchor locking script bytes.
pub fn anchor_script() -> (s: Vec<u8>)
    ensures
        s@ == spec_anchor_script(),
{
    let mut s: Vec<u8> = Vec::new();
    s.push(0x51);
    s.push(0x02);
    s.push(0x4e);
    s.push(0x73);
    proof {
        assert(s@ =~= spec_anchor_script());
    }
    s
}

/// One transaction input: the outpoint it spends, a signature script
/// placeholder, and a sequence number. Witness data never appears here: the
/// library only ever handles unsigned transactions.
pub struct TxInput {
    /// Previous transaction id, as the 32 bytes that appear in the encoding.
    pub prev_txid: Vec<u8>,
    pub prev_vout: u32,
    pub script_sig: Vec<u8>,
    pub sequence: u32,
}

pub struct TxInputView {
    pub prev_txid: Seq<u8>,
    pub prev_vout: u32,
    pub script_sig: Seq<u8>,
    pub sequence: u32,
}

impl View for TxInput {
    type V = TxInputView;

    open spec fn view(&self) -> TxInputView {
        TxInputView {
            prev_txid: self.prev_txid@,
            prev_vout: self.prev_vout,
            script_sig: self.script_sig@,
            sequence: self.sequence,
        }
    }
}

/// One transaction output: a value in minor units and a locking script.
pub struct TxOutput {
    pub value: u64,
    pub script_pubkey: Vec<u8>,
}

pub struct TxOutputView {
    pub value: u64,
    pub script_pubkey: Seq<u8>,
}

impl View for TxOutput {
    type V = TxOutputView;

    open spec fn view(&self) -> TxOutputView {
        TxOutputView { value: self.value, script_pubkey: self.script_pubkey@ }
    }
}

/// An unsigned transaction: ordered inputs and ordered outputs.
pub struct Transaction {
    pub version: u32,
    pub lock_time: u32,
    pub inputs: Vec<TxInput>,
    pub outputs: Vec<TxOutput>,
}

pub struct TransactionView {
    pub version: u32,
    pub lock_time: u32,
    pub inputs: Seq<TxInputView>,
    pub outputs: Seq<TxOutputView>,
}

impl View for Transaction {
    type V = TransactionView;

    open spec fn view(&self) -> TransactionView {
        TransactionView {
            version: self.version,
            lock_time: self.lock_time,
            inputs: self.inputs@.map_values(|i: TxInput| i@),
            outputs: self.outputs@.map_values(|o: TxOutput| o@),
        }
    }
}

/// The sequence value every constructed input carries (replaceable, no
/// locktime constraint).
pub const SEQUENCE_RBF: u32 = 0xFFFFFFFD;

/// The transaction version every constructed transaction carries.
pub const TX_VERSION: u32 = 3;

/// Token metadata attached to a funding unit under a token name.
pub struct RuneEntry {
    pub name: String,
    pub amount: u64,
    pub divisibility: u8,
    pub symbol: String,
}

/// A funding unit (UTXO) as reported by the index service: the owning
/// address, the outpoint written `txid:vout`, the value in minor units, the
/// confirmation count, the spent flag, and the tokens it carries.
pub struct Utxo {
    pub address: String,
    pub confirmations: u32,
    pub outpoint: String,
    pub runes: Vec<RuneEntry>,
    pub spent: bool,
    pub value: u64,
}

/// Whether a funding unit carries the token with the given name.
pub open spec fn spec_has_rune(u: Utxo, name: Seq<char>) -> bool {
    exists|i: int| 0 <= i < u.runes@.len() && u.runes@[i].name@ == name
}

/// A funding unit of the operator's own wallet, as the node reports it.
pub struct WalletUtxo {
    /// Transaction id, as the 32 bytes that appear in an encoded outpoint.
    pub txid: Vec<u8>,
    pub vout: u32,
    pub amount: u64,
    pub address: Option<String>,
}

/// The error kinds the pipeline can report. Every failure is turned into one
/// of these at the orchestrator boundary; none escapes as a fault.
#[derive(Debug)]
pub enum RelayError {
    /// The submitted envelope or its embedded transaction does not parse.
    MalformedInput,
    /// Output 0 is missing, has the wrong script, or a non-zero value.
    NotAnchorTransaction,
    /// The last input's funding unit does not carry the configured token.
    TokenInputMissing,
    /// The index service failed to resolve the last input's funding unit.
    IndexLookupFailed,
    /// An address does not belong to the configured network.
    AddressNetworkMismatch,
    /// An address does not parse at all.
    InvalidAddress,
    /// A funding unit's outpoint is not of the form `txid:vout`.
    InvalidOutpoint,
    /// No token-bearing funding unit was supplied to the parent builder.
    NoTokenUnitsAvailable,
    /// The funding units sum to less than the required target.
    InsufficientFunds { available: u64, required: u64 },
    /// The operator's wallet holds no spendable funding unit.
    NoSearcherFunds,
    /// The operator's funding unit carries no address to return funds to.
    MissingFundingAddress,
    /// The node could not fully sign the child transaction.
    SigningIncomplete,
    /// The node rejected the submitted package.
    PackageRejected,
    /// The node's package-submission call could not be made.
    NodeRequestFailed,
}

impl RelayError {
    /// A fixed human-readable message for each error kind.
    pub fn message(&self) -> (m: String)
        ensures
            m@ == self.spec_message(),
    {
        match self {
            RelayError::MalformedInput => "Invalid PSBT".to_owned(),
            RelayError::NotAnchorTransaction => "First output is not a P2A output".to_owned(),
            RelayError::TokenInputMissing => "Last input does not contain the rune".to_owned(),
            RelayError::IndexLookupFailed => "Failed to look up UTXO in index".to_owned(),
            RelayError::AddressNetworkMismatch => "Address does not match network".to_owned(),
            RelayError::InvalidAddress => "Invalid address".to_owned(),
            RelayError::InvalidOutpoint => "Invalid outpoint format".to_owned(),
            RelayError::NoTokenUnitsAvailable => "No rune UTXOs available for fee payment".to_owned(),
            RelayError::InsufficientFunds { .. } => "Insufficient funds".to_owned(),
            RelayError::NoSearcherFunds => "No UTXOs available in searcher wallet".to_owned(),
            RelayError::MissingFundingAddress => "No address in UTXO".to_owned(),
            RelayError::SigningIncomplete => "Failed to fully sign CPFP transaction".to_owned(),
            RelayError::PackageRejected => "Package submission failed".to_owned(),
            RelayError::NodeRequestFailed => "Failed to submit package".to_owned(),
        }
    }

    pub open spec fn spec_message(&self) -> Seq<char> {
        match self {
            RelayError::MalformedInput => "Invalid PSBT"@,
            RelayError::NotAnchorTransaction => "First output is not a P2A output"@,
            RelayError::TokenInputMissing => "Last input does not contain the rune"@,
            RelayError::IndexLookupFailed => "Failed to look up UTXO in index"@,
            RelayError::AddressNetworkMismatch => "Address does not match network"@,
            RelayError::InvalidAddress => "Invalid address"@,
            RelayError::InvalidOutpoint => "Invalid outpoint format"@,
            RelayError::NoTokenUnitsAvailable => "No rune UTXOs available for fee payment"@,
            RelayError::InsufficientFunds { .. } => "Insufficient funds"@,
            RelayError::NoSearcherFunds => "No UTXOs available in searcher wallet"@,
            RelayError::MissingFundingAddress => "No address in UTXO"@,
            RelayError::SigningIncomplete => "Failed to fully sign CPFP transaction"@,
            RelayError::PackageRejected => "Package submission failed"@,
            RelayError::NodeRequestFailed => "Failed to submit package"@,
        }
    }
}

} // verus!
