//! The library's view of the outside cryptographic and address machinery.
//! Each function here wraps one small call chain of the `bitcoin` crate; its
//! contract names the result and is taken on trust, and everything built on
//! top of it is verified against that contract.

use vstd::prelude::*;
use crate::model::{Network, RelayError};

verus! {

/// What serializing the unsigned transaction embedded in a PSBT string
/// yields: a function of the string alone.
pub uninterp spec fn psbt_tx_bytes(s: Seq<char>) -> Seq<u8>;

/// The double-SHA-256 digest of a byte string: a function of the bytes
/// alone. Transaction ids are this digest of the encoded transaction.
pub uninterp spec fn sha256d(b: Seq<u8>) -> Seq<u8>;

/// The locking script a parseable address pays to: a function of the address
/// string alone (the network only decides whether parsing succeeds).
pub uninterp spec fn address_script(addr: Seq<char>) -> Seq<u8>;

/// The displayed address form of a locking script on a network.
pub uninterp spec fn script_address(script: Seq<u8>, network: Network) -> Seq<char>;

/// Whether a PSBT string parses at all: a function of the string alone.
pub uninterp spec fn psbt_parses(s: Seq<char>) -> bool;

/// Whether a string parses as an address: a function of the string alone.
pub uninterp spec fn addr_parses(a: Seq<char>) -> bool;

/// Whether a parseable address belongs to a network.
pub uninterp spec fn addr_on_network(a: Seq<char>, network: Network) -> bool;

/// Whether a locking script has a standard form an address can be derived
/// from.
pub uninterp spec fn script_has_address(script: Seq<u8>, network: Network) -> bool;

/// Relies on bitcoin's `Psbt::from_str`, `Psbt::extract_tx_unchecked_fee_rate`
/// and `consensus::encode::serialize`: decodes the base64 PSBT envelope and
/// serializes the transaction it carries. The fee-rate sanity check is left
/// out: the pipeline reads only the unsigned transaction and sets its own
/// fee. A failure to parse is reported as `None`.
#[verifier::external_body]
pub(crate) fn extract_psbt_tx(s: &str) -> (r: Option<Vec<u8>>)
    ensures
        r is Some <==> psbt_parses(s@),
        r matches Some(b) ==> b@ == psbt_tx_bytes(s@),
{
    let psbt = match s.parse::<bitcoin::psbt::Psbt>() {
        Ok(p) => p,
        Err(_) => return None,
    };
    let tx = psbt.extract_tx_unchecked_fee_rate();
    Some(bitcoin::consensus::encode::serialize(&tx))
}

/// Relies on bitcoin_hashes' `sha256d::Hash::hash`: the double-SHA-256
/// digest, always 32 bytes.
#[verifier::external_body]
pub(crate) fn sha256d_digest(b: &Vec<u8>) -> (r: Vec<u8>)
    ensures
        r@ == sha256d(b@),
        r@.len() == 32,
{
    let h = <bitcoin::hashes::sha256d::Hash as bitcoin::hashes::Hash>::hash(b.as_slice());
    <bitcoin::hashes::sha256d::Hash as bitcoin::hashes::Hash>::to_byte_array(h).to_vec()
}

/// Relies on bitcoin's `Address` parsing, `require_network` and
/// `script_pubkey`: resolves an address against the network and returns the
/// locking script it pays to. An unparseable address and one of another
/// network are told apart.
#[verifier::external_body]
pub(crate) fn address_to_script(addr: &str, network: Network) -> (r: Result<Vec<u8>, RelayError>)
    ensures
        r is Ok <==> (addr_parses(addr@) && addr_on_network(addr@, network)),
        r matches Ok(v) ==> v@ == address_script(addr@),
        r matches Err(e) ==> (e == RelayError::InvalidAddress <==> !addr_parses(addr@)),
        r matches Err(e) ==> (e == RelayError::AddressNetworkMismatch <==> addr_parses(addr@)
            && !addr_on_network(addr@, network)),
{
    let net = match network {
        Network::Bitcoin => bitcoin::Network::Bitcoin,
        Network::Testnet => bitcoin::Network::Testnet,
        Network::Signet => bitcoin::Network::Signet,
        Network::Regtest => bitcoin::Network::Regtest,
    };
    let a = match addr.parse::<bitcoin::address::Address<bitcoin::address::NetworkUnchecked>>() {
        Ok(a) => a,
        Err(_) => return Err(RelayError::InvalidAddress),
    };
    let checked = match a.require_network(net) {
        Ok(c) => c,
        Err(_) => return Err(RelayError::AddressNetworkMismatch),
    };
    Ok(checked.script_pubkey().to_bytes())
}

/// Relies on bitcoin's `Address::from_script` and the address display form:
/// derives the address a locking script pays to, when the script has a
/// standard form.
#[verifier::external_body]
pub(crate) fn script_to_address(script: &Vec<u8>, network: Network) -> (r: Option<String>)
    ensures
        r is Some <==> script_has_address(script@, network),
        r matches Some(a) ==> a@ == script_address(script@, network),
{
    let net = match network {
        Network::Bitcoin => bitcoin::Network::Bitcoin,
        Network::Testnet => bitcoin::Network::Testnet,
        Network::Signet => bitcoin::Network::Signet,
        Network::Regtest => bitcoin::Network::Regtest,
    };
    let sb = bitcoin::ScriptBuf::from_bytes(script.clone());
    match bitcoin::Address::from_script(&sb, net) {
        Ok(a) => Some(a.to_string()),
        Err(_) => None,
    }
}

} // verus!

verus! {

/// Relies on bitcoin's `Address` parsing, `assume_checked` and
/// `script_pubkey`: the locking script of an address taken as-is, with no
/// network check, as the node's own wallet addresses are trusted to be.
#[verifier::external_body]
pub(crate) fn address_to_script_unchecked(addr: &str) -> (r: Option<Vec<u8>>)
    ensures
        r is Some <==> addr_parses(addr@),
        r matches Some(v) ==> v@ == address_script(addr@),
{
    match addr.parse::<bitcoin::address::Address<bitcoin::address::NetworkUnchecked>>() {
        Ok(a) => Some(a.assume_checked().script_pubkey().to_bytes()),
        Err(_) => None,
    }
}

} // verus!

verus! {

/// The base64 PSBT envelope that wraps an unsigned transaction's encoding:
/// a function of the bytes alone.
pub uninterp spec fn psbt_of_tx_bytes(b: Seq<u8>) -> Seq<char>;

/// Whether bytes decode as a transaction a PSBT envelope can carry (an
/// unsigned one): a function of the bytes alone.
pub uninterp spec fn psbt_encodable(b: Seq<u8>) -> bool;

/// Relies on bitcoin's `consensus::encode::deserialize`,
/// `Psbt::from_unsigned_tx` and the PSBT display form: wraps an encoded
/// unsigned transaction in the base64 PSBT envelope. Fails exactly when the
/// bytes are not such a transaction.
#[verifier::external_body]
pub(crate) fn psbt_envelope(tx_bytes: &Vec<u8>) -> (r: Option<String>)
    ensures
        r is Some <==> psbt_encodable(tx_bytes@),
        r matches Some(p) ==> p@ == psbt_of_tx_bytes(tx_bytes@),
{
    let tx: bitcoin::Transaction = match bitcoin::consensus::encode::deserialize(tx_bytes) {
        Ok(t) => t,
        Err(_) => return None,
    };
    match bitcoin::psbt::Psbt::from_unsigned_tx(tx) {
        Ok(psbt) => Some(psbt.to_string()),
        Err(_) => None,
    }
}

} // verus!
