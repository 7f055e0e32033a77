//! Structural checks on a submitted parent transaction: the anchor-output
//! shape, and the token-bearing funding units behind it.

use vstd::prelude::*;
use crate::model::{RelayError, Transaction, TransactionView, Utxo, spec_anchor_script, spec_has_rune, spec_rune_name, rune_name};
use crate::model::anchor_script;
use crate::encoding::{outpoint_txid, outpoint_vout, parse_outpoint, valid_outpoint};

verus! {

/// Output 0 exists, carries the fixed anchor locking script, and holds
/// value exactly zero.
pub open spec fn anchor_ok(t: TransactionView) -> bool {
    &&& t.outputs.len() > 0
    &&& t.outputs[0].script_pubkey == spec_anchor_script()
    &&& t.outputs[0].value == 0
}

/// The anchor-shape check: passes exactly the transactions whose first
/// output is the zero-value anchor.
pub fn validate_transaction(tx: &Transaction) -> (r: Result<(), RelayError>)
    ensures
        r is Ok <==> anchor_ok(tx@),
        r matches Err(e) ==> e == RelayError::NotAnchorTransaction,
{
    if tx.outputs.len() == 0 {
        return Err(RelayError::NotAnchorTransaction);
    }
    let expected = anchor_script();
    let same = tx.outputs[0].script_pubkey == expected;
    proof {
        if same {
            assert(tx@.outputs[0].script_pubkey =~= spec_anchor_script());
        } else {
            assert(tx@.outputs[0].script_pubkey != spec_anchor_script());
        }
    }
    if !same {
        return Err(RelayError::NotAnchorTransaction);
    }
    if tx.outputs[0].value != 0 {
        return Err(RelayError::NotAnchorTransaction);
    }
    Ok(())
}

/// Whether the funding unit carries the token with the given name.
pub fn has_rune(u: &Utxo, name: &String) -> (r: bool)
    ensures
        r == spec_has_rune(*u, name@),
{
    let mut i: usize = 0;
    while i < u.runes.len()
        invariant
            0 <= i <= u.runes@.len(),
            forall|k: int| 0 <= k < i ==> (#[trigger] u.runes@[k]).name@ != name@,
        decreases u.runes@.len() - i,
    {
        if u.runes[i].name == *name {
            return true;
        }
        i = i + 1;
    }
    false
}

/// Keeps the funding units that are not spent.
pub fn filter_unspent(utxos: Vec<Utxo>) -> (r: Vec<Utxo>)
    ensures
        r@ == utxos@.filter(|u: Utxo| !u.spent),
{
    let ghost orig = utxos@;
    let mut rest = utxos;
    let mut out: Vec<Utxo> = Vec::new();
    let mut i: usize = 0;
    let total = rest.len();
    proof {
        reveal(Seq::filter);
        assert(orig.len() == total);
        assert(orig.take(0).len() == 0);
        assert(out@ =~= orig.take(0).filter(|u: Utxo| !u.spent));
    }
    while rest.len() > 0
        invariant
            orig.len() <= usize::MAX,
            0 <= i <= orig.len(),
            rest@ == orig.skip(i as int),
            out@ == orig.take(i as int).filter(|u: Utxo| !u.spent),
        decreases rest@.len(),
    {
        proof {
            assert(rest@.len() == orig.len() - i);
        }
        let u = rest.remove(0);
        let ghost gu = u;
        let keep = !u.spent;
        proof {
            reveal(Seq::filter);
            let t1 = orig.take(i as int + 1);
            assert(t1.len() == i + 1);
            assert(t1.drop_last() =~= orig.take(i as int));
            assert(t1.last() == orig[i as int]);
            assert(gu == orig[i as int]);
            assert(rest@ =~= orig.skip(i as int + 1));
            assert(t1.filter(|u: Utxo| !u.spent) == (if !gu.spent {
                orig.take(i as int).filter(|u: Utxo| !u.spent).push(gu)
            } else {
                orig.take(i as int).filter(|u: Utxo| !u.spent)
            }));
        }
        if keep {
            out.push(u);
        }
        i = i + 1;
    }
    proof {
        assert(orig.skip(orig.len() as int).len() == 0);
        assert(orig.take(orig.len() as int) =~= orig);
    }
    out
}

/// Keeps the funding units that carry the configured token. This is the
/// filtering step behind the token-unit fetch: the caller supplies the
/// units the index returned for an address.
pub fn fetch_rune_utxos(utxos: Vec<Utxo>) -> (r: Vec<Utxo>)
    ensures
        r@ == utxos@.filter(|u: Utxo| spec_has_rune(u, spec_rune_name())),
{
    let name = rune_name();
    let ghost orig = utxos@;
    let mut rest = utxos;
    let mut out: Vec<Utxo> = Vec::new();
    let mut i: usize = 0;
    let total = rest.len();
    proof {
        reveal(Seq::filter);
        assert(orig.len() == total);
        assert(orig.take(0).len() == 0);
        assert(out@ =~= orig.take(0).filter(|u: Utxo| spec_has_rune(u, spec_rune_name())));
    }
    while rest.len() > 0
        invariant
            orig.len() <= usize::MAX,
            0 <= i <= orig.len(),
            name@ == spec_rune_name(),
            rest@ == orig.skip(i as int),
            out@ == orig.take(i as int).filter(|u: Utxo| spec_has_rune(u, spec_rune_name())),
        decreases rest@.len(),
    {
        proof {
            assert(rest@.len() == orig.len() - i);
        }
        let u = rest.remove(0);
        let ghost gu = u;
        let keep = has_rune(&u, &name);
        proof {
            reveal(Seq::filter);
            let t1 = orig.take(i as int + 1);
            assert(t1.len() == i + 1);
            assert(t1.drop_last() =~= orig.take(i as int));
            assert(t1.last() == orig[i as int]);
            assert(gu == orig[i as int]);
            assert(rest@ =~= orig.skip(i as int + 1));
            assert(t1.filter(|u: Utxo| spec_has_rune(u, spec_rune_name())) == (if spec_has_rune(
                gu,
                spec_rune_name(),
            ) {
                orig.take(i as int).filter(|u: Utxo| spec_has_rune(u, spec_rune_name())).push(gu)
            } else {
                orig.take(i as int).filter(|u: Utxo| spec_has_rune(u, spec_rune_name()))
            }));
        }
        if keep {
            out.push(u);
        }
        i = i + 1;
    }
    proof {
        assert(orig.skip(orig.len() as int).len() == 0);
        assert(orig.take(orig.len() as int) =~= orig);
    }
    out
}

/// Whether a funding unit's outpoint names the given transaction id and
/// output index.
pub open spec fn outpoint_matches(u: Utxo, txid: Seq<u8>, vout: u32) -> bool {
    &&& valid_outpoint(u.outpoint@)
    &&& outpoint_txid(u.outpoint@) == txid
    &&& outpoint_vout(u.outpoint@) == vout
}

/// Finds the first funding unit whose outpoint names the given transaction
/// id and output index; units are matched by outpoint value, not by its
/// text.
pub fn find_utxo_by_outpoint(utxos: &Vec<Utxo>, txid: &Vec<u8>, vout: u32) -> (r: Option<usize>)
    ensures
        match r {
            Some(i) => {
                &&& i < utxos@.len()
                &&& outpoint_matches(utxos@[i as int], txid@, vout)
                &&& forall|k: int| 0 <= k < i ==> !outpoint_matches(#[trigger] utxos@[k], txid@, vout)
            },
            None => forall|k: int|
                0 <= k < utxos@.len() ==> !outpoint_matches(#[trigger] utxos@[k], txid@, vout),
        },
{
    let mut i: usize = 0;
    while i < utxos.len()
        invariant
            0 <= i <= utxos@.len(),
            forall|k: int| 0 <= k < i ==> !outpoint_matches(#[trigger] utxos@[k], txid@, vout),
        decreases utxos@.len() - i,
    {
        match parse_outpoint(utxos[i].outpoint.as_str()) {
            Some((t, v)) => {
                if v == vout && t == *txid {
                    proof {
                        assert(t@ =~= txid@);
                    }
                    return Some(i);
                }
                proof {
                    if t@ != txid@ {
                        assert(!outpoint_matches(utxos@[i as int], txid@, vout));
                    }
                }
            },
            None => {},
        }
        i = i + 1;
    }
    None
}

} // verus!

verus! {

/// A transaction with the assembled parent's shape passes the anchor-shape
/// check: its first output is the zero-value anchor, whether or not a
/// change output follows.
pub proof fn lemma_built_parent_passes_anchor_check(
    t: TransactionView,
    selected: Seq<Utxo>,
    rune_utxo: Utxo,
    dest_script: Seq<u8>,
    change_script: Seq<u8>,
    amount: u64,
)
    requires
        crate::assemble::parent_structure(t, selected, rune_utxo, dest_script, change_script, amount),
    ensures
        anchor_ok(t),
{
}

} // verus!
