//! Coin selection: a greedy largest-first strategy over funding units. The
//! units are sorted by value descending and accumulated until the running sum
//! meets the target; the accumulated prefix is the selection.

use vstd::prelude::*;
use vstd::multiset::Multiset;
use crate::model::{RelayError, Utxo};

verus! {

/// The summed value of a sequence of funding units.
pub open spec fn sum_values(s: Seq<Utxo>) -> int
    decreases s.len(),
{
    if s.len() == 0 {
        0
    } else {
        s[0].value + sum_values(s.drop_first())
    }
}

/// Values never increase along the sequence.
pub open spec fn sorted_desc(s: Seq<Utxo>) -> bool {
    forall|i: int, j: int| 0 <= i < j < s.len() ==> s[i].value >= s[j].value
}

pub proof fn lemma_sum_nonneg(s: Seq<Utxo>)
    ensures
        sum_values(s) >= 0,
    decreases s.len(),
{
    if s.len() > 0 {
        lemma_sum_nonneg(s.drop_first());
    }
}

pub proof fn lemma_sum_concat(a: Seq<Utxo>, b: Seq<Utxo>)
    ensures
        sum_values(a + b) == sum_values(a) + sum_values(b),
    decreases a.len(),
{
    if a.len() == 0 {
        assert(a + b =~= b);
    } else {
        lemma_sum_concat(a.drop_first(), b);
        assert((a + b).drop_first() =~= a.drop_first() + b);
        assert((a + b)[0] == a[0]);
    }
}

pub proof fn lemma_sum_remove(s: Seq<Utxo>, i: int)
    requires
        0 <= i < s.len(),
    ensures
        sum_values(s.remove(i)) == sum_values(s) - s[i].value,
{
    let front = s.take(i);
    let mid = seq![s[i]];
    let back = s.skip(i + 1);
    assert(s =~= front + mid + back);
    assert(s.remove(i) =~= front + back);
    lemma_sum_concat(front + mid, back);
    lemma_sum_concat(front, mid);
    lemma_sum_concat(front, back);
    assert(sum_values(mid) == s[i].value + sum_values(mid.drop_first()));
    assert(mid.drop_first() =~= Seq::<Utxo>::empty());
}

pub proof fn lemma_sum_snoc(s: Seq<Utxo>, x: Utxo)
    ensures
        sum_values(s.push(x)) == sum_values(s) + x.value,
{
    assert(s.push(x) =~= s + seq![x]);
    lemma_sum_concat(s, seq![x]);
    assert(sum_values(seq![x]) == x.value + sum_values(seq![x].drop_first()));
    assert(seq![x].drop_first() =~= Seq::<Utxo>::empty());
}

/// Sorts funding units by value descending, keeping the collection's
/// contents and total value.
fn sort_desc(v: Vec<Utxo>) -> (out: Vec<Utxo>)
    ensures
        out@.to_multiset() == v@.to_multiset(),
        out@.len() == v@.len(),
        sorted_desc(out@),
        sum_values(out@) == sum_values(v@),
{
    broadcast use vstd::seq_lib::group_to_multiset_ensures;
    broadcast use vstd::multiset::group_multiset_axioms;

    let ghost orig = v@;
    let mut v = v;
    let mut out: Vec<Utxo> = Vec::new();
    while v.len() > 0
        invariant
            out@.to_multiset().add(v@.to_multiset()) == orig.to_multiset(),
            out@.len() + v@.len() == orig.len(),
            sum_values(out@) + sum_values(v@) == sum_values(orig),
            sorted_desc(out@),
            out@.len() > 0 ==> forall|j: int|
                0 <= j < v@.len() ==> v@[j].value <= out@[out@.len() - 1].value,
        decreases v.len(),
    {
        // find the index of the largest remaining value
        let mut m: usize = 0;
        let mut i: usize = 1;
        while i < v.len()
            invariant
                0 < i <= v@.len(),
                m < i,
                forall|j: int| 0 <= j < i ==> v@[j].value <= v@[m as int].value,
            decreases v.len() - i,
        {
            if v[i].value > v[m].value {
                m = i;
            }
            i = i + 1;
        }
        let ghost prev_out = out@;
        let ghost prev_v = v@;
        let x = v.remove(m);
        let ghost gx = x;
        proof {
            broadcast use vstd::seq_lib::group_to_multiset_ensures;
            broadcast use vstd::multiset::group_multiset_axioms;

            lemma_sum_remove(prev_v, m as int);
            assert(prev_v[m as int] == gx);
            assert(prev_v.contains(gx));
            assert(prev_v.to_multiset().count(gx) > 0);
        }
        out.push(x);
        proof {
            broadcast use vstd::seq_lib::group_to_multiset_ensures;
            broadcast use vstd::multiset::group_multiset_axioms;

            lemma_sum_snoc(prev_out, gx);
            assert(out@ == prev_out.push(gx));
            assert(out@.to_multiset().add(v@.to_multiset()) =~= prev_out.to_multiset().add(
                prev_v.to_multiset(),
            ));
            assert forall|k: int| 0 <= k < prev_out.len() implies prev_out[k].value >= gx.value by {
                assert(prev_v[m as int].value <= prev_out[prev_out.len() - 1].value);
            }
            assert(sorted_desc(out@)) by {
                assert forall|i: int, j: int| 0 <= i < j < out@.len() implies out@[i].value
                    >= out@[j].value by {
                    if j < out@.len() - 1 {
                        assert(out@[i] == prev_out[i] && out@[j] == prev_out[j]);
                    } else {
                        assert(out@[j] == gx);
                        if i < prev_out.len() {
                            assert(out@[i] == prev_out[i]);
                        }
                    }
                }
            }
            assert forall|j: int| 0 <= j < v@.len() implies v@[j].value <= gx.value by {
                if j < m {
                    assert(v@[j] == prev_v[j]);
                } else {
                    assert(v@[j] == prev_v[j + 1]);
                }
            }
        }
    }
    proof {
        broadcast use vstd::seq_lib::group_to_multiset_ensures;
        broadcast use vstd::multiset::group_multiset_axioms;

        assert(v@.to_multiset() =~= Multiset::<Utxo>::empty());
        assert(out@.to_multiset().add(Multiset::<Utxo>::empty()) =~= out@.to_multiset());
        assert(v@ =~= Seq::<Utxo>::empty());
    }
    out
}

} // verus!

verus! {

pub proof fn lemma_concat_multiset(a: Seq<Utxo>, b: Seq<Utxo>)
    ensures
        (a + b).to_multiset() == a.to_multiset().add(b.to_multiset()),
    decreases b.len(),
{
    broadcast use vstd::seq_lib::group_to_multiset_ensures;
    broadcast use vstd::multiset::group_multiset_axioms;

    if b.len() == 0 {
        assert(a + b =~= a);
        assert(b.to_multiset().len() == 0);
        assert(b.to_multiset() =~= Multiset::<Utxo>::empty());
        assert(a.to_multiset().add(Multiset::<Utxo>::empty()) =~= a.to_multiset());
    } else {
        let x = b.last();
        lemma_concat_multiset(a, b.drop_last());
        assert(a + b =~= (a + b.drop_last()).push(x));
        assert(b =~= b.drop_last().push(x));
        assert((a + b).to_multiset() =~= a.to_multiset().add(b.to_multiset())) by {
            assert((a + b.drop_last()).push(x).to_multiset() == (a
                + b.drop_last()).to_multiset().insert(x));
            assert(b.drop_last().push(x).to_multiset() == b.drop_last().to_multiset().insert(x));
        }
    }
}

/// Greedy largest-first selection. On success the returned units are a
/// sub-collection of the given ones, sorted by value descending, whose sum
/// meets the target; the selection is minimal in the largest-first order:
/// without its last unit the sum falls below the target. Selection fails
/// exactly when the collection is empty or its whole sum is below the
/// target, and reports the available and required amounts.
#[verifier::loop_isolation(false)]
pub fn select_utxos(utxos: Vec<Utxo>, target_amount: u64) -> (r: Result<Vec<Utxo>, RelayError>)
    requires
        sum_values(utxos@) <= u64::MAX,
    ensures
        match r {
            Ok(sel) => {
                &&& utxos@.len() > 0
                &&& sel@.len() > 0
                &&& sel@.to_multiset().subset_of(utxos@.to_multiset())
                &&& sorted_desc(sel@)
                &&& sum_values(sel@) >= target_amount
                &&& (sel@.len() > 1 ==> sum_values(sel@.drop_last()) < target_amount)
                &&& sum_values(utxos@) >= target_amount
                &&& forall|u: Utxo|
                    u.value > sel@[sel@.len() - 1].value ==> #[trigger] sel@.to_multiset().count(u)
                        == utxos@.to_multiset().count(u)
            },
            Err(e) => {
                &&& e == (RelayError::InsufficientFunds {
                    available: sum_values(utxos@) as u64,
                    required: target_amount,
                })
                &&& (utxos@.len() == 0 || sum_values(utxos@) < target_amount)
            },
        },
{
    let ghost orig = utxos@;
    let mut sorted = sort_desc(utxos);
    let ghost sorted0 = sorted@;
    let mut selected: Vec<Utxo> = Vec::new();
    let mut accumulated: u64 = 0;
    while sorted.len() > 0
        invariant
            selected@ + sorted@ == sorted0,
            accumulated == sum_values(selected@),
            selected@.len() > 0 ==> accumulated < target_amount,
        decreases sorted.len(),
    {
        let ghost prev_selected = selected@;
        let ghost prev_sorted = sorted@;
        proof {
            lemma_sum_concat(prev_selected, prev_sorted);
            lemma_sum_nonneg(prev_sorted.drop_first());
            assert(sum_values(prev_sorted) == prev_sorted[0].value + sum_values(
                prev_sorted.drop_first(),
            ));
        }
        let u = sorted.remove(0);
        let ghost gu = u;
        proof {
            assert(sorted@ =~= prev_sorted.drop_first());
        }
        accumulated = accumulated + u.value;
        selected.push(u);
        proof {
            lemma_sum_snoc(prev_selected, gu);
            assert(selected@ + sorted@ =~= sorted0);
        }
        if accumulated >= target_amount {
            proof {
                broadcast use vstd::seq_lib::group_to_multiset_ensures;
                broadcast use vstd::multiset::group_multiset_axioms;

                lemma_concat_multiset(selected@, sorted@);
                assert(selected@.to_multiset().subset_of(sorted0.to_multiset())) by {
                    assert(forall|x: Utxo|
                        selected@.to_multiset().count(x) <= #[trigger] sorted0.to_multiset().count(
                            x,
                        ));
                }
                let len = selected@.len() as int;
                assert(selected@ =~= sorted0.take(len));
                assert(sorted@ =~= sorted0.skip(len));
                assert(sorted_desc(selected@));
                assert(selected@.drop_last() =~= prev_selected);
                lemma_sum_concat(selected@, sorted@);
                lemma_sum_nonneg(sorted@);
                let last_v = selected@[len - 1].value;
                assert forall|x: Utxo|
                    x.value > last_v implies #[trigger] selected@.to_multiset().count(x)
                    == sorted0.to_multiset().count(x) by {
                    if sorted@.to_multiset().count(x) > 0 {
                        assert(sorted@.contains(x));
                        let j = choose|j: int| 0 <= j < sorted@.len() && sorted@[j] == x;
                        assert(sorted0[len + j] == x);
                        assert(sorted0[len - 1].value >= sorted0[len + j].value);
                        assert(false);
                    }
                    assert(selected@.to_multiset().count(x) + sorted@.to_multiset().count(x)
                        == sorted0.to_multiset().count(x));
                }
            }
            return Ok(selected);
        }
    }
    proof {
        assert(selected@ =~= sorted0);
        if orig.len() > 0 {
            assert(sorted0.len() > 0);
            assert(selected@.len() > 0);
        }
    }
    Err(RelayError::InsufficientFunds { available: accumulated, required: target_amount })
}

} // verus!
