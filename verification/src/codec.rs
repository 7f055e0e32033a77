//! Consensus encoding of unsigned transactions: variable-length integers,
//! inputs, outputs and whole transactions, with an executable encoder and
//! decoder and a proof that decoding an encoded transaction gives it back.

use vstd::prelude::*;
use vstd::bytes::*;
use crate::model::{Transaction, TransactionView, TxInput, TxInputView, TxOutput, TxOutputView};

verus! {

/// The encoding of a count or length: one byte below 0xfd, otherwise a marker
/// byte followed by the little-endian value in the smallest width that holds
/// it.
pub open spec fn enc_varint(n: u64) -> Seq<u8> {
    if n < 0xfd {
        seq![n as u8]
    } else if n <= 0xffff {
        seq![0xfdu8] + spec_u16_to_le_bytes(n as u16)
    } else if n <= 0xffffffff {
        seq![0xfeu8] + spec_u32_to_le_bytes(n as u32)
    } else {
        seq![0xffu8] + spec_u64_to_le_bytes(n)
    }
}

pub open spec fn enc_input(i: TxInputView) -> Seq<u8> {
    i.prev_txid + spec_u32_to_le_bytes(i.prev_vout) + enc_varint(i.script_sig.len() as u64)
        + i.script_sig + spec_u32_to_le_bytes(i.sequence)
}

pub open spec fn enc_output(o: TxOutputView) -> Seq<u8> {
    spec_u64_to_le_bytes(o.value) + enc_varint(o.script_pubkey.len() as u64) + o.script_pubkey
}

pub open spec fn enc_inputs(s: Seq<TxInputView>) -> Seq<u8>
    decreases s.len(),
{
    if s.len() == 0 {
        Seq::empty()
    } else {
        enc_input(s[0]) + enc_inputs(s.drop_first())
    }
}

pub open spec fn enc_outputs(s: Seq<TxOutputView>) -> Seq<u8>
    decreases s.len(),
{
    if s.len() == 0 {
        Seq::empty()
    } else {
        enc_output(s[0]) + enc_outputs(s.drop_first())
    }
}

/// The full encoding: version, input count, inputs, output count, outputs,
/// lock time. No witness section ever appears: the library only handles
/// unsigned transactions, whose encoding is the legacy one.
pub open spec fn enc_tx(t: TransactionView) -> Seq<u8> {
    spec_u32_to_le_bytes(t.version) + enc_varint(t.inputs.len() as u64) + enc_inputs(t.inputs)
        + enc_varint(t.outputs.len() as u64) + enc_outputs(t.outputs)
        + spec_u32_to_le_bytes(t.lock_time)
}

/// Well-formedness of an input for encoding: the previous transaction id is
/// exactly 32 bytes.
pub open spec fn wf_input(i: TxInputView) -> bool {
    &&& i.prev_txid.len() == 32
    &&& i.script_sig.len() <= u64::MAX
}

pub open spec fn wf_output(o: TxOutputView) -> bool {
    o.script_pubkey.len() <= u64::MAX
}

/// Well-formedness of a transaction for encoding.
pub open spec fn wf_tx(t: TransactionView) -> bool {
    &&& t.inputs.len() <= u64::MAX
    &&& t.outputs.len() <= u64::MAX
    &&& forall|i: int| 0 <= i < t.inputs.len() ==> wf_input(#[trigger] t.inputs[i])
    &&& forall|i: int| 0 <= i < t.outputs.len() ==> wf_output(#[trigger] t.outputs[i])
}

proof fn lemma_enc_inputs_snoc(s: Seq<TxInputView>, i: int)
    requires
        0 <= i < s.len(),
    ensures
        enc_inputs(s.take(i + 1)) == enc_inputs(s.take(i)) + enc_input(s[i]),
    decreases i,
{
    if i == 0 {
        let t1 = s.take(1);
        assert(t1.len() == 1);
        assert(t1[0] == s[0]);
        assert(t1.drop_first() =~= Seq::<TxInputView>::empty());
        assert(enc_inputs(Seq::<TxInputView>::empty()) == Seq::<u8>::empty());
        assert(enc_inputs(t1) == enc_input(t1[0]) + enc_inputs(t1.drop_first()));
        assert(s.take(0) =~= Seq::<TxInputView>::empty());
        assert(enc_inputs(s.take(1)) =~= enc_input(s[0]));
        assert(enc_inputs(s.take(0)) + enc_input(s[0]) =~= enc_input(s[0]));
    } else {
        lemma_enc_inputs_snoc(s.drop_first(), i - 1);
        assert(s.take(i + 1).drop_first() =~= s.drop_first().take(i));
        assert(s.take(i).drop_first() =~= s.drop_first().take(i - 1));
        assert(s.take(i + 1)[0] == s[0]);
        assert(s.take(i)[0] == s[0]);
        assert(s.drop_first()[i - 1] == s[i]);
        assert(enc_inputs(s.take(i + 1)) == enc_input(s[0]) + enc_inputs(s.drop_first().take(i)));
        assert(enc_inputs(s.take(i)) == enc_input(s[0]) + enc_inputs(s.drop_first().take(i - 1)));
        assert((enc_input(s[0]) + enc_inputs(s.drop_first().take(i - 1))) + enc_input(s[i]) =~= enc_input(
            s[0],
        ) + (enc_inputs(s.drop_first().take(i - 1)) + enc_input(s[i])));
    }
}

proof fn lemma_enc_outputs_snoc(s: Seq<TxOutputView>, i: int)
    requires
        0 <= i < s.len(),
    ensures
        enc_outputs(s.take(i + 1)) == enc_outputs(s.take(i)) + enc_output(s[i]),
    decreases i,
{
    if i == 0 {
        let t1 = s.take(1);
        assert(t1.len() == 1);
        assert(t1[0] == s[0]);
        assert(t1.drop_first() =~= Seq::<TxOutputView>::empty());
        assert(enc_outputs(Seq::<TxOutputView>::empty()) == Seq::<u8>::empty());
        assert(enc_outputs(t1) == enc_output(t1[0]) + enc_outputs(t1.drop_first()));
        assert(s.take(0) =~= Seq::<TxOutputView>::empty());
        assert(enc_outputs(s.take(1)) =~= enc_output(s[0]));
        assert(enc_outputs(s.take(0)) + enc_output(s[0]) =~= enc_output(s[0]));
    } else {
        lemma_enc_outputs_snoc(s.drop_first(), i - 1);
        assert(s.take(i + 1).drop_first() =~= s.drop_first().take(i));
        assert(s.take(i).drop_first() =~= s.drop_first().take(i - 1));
        assert(s.take(i + 1)[0] == s[0]);
        assert(s.take(i)[0] == s[0]);
        assert(s.drop_first()[i - 1] == s[i]);
        assert(enc_outputs(s.take(i + 1)) == enc_output(s[0]) + enc_outputs(
            s.drop_first().take(i),
        ));
        assert(enc_outputs(s.take(i)) == enc_output(s[0]) + enc_outputs(
            s.drop_first().take(i - 1),
        ));
        assert((enc_output(s[0]) + enc_outputs(s.drop_first().take(i - 1))) + enc_output(s[i]) =~= enc_output(
            s[0],
        ) + (enc_outputs(s.drop_first().take(i - 1)) + enc_output(s[i])));
    }
}

/// Appends the encoding of `n` as a variable-length integer.
fn push_varint(out: &mut Vec<u8>, n: u64)
    ensures
        final(out)@ == old(out)@ + enc_varint(n),
{
    proof {
        lemma_auto_spec_u16_to_from_le_bytes();
        lemma_auto_spec_u32_to_from_le_bytes();
        lemma_auto_spec_u64_to_from_le_bytes();
    }
    if n < 0xfd {
        out.push(n as u8);
        proof {
            assert(final(out)@ =~= old(out)@ + enc_varint(n));
        }
    } else if n <= 0xffff {
        out.push(0xfd);
        let mut b = u16_to_le_bytes(n as u16);
        out.append(&mut b);
        proof {
            assert(final(out)@ =~= old(out)@ + enc_varint(n));
        }
    } else if n <= 0xffffffff {
        out.push(0xfe);
        let mut b = u32_to_le_bytes(n as u32);
        out.append(&mut b);
        proof {
            assert(final(out)@ =~= old(out)@ + enc_varint(n));
        }
    } else {
        out.push(0xff);
        let mut b = u64_to_le_bytes(n);
        out.append(&mut b);
        proof {
            assert(final(out)@ =~= old(out)@ + enc_varint(n));
        }
    }
}

/// Appends the four little-endian bytes of `n`.
fn push_u32(out: &mut Vec<u8>, n: u32)
    ensures
        final(out)@ == old(out)@ + spec_u32_to_le_bytes(n),
{
    let mut b = u32_to_le_bytes(n);
    out.append(&mut b);
}

/// Appends the eight little-endian bytes of `n`.
fn push_u64(out: &mut Vec<u8>, n: u64)
    ensures
        final(out)@ == old(out)@ + spec_u64_to_le_bytes(n),
{
    let mut b = u64_to_le_bytes(n);
    out.append(&mut b);
}

fn push_bytes(out: &mut Vec<u8>, b: &Vec<u8>)
    ensures
        final(out)@ == old(out)@ + b@,
{
    let mut i: usize = 0;
    while i < b.len()
        invariant
            0 <= i <= b.len(),
            out@ == old(out)@ + b@.take(i as int),
        decreases b.len() - i,
    {
        out.push(b[i]);
        i = i + 1;
        proof {
            assert(out@ =~= old(out)@ + b@.take(i as int));
        }
    }
    proof {
        assert(out@ =~= old(out)@ + b@);
    }
}

fn push_input(out: &mut Vec<u8>, i: &TxInput)
    ensures
        final(out)@ == old(out)@ + enc_input(i@),
{
    push_bytes(out, &i.prev_txid);
    push_u32(out, i.prev_vout);
    push_varint(out, i.script_sig.len() as u64);
    push_bytes(out, &i.script_sig);
    push_u32(out, i.sequence);
    proof {
        assert(final(out)@ =~= old(out)@ + enc_input(i@));
    }
}

fn push_output(out: &mut Vec<u8>, o: &TxOutput)
    ensures
        final(out)@ == old(out)@ + enc_output(o@),
{
    push_u64(out, o.value);
    push_varint(out, o.script_pubkey.len() as u64);
    push_bytes(out, &o.script_pubkey);
    proof {
        assert(final(out)@ =~= old(out)@ + enc_output(o@));
    }
}

/// Encodes a transaction into consensus byte form.
pub fn encode_tx(t: &Transaction) -> (r: Vec<u8>)
    ensures
        r@ == enc_tx(t@),
{
    let mut out: Vec<u8> = Vec::new();
    push_u32(&mut out, t.version);
    push_varint(&mut out, t.inputs.len() as u64);
    let ghost pre_inputs = out@;
    let mut i: usize = 0;
    while i < t.inputs.len()
        invariant
            0 <= i <= t.inputs.len(),
            out@ == pre_inputs + enc_inputs(t@.inputs.take(i as int)),
            t@.inputs == t.inputs@.map_values(|x: TxInput| x@),
        decreases t.inputs.len() - i,
    {
        push_input(&mut out, &t.inputs[i]);
        proof {
            lemma_enc_inputs_snoc(t@.inputs, i as int);
            assert(t@.inputs[i as int] == t.inputs@[i as int]@);
            assert(out@ =~= pre_inputs + enc_inputs(t@.inputs.take(i + 1)));
        }
        i = i + 1;
    }
    proof {
        assert(t@.inputs.take(t.inputs.len() as int) =~= t@.inputs);
    }
    push_varint(&mut out, t.outputs.len() as u64);
    let ghost pre_outputs = out@;
    let mut j: usize = 0;
    while j < t.outputs.len()
        invariant
            0 <= j <= t.outputs.len(),
            out@ == pre_outputs + enc_outputs(t@.outputs.take(j as int)),
            t@.outputs == t.outputs@.map_values(|x: TxOutput| x@),
        decreases t.outputs.len() - j,
    {
        push_output(&mut out, &t.outputs[j]);
        proof {
            lemma_enc_outputs_snoc(t@.outputs, j as int);
            assert(t@.outputs[j as int] == t.outputs@[j as int]@);
            assert(out@ =~= pre_outputs + enc_outputs(t@.outputs.take(j + 1)));
        }
        j = j + 1;
    }
    proof {
        assert(t@.outputs.take(t.outputs.len() as int) =~= t@.outputs);
    }
    push_u32(&mut out, t.lock_time);
    proof {
        assert(out@ =~= enc_tx(t@));
    }
    out
}

} // verus!

verus! {

/// Reads four little-endian bytes.
pub open spec fn dec_u32(b: Seq<u8>) -> Option<(u32, Seq<u8>)> {
    if b.len() >= 4 {
        Some((spec_u32_from_le_bytes(b.take(4)), b.skip(4)))
    } else {
        None
    }
}

/// Reads eight little-endian bytes.
pub open spec fn dec_u64(b: Seq<u8>) -> Option<(u64, Seq<u8>)> {
    if b.len() >= 8 {
        Some((spec_u64_from_le_bytes(b.take(8)), b.skip(8)))
    } else {
        None
    }
}

/// Reads a variable-length integer, refusing non-minimal encodings as the
/// consensus decoder does.
pub open spec fn dec_varint(b: Seq<u8>) -> Option<(u64, Seq<u8>)> {
    if b.len() == 0 {
        None
    } else if b[0] < 0xfd {
        Some((b[0] as u64, b.drop_first()))
    } else if b[0] == 0xfd {
        if b.len() >= 3 {
            let v = spec_u16_from_le_bytes(b.subrange(1, 3)) as u64;
            if v >= 0xfd {
                Some((v, b.skip(3)))
            } else {
                None
            }
        } else {
            None
        }
    } else if b[0] == 0xfe {
        if b.len() >= 5 {
            let v = spec_u32_from_le_bytes(b.subrange(1, 5)) as u64;
            if v > 0xffff {
                Some((v, b.skip(5)))
            } else {
                None
            }
        } else {
            None
        }
    } else {
        if b.len() >= 9 {
            let v = spec_u64_from_le_bytes(b.subrange(1, 9));
            if v > 0xffffffff {
                Some((v, b.skip(9)))
            } else {
                None
            }
        } else {
            None
        }
    }
}

/// Reads exactly `n` raw bytes.
pub open spec fn dec_bytes(b: Seq<u8>, n: nat) -> Option<(Seq<u8>, Seq<u8>)> {
    if b.len() >= n {
        Some((b.take(n as int), b.skip(n as int)))
    } else {
        None
    }
}

pub open spec fn dec_input(b: Seq<u8>) -> Option<(TxInputView, Seq<u8>)> {
    match dec_bytes(b, 32) {
        None => None,
        Some((txid, b1)) => match dec_u32(b1) {
            None => None,
            Some((vout, b2)) => match dec_varint(b2) {
                None => None,
                Some((slen, b3)) => match dec_bytes(b3, slen as nat) {
                    None => None,
                    Some((ss, b4)) => match dec_u32(b4) {
                        None => None,
                        Some((sq, b5)) => Some(
                            (
                                TxInputView {
                                    prev_txid: txid,
                                    prev_vout: vout,
                                    script_sig: ss,
                                    sequence: sq,
                                },
                                b5,
                            ),
                        ),
                    },
                },
            },
        },
    }
}

pub open spec fn dec_output(b: Seq<u8>) -> Option<(TxOutputView, Seq<u8>)> {
    match dec_u64(b) {
        None => None,
        Some((value, b1)) => match dec_varint(b1) {
            None => None,
            Some((slen, b2)) => match dec_bytes(b2, slen as nat) {
                None => None,
                Some((spk, b3)) => Some(
                    (TxOutputView { value: value, script_pubkey: spk }, b3),
                ),
            },
        },
    }
}

pub open spec fn dec_inputs(b: Seq<u8>, n: nat) -> Option<(Seq<TxInputView>, Seq<u8>)>
    decreases n,
{
    if n == 0 {
        Some((Seq::empty(), b))
    } else {
        match dec_input(b) {
            None => None,
            Some((i, b1)) => match dec_inputs(b1, (n - 1) as nat) {
                None => None,
                Some((rest, b2)) => Some((seq![i] + rest, b2)),
            },
        }
    }
}

pub open spec fn dec_outputs(b: Seq<u8>, n: nat) -> Option<(Seq<TxOutputView>, Seq<u8>)>
    decreases n,
{
    if n == 0 {
        Some((Seq::empty(), b))
    } else {
        match dec_output(b) {
            None => None,
            Some((o, b1)) => match dec_outputs(b1, (n - 1) as nat) {
                None => None,
                Some((rest, b2)) => Some((seq![o] + rest, b2)),
            },
        }
    }
}

/// Decodes a whole transaction; the bytes must be consumed exactly.
pub open spec fn dec_tx(b: Seq<u8>) -> Option<TransactionView> {
    match dec_u32(b) {
        None => None,
        Some((version, b1)) => match dec_varint(b1) {
            None => None,
            Some((n_in, b2)) => match dec_inputs(b2, n_in as nat) {
                None => None,
                Some((ins, b3)) => match dec_varint(b3) {
                    None => None,
                    Some((n_out, b4)) => match dec_outputs(b4, n_out as nat) {
                        None => None,
                        Some((outs, b5)) => match dec_u32(b5) {
                            None => None,
                            Some((lock, b6)) => if b6.len() == 0 {
                                Some(
                                    TransactionView {
                                        version: version,
                                        lock_time: lock,
                                        inputs: ins,
                                        outputs: outs,
                                    },
                                )
                            } else {
                                None
                            },
                        },
                    },
                },
            },
        },
    }
}

proof fn lemma_dec_u32_enc(n: u32, rest: Seq<u8>)
    ensures
        dec_u32(spec_u32_to_le_bytes(n) + rest) == Some((n, rest)),
{
    lemma_auto_spec_u32_to_from_le_bytes();
    let e = spec_u32_to_le_bytes(n);
    assert((e + rest).take(4) =~= e);
    assert((e + rest).skip(4) =~= rest);
}

proof fn lemma_dec_u64_enc(n: u64, rest: Seq<u8>)
    ensures
        dec_u64(spec_u64_to_le_bytes(n) + rest) == Some((n, rest)),
{
    lemma_auto_spec_u64_to_from_le_bytes();
    let e = spec_u64_to_le_bytes(n);
    assert((e + rest).take(8) =~= e);
    assert((e + rest).skip(8) =~= rest);
}

proof fn lemma_dec_varint_enc(n: u64, rest: Seq<u8>)
    ensures
        dec_varint(enc_varint(n) + rest) == Some((n, rest)),
{
    lemma_auto_spec_u16_to_from_le_bytes();
    lemma_auto_spec_u32_to_from_le_bytes();
    lemma_auto_spec_u64_to_from_le_bytes();
    let b = enc_varint(n) + rest;
    if n < 0xfd {
        assert(b[0] == n as u8);
        assert((n as u8) as u64 == n);
        assert(b.drop_first() =~= rest);
    } else if n <= 0xffff {
        let e = spec_u16_to_le_bytes(n as u16);
        assert(e.len() == 2);
        assert(b[0] == 0xfd);
        assert(b.len() >= 3);
        assert(b.subrange(1, 3) =~= e);
        assert(spec_u16_from_le_bytes(e) == n as u16);
        assert((n as u16) as u64 == n);
        assert(b.skip(3) =~= rest);
    } else if n <= 0xffffffff {
        let e = spec_u32_to_le_bytes(n as u32);
        assert(e.len() == 4);
        assert(b[0] == 0xfe);
        assert(b.len() >= 5);
        assert(b.subrange(1, 5) =~= e);
        assert(spec_u32_from_le_bytes(e) == n as u32);
        assert((n as u32) as u64 == n);
        assert(b.skip(5) =~= rest);
    } else {
        let e = spec_u64_to_le_bytes(n);
        assert(e.len() == 8);
        assert(b[0] == 0xff);
        assert(b.len() >= 9);
        assert(b.subrange(1, 9) =~= e);
        assert(spec_u64_from_le_bytes(e) == n);
        assert(b.skip(9) =~= rest);
    }
}

proof fn lemma_dec_bytes_enc(a: Seq<u8>, rest: Seq<u8>)
    ensures
        dec_bytes(a + rest, a.len()) == Some((a, rest)),
{
    assert((a + rest).take(a.len() as int) =~= a);
    assert((a + rest).skip(a.len() as int) =~= rest);
}

proof fn lemma_dec_input_enc(i: TxInputView, rest: Seq<u8>)
    requires
        wf_input(i),
    ensures
        dec_input(enc_input(i) + rest) == Some((i, rest)),
{
    let vout_b = spec_u32_to_le_bytes(i.prev_vout);
    let slen_b = enc_varint(i.script_sig.len() as u64);
    let seq_b = spec_u32_to_le_bytes(i.sequence);
    let r4 = seq_b + rest;
    let r3 = i.script_sig + r4;
    let r2 = slen_b + r3;
    let r1 = vout_b + r2;
    assert(enc_input(i) + rest =~= i.prev_txid + r1);
    lemma_dec_bytes_enc(i.prev_txid, r1);
    lemma_dec_u32_enc(i.prev_vout, r2);
    lemma_dec_varint_enc(i.script_sig.len() as u64, r3);
    assert((i.script_sig.len() as u64) as nat == i.script_sig.len());
    lemma_dec_bytes_enc(i.script_sig, r4);
    lemma_dec_u32_enc(i.sequence, rest);
}

proof fn lemma_dec_output_enc(o: TxOutputView, rest: Seq<u8>)
    requires
        wf_output(o),
    ensures
        dec_output(enc_output(o) + rest) == Some((o, rest)),
{
    let slen_b = enc_varint(o.script_pubkey.len() as u64);
    let r2 = o.script_pubkey + rest;
    let r1 = slen_b + r2;
    assert(enc_output(o) + rest =~= spec_u64_to_le_bytes(o.value) + r1);
    lemma_dec_u64_enc(o.value, r1);
    lemma_dec_varint_enc(o.script_pubkey.len() as u64, r2);
    assert((o.script_pubkey.len() as u64) as nat == o.script_pubkey.len());
    lemma_dec_bytes_enc(o.script_pubkey, rest);
}

proof fn lemma_dec_inputs_enc(s: Seq<TxInputView>, rest: Seq<u8>)
    requires
        forall|k: int| 0 <= k < s.len() ==> wf_input(#[trigger] s[k]),
    ensures
        dec_inputs(enc_inputs(s) + rest, s.len()) == Some((s, rest)),
    decreases s.len(),
{
    if s.len() == 0 {
        assert(enc_inputs(s) + rest =~= rest);
        assert(Seq::<TxInputView>::empty() =~= s);
    } else {
        let tail = s.drop_first();
        assert(enc_inputs(s) + rest =~= enc_input(s[0]) + (enc_inputs(tail) + rest));
        lemma_dec_input_enc(s[0], enc_inputs(tail) + rest);
        assert(forall|k: int| 0 <= k < tail.len() ==> wf_input(#[trigger] tail[k]));
        lemma_dec_inputs_enc(tail, rest);
        assert(seq![s[0]] + tail =~= s);
    }
}

proof fn lemma_dec_outputs_enc(s: Seq<TxOutputView>, rest: Seq<u8>)
    requires
        forall|k: int| 0 <= k < s.len() ==> wf_output(#[trigger] s[k]),
    ensures
        dec_outputs(enc_outputs(s) + rest, s.len()) == Some((s, rest)),
    decreases s.len(),
{
    if s.len() == 0 {
        assert(enc_outputs(s) + rest =~= rest);
        assert(Seq::<TxOutputView>::empty() =~= s);
    } else {
        let tail = s.drop_first();
        assert(enc_outputs(s) + rest =~= enc_output(s[0]) + (enc_outputs(tail) + rest));
        lemma_dec_output_enc(s[0], enc_outputs(tail) + rest);
        assert(forall|k: int| 0 <= k < tail.len() ==> wf_output(#[trigger] tail[k]));
        lemma_dec_outputs_enc(tail, rest);
        assert(seq![s[0]] + tail =~= s);
    }
}

/// Round trip: a well-formed transaction, encoded and then decoded, comes
/// back exactly as it was. No other transaction can come back: the decode of
/// the encoding is uniquely determined.
pub proof fn lemma_tx_round_trip(t: TransactionView)
    requires
        wf_tx(t),
    ensures
        dec_tx(enc_tx(t)) == Some(t),
{
    let empty = Seq::<u8>::empty();
    let lock_b = spec_u32_to_le_bytes(t.lock_time);
    let r5 = lock_b + empty;
    let r4 = enc_outputs(t.outputs) + r5;
    let r3 = enc_varint(t.outputs.len() as u64) + r4;
    let r2 = enc_inputs(t.inputs) + r3;
    let r1 = enc_varint(t.inputs.len() as u64) + r2;
    assert(enc_tx(t) =~= spec_u32_to_le_bytes(t.version) + r1);
    lemma_dec_u32_enc(t.version, r1);
    lemma_dec_varint_enc(t.inputs.len() as u64, r2);
    assert((t.inputs.len() as u64) as nat == t.inputs.len());
    lemma_dec_inputs_enc(t.inputs, r3);
    lemma_dec_varint_enc(t.outputs.len() as u64, r4);
    assert((t.outputs.len() as u64) as nat == t.outputs.len());
    lemma_dec_outputs_enc(t.outputs, r5);
    lemma_dec_u32_enc(t.lock_time, empty);
}

} // verus!

verus! {

/// Reads four little-endian bytes at `pos`.
fn read_u32(b: &Vec<u8>, pos: usize) -> (r: Option<(u32, usize)>)
    requires
        pos <= b@.len(),
    ensures
        match r {
            Some((v, p2)) => pos <= p2 <= b@.len() && dec_u32(b@.skip(pos as int)) == Some(
                (v, b@.skip(p2 as int)),
            ),
            None => dec_u32(b@.skip(pos as int)) is None,
        },
{
    if b.len() - pos >= 4 {
        let s = vstd::slice::slice_subrange(b.as_slice(), pos, pos + 4);
        let v = u32_from_le_bytes(s);
        proof {
            assert(b@.skip(pos as int).take(4) =~= b@.subrange(pos as int, pos + 4));
            assert(b@.skip(pos as int).skip(4) =~= b@.skip(pos + 4));
        }
        Some((v, pos + 4))
    } else {
        None
    }
}

/// Reads eight little-endian bytes at `pos`.
fn read_u64(b: &Vec<u8>, pos: usize) -> (r: Option<(u64, usize)>)
    requires
        pos <= b@.len(),
    ensures
        match r {
            Some((v, p2)) => pos <= p2 <= b@.len() && dec_u64(b@.skip(pos as int)) == Some(
                (v, b@.skip(p2 as int)),
            ),
            None => dec_u64(b@.skip(pos as int)) is None,
        },
{
    if b.len() - pos >= 8 {
        let s = vstd::slice::slice_subrange(b.as_slice(), pos, pos + 8);
        let v = u64_from_le_bytes(s);
        proof {
            assert(b@.skip(pos as int).take(8) =~= b@.subrange(pos as int, pos + 8));
            assert(b@.skip(pos as int).skip(8) =~= b@.skip(pos + 8));
        }
        Some((v, pos + 8))
    } else {
        None
    }
}

/// Reads a variable-length integer at `pos`.
fn read_varint(b: &Vec<u8>, pos: usize) -> (r: Option<(u64, usize)>)
    requires
        pos <= b@.len(),
    ensures
        match r {
            Some((v, p2)) => pos <= p2 <= b@.len() && dec_varint(b@.skip(pos as int)) == Some(
                (v, b@.skip(p2 as int)),
            ),
            None => dec_varint(b@.skip(pos as int)) is None,
        },
{
    if b.len() - pos < 1 {
        return None;
    }
    let tag = b[pos];
    proof {
        assert(b@.skip(pos as int)[0] == b@[pos as int]);
    }
    if tag < 0xfd {
        proof {
            assert(b@.skip(pos as int).drop_first() =~= b@.skip(pos + 1));
        }
        Some((tag as u64, pos + 1))
    } else if tag == 0xfd {
        if b.len() - pos >= 3 {
            let s = vstd::slice::slice_subrange(b.as_slice(), pos + 1, pos + 3);
            let v16 = u16_from_le_bytes(s);
            let v = v16 as u64;
            proof {
                assert(b@.skip(pos as int).subrange(1, 3) =~= b@.subrange(pos + 1, pos + 3));
                assert(b@.skip(pos as int).skip(3) =~= b@.skip(pos + 3));
            }
            if v >= 0xfd {
                Some((v, pos + 3))
            } else {
                None
            }
        } else {
            None
        }
    } else if tag == 0xfe {
        if b.len() - pos >= 5 {
            let s = vstd::slice::slice_subrange(b.as_slice(), pos + 1, pos + 5);
            let v32 = u32_from_le_bytes(s);
            let v = v32 as u64;
            proof {
                assert(b@.skip(pos as int).subrange(1, 5) =~= b@.subrange(pos + 1, pos + 5));
                assert(b@.skip(pos as int).skip(5) =~= b@.skip(pos + 5));
            }
            if v > 0xffff {
                Some((v, pos + 5))
            } else {
                None
            }
        } else {
            None
        }
    } else {
        if b.len() - pos >= 9 {
            let s = vstd::slice::slice_subrange(b.as_slice(), pos + 1, pos + 9);
            let v = u64_from_le_bytes(s);
            proof {
                assert(b@.skip(pos as int).subrange(1, 9) =~= b@.subrange(pos + 1, pos + 9));
                assert(b@.skip(pos as int).skip(9) =~= b@.skip(pos + 9));
            }
            if v > 0xffffffff {
                Some((v, pos + 9))
            } else {
                None
            }
        } else {
            None
        }
    }
}

/// Reads exactly `n` raw bytes at `pos`.
fn read_bytes(b: &Vec<u8>, pos: usize, n: u64) -> (r: Option<(Vec<u8>, usize)>)
    requires
        pos <= b@.len(),
    ensures
        match r {
            Some((v, p2)) => pos <= p2 <= b@.len() && dec_bytes(b@.skip(pos as int), n as nat)
                == Some((v@, b@.skip(p2 as int))),
            None => dec_bytes(b@.skip(pos as int), n as nat) is None,
        },
{
    if n <= (b.len() - pos) as u64 {
        let end = pos + n as usize;
        let s = vstd::slice::slice_subrange(b.as_slice(), pos, end);
        let v = vstd::slice::slice_to_vec(s);
        proof {
            assert(b@.skip(pos as int).take(n as int) =~= b@.subrange(pos as int, end as int));
            assert(b@.skip(pos as int).skip(n as int) =~= b@.skip(end as int));
        }
        Some((v, end))
    } else {
        None
    }
}

/// Reads one input at `pos`.
fn read_input(b: &Vec<u8>, pos: usize) -> (r: Option<(TxInput, usize)>)
    requires
        pos <= b@.len(),
    ensures
        match r {
            Some((i, p2)) => pos <= p2 <= b@.len() && dec_input(b@.skip(pos as int)) == Some(
                (i@, b@.skip(p2 as int)),
            ),
            None => dec_input(b@.skip(pos as int)) is None,
        },
{
    let (prev_txid, p1) = match read_bytes(b, pos, 32) {
        Some(x) => x,
        None => {
            return None;
        },
    };
    let (prev_vout, p2) = match read_u32(b, p1) {
        Some(x) => x,
        None => {
            return None;
        },
    };
    let (slen, p3) = match read_varint(b, p2) {
        Some(x) => x,
        None => {
            return None;
        },
    };
    let (script_sig, p4) = match read_bytes(b, p3, slen) {
        Some(x) => x,
        None => {
            return None;
        },
    };
    let (sequence, p5) = match read_u32(b, p4) {
        Some(x) => x,
        None => {
            return None;
        },
    };
    Some((TxInput { prev_txid, prev_vout, script_sig, sequence }, p5))
}

/// Reads one output at `pos`.
fn read_output(b: &Vec<u8>, pos: usize) -> (r: Option<(TxOutput, usize)>)
    requires
        pos <= b@.len(),
    ensures
        match r {
            Some((o, p2)) => pos <= p2 <= b@.len() && dec_output(b@.skip(pos as int)) == Some(
                (o@, b@.skip(p2 as int)),
            ),
            None => dec_output(b@.skip(pos as int)) is None,
        },
{
    let (value, p1) = match read_u64(b, pos) {
        Some(x) => x,
        None => {
            return None;
        },
    };
    let (slen, p2) = match read_varint(b, p1) {
        Some(x) => x,
        None => {
            return None;
        },
    };
    let (script_pubkey, p3) = match read_bytes(b, p2, slen) {
        Some(x) => x,
        None => {
            return None;
        },
    };
    Some((TxOutput { value, script_pubkey }, p3))
}

/// Decodes a transaction from consensus byte form; the bytes must hold
/// exactly one transaction. The result is exactly what the specification
/// decoder yields on the bytes.
#[verifier::rlimit(60)]
#[verifier::loop_isolation(false)]
pub fn decode_tx(b: &Vec<u8>) -> (r: Option<Transaction>)
    ensures
        match r {
            Some(t) => dec_tx(b@) == Some(t@),
            None => dec_tx(b@) is None,
        },
{
    let (version, p1) = match read_u32(b, 0) {
        Some(x) => x,
        None => {
            proof {
                assert(b@.skip(0) =~= b@);
            }
            return None;
        },
    };
    proof {
        assert(b@.skip(0) =~= b@);
    }
    let (n_in, p2) = match read_varint(b, p1) {
        Some(x) => x,
        None => {
            return None;
        },
    };
    let ghost pos_in0 = p2 as int;
    let mut inputs: Vec<TxInput> = Vec::new();
    let mut k: u64 = 0;
    let mut cur: usize = p2;
    while k < n_in
        invariant
            0 <= k <= n_in,
            cur <= b@.len(),
            inputs@.len() == k,
            dec_inputs(b@.skip(pos_in0), n_in as nat) == match dec_inputs(
                b@.skip(cur as int),
                (n_in - k) as nat,
            ) {
                None => None::<(Seq<TxInputView>, Seq<u8>)>,
                Some((rest, rem)) => Some(
                    (inputs@.map_values(|x: TxInput| x@) + rest, rem),
                ),
            },
        decreases n_in - k,
    {
        let (i, cur2) = match read_input(b, cur) {
            Some(x) => x,
            None => {
                proof {
                    assert(dec_inputs(b@.skip(cur as int), (n_in - k) as nat) is None);
                }
                return None;
            },
        };
        proof {
            let tail_n = (n_in - k - 1) as nat;
            let iv = i@;
            let prev_map = inputs@.map_values(|x: TxInput| x@);
            assert(dec_inputs(b@.skip(cur as int), (n_in - k) as nat) == match dec_inputs(
                b@.skip(cur2 as int),
                tail_n,
            ) {
                None => None::<(Seq<TxInputView>, Seq<u8>)>,
                Some((rest, rem)) => Some((seq![iv] + rest, rem)),
            });
            assert(inputs@.push(i).map_values(|x: TxInput| x@) =~= prev_map + seq![iv]);
            assert forall|rest: Seq<TxInputView>|
                (prev_map + seq![iv]) + rest =~= prev_map + (seq![iv] + rest) by {}
        }
        inputs.push(i);
        cur = cur2;
        k = k + 1;
    }
    proof {
        assert(dec_inputs(b@.skip(cur as int), 0) == Some(
            (Seq::<TxInputView>::empty(), b@.skip(cur as int)),
        ));
        assert(inputs@.map_values(|x: TxInput| x@) + Seq::<TxInputView>::empty()
            =~= inputs@.map_values(|x: TxInput| x@));
    }
    let (n_out, p3) = match read_varint(b, cur) {
        Some(x) => x,
        None => {
            return None;
        },
    };
    let ghost pos_out0 = p3 as int;
    let mut outputs: Vec<TxOutput> = Vec::new();
    let mut j: u64 = 0;
    let mut ocur: usize = p3;
    while j < n_out
        invariant
            0 <= j <= n_out,
            ocur <= b@.len(),
            outputs@.len() == j,
            dec_outputs(b@.skip(pos_out0), n_out as nat) == match dec_outputs(
                b@.skip(ocur as int),
                (n_out - j) as nat,
            ) {
                None => None::<(Seq<TxOutputView>, Seq<u8>)>,
                Some((rest, rem)) => Some(
                    (outputs@.map_values(|x: TxOutput| x@) + rest, rem),
                ),
            },
        decreases n_out - j,
    {
        let (o, ocur2) = match read_output(b, ocur) {
            Some(x) => x,
            None => {
                proof {
                    assert(dec_outputs(b@.skip(ocur as int), (n_out - j) as nat) is None);
                }
                return None;
            },
        };
        proof {
            let tail_n = (n_out - j - 1) as nat;
            let ov = o@;
            let prev_map = outputs@.map_values(|x: TxOutput| x@);
            assert(dec_outputs(b@.skip(ocur as int), (n_out - j) as nat) == match dec_outputs(
                b@.skip(ocur2 as int),
                tail_n,
            ) {
                None => None::<(Seq<TxOutputView>, Seq<u8>)>,
                Some((rest, rem)) => Some((seq![ov] + rest, rem)),
            });
            assert(outputs@.push(o).map_values(|x: TxOutput| x@) =~= prev_map + seq![ov]);
            assert forall|rest: Seq<TxOutputView>|
                (prev_map + seq![ov]) + rest =~= prev_map + (seq![ov] + rest) by {}
        }
        outputs.push(o);
        ocur = ocur2;
        j = j + 1;
    }
    proof {
        assert(dec_outputs(b@.skip(ocur as int), 0) == Some(
            (Seq::<TxOutputView>::empty(), b@.skip(ocur as int)),
        ));
        assert(outputs@.map_values(|x: TxOutput| x@) + Seq::<TxOutputView>::empty()
            =~= outputs@.map_values(|x: TxOutput| x@));
    }
    let (lock_time, p4) = match read_u32(b, ocur) {
        Some(x) => x,
        None => {
            return None;
        },
    };
    if p4 != b.len() {
        proof {
            assert(b@.skip(p4 as int).len() != 0);
        }
        return None;
    }
    let t = Transaction { version, lock_time, inputs, outputs };
    proof {
        assert(b@.skip(p4 as int).len() == 0);
        assert(dec_tx(b@) == Some(t@));
    }
    Some(t)
}

} // verus!
