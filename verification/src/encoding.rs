//! Text forms of the protocol's values: hexadecimal byte strings, decimal
//! output indexes, and the `txid:vout` outpoint notation used by the index
//! service. Transaction ids display as the byte-reversed hexadecimal of the
//! 32 identifier bytes.

use vstd::prelude::*;
use vstd::string::StrSliceExecFns;
use vstd::string::StringExecFns;

verus! {

/// The value of one hexadecimal digit, or -1 for any other character.
pub open spec fn nibble_val(c: char) -> int {
    let u = c as u32;
    if 48 <= u && u <= 57 {
        u as int - 48
    } else if 97 <= u && u <= 102 {
        u as int - 87
    } else if 65 <= u && u <= 70 {
        u as int - 55
    } else {
        -1
    }
}

pub open spec fn is_hex_digit(c: char) -> bool {
    nibble_val(c) >= 0
}

/// A string of hexadecimal digit pairs, read into bytes.
pub open spec fn hex_bytes(s: Seq<char>) -> Seq<u8> {
    Seq::new((s.len() / 2) as nat, |i: int| (16 * nibble_val(s[2 * i]) + nibble_val(s[2 * i + 1])) as u8)
}

pub open spec fn valid_hex(s: Seq<char>) -> bool {
    &&& s.len() % 2 == 0
    &&& forall|i: int| 0 <= i < s.len() ==> is_hex_digit(#[trigger] s[i])
}

/// The lower-case hexadecimal digit for a value below 16.
pub open spec fn hex_char_of(v: int) -> char {
    "0123456789abcdef"@[v]
}

/// The lower-case hexadecimal form of a byte string.
pub open spec fn hex_seq(b: Seq<u8>) -> Seq<char> {
    Seq::new(
        b.len() * 2,
        |i: int|
            if i % 2 == 0 {
                hex_char_of((b[i / 2] >> 4) as int)
            } else {
                hex_char_of((b[i / 2] & 0xf) as int)
            },
    )
}

/// Reads one character as a hexadecimal digit.
fn nibble_of(c: char) -> (r: Option<u8>)
    ensures
        match r {
            Some(v) => nibble_val(c) == v && v < 16,
            None => nibble_val(c) < 0,
        },
{
    let u = c as u32;
    if 48 <= u && u <= 57 {
        Some((u - 48) as u8)
    } else if 97 <= u && u <= 102 {
        Some((u - 87) as u8)
    } else if 65 <= u && u <= 70 {
        Some((u - 55) as u8)
    } else {
        None
    }
}

/// Decodes a string of hexadecimal digit pairs; fails exactly when the
/// length is odd or any character is not a hexadecimal digit.
pub fn hex_decode(s: &str) -> (r: Option<Vec<u8>>)
    ensures
        match r {
            Some(v) => valid_hex(s@) && v@ == hex_bytes(s@),
            None => !valid_hex(s@),
        },
{
    let n = s.unicode_len();
    if n % 2 != 0 {
        return None;
    }
    let mut out: Vec<u8> = Vec::new();
    let mut i: usize = 0;
    while i < n
        invariant
            n == s@.len(),
            n % 2 == 0,
            i % 2 == 0,
            0 <= i <= n,
            out@.len() == i / 2,
            forall|k: int| 0 <= k < i ==> is_hex_digit(#[trigger] s@[k]),
            forall|k: int| 0 <= k < i / 2 ==> out@[k] == hex_bytes(s@)[k],
        decreases n - i,
    {
        let hi = match nibble_of(s.get_char(i)) {
            Some(v) => v,
            None => {
                return None;
            },
        };
        let lo = match nibble_of(s.get_char(i + 1)) {
            Some(v) => v,
            None => {
                return None;
            },
        };
        out.push(16 * hi + lo);
        proof {
            assert(2 * ((i / 2) as int) == i as int);
            assert(hex_bytes(s@)[(i / 2) as int] == (16 * nibble_val(s@[i as int]) + nibble_val(
                s@[i as int + 1],
            )) as u8);
        }
        i = i + 2;
    }
    proof {
        assert(out@ =~= hex_bytes(s@));
    }
    Some(out)
}

/// Encodes bytes as lower-case hexadecimal.
pub fn hex_encode(b: &Vec<u8>) -> (r: String)
    ensures
        r@ == hex_seq(b@),
{
    let digits = "0123456789abcdef";
    proof {
        reveal_strlit("0123456789abcdef");
        assert(digits@.len() == 16);
    }
    let mut out = String::new();
    let mut i: usize = 0;
    while i < b.len()
        invariant
            0 <= i <= b@.len(),
            digits@.len() == 16,
            digits@ == "0123456789abcdef"@,
            out@ == hex_seq(b@.take(i as int)),
        decreases b@.len() - i,
    {
        let byte = b[i];
        let hi = (byte >> 4) as usize;
        let lo = (byte & 0xf) as usize;
        proof {
            assert(byte >> 4 < 16 && byte & 0xf < 16) by (bit_vector);
        }
        out.append(digits.substring_char(hi, hi + 1));
        out.append(digits.substring_char(lo, lo + 1));
        proof {
            assert(digits@.subrange(hi as int, hi as int + 1) =~= seq![hex_char_of(hi as int)]);
            assert(digits@.subrange(lo as int, lo as int + 1) =~= seq![hex_char_of(lo as int)]);
            assert(out@ =~= hex_seq(b@.take(i as int + 1))) by {
                let t1 = b@.take(i as int + 1);
                let t0 = b@.take(i as int);
                assert(forall|k: int| 0 <= k < 2 * i ==> (k / 2 < i && hex_seq(t0)[k] == #[trigger] hex_seq(
                    t1,
                )[k]));
                assert(t1[(2 * i as int) / 2] == byte);
                assert(t1[(2 * i as int + 1) / 2] == byte);
            }
        }
        i = i + 1;
    }
    proof {
        assert(b@.take(b@.len() as int) =~= b@);
    }
    out
}

/// The value of a decimal digit string, read from the left.
pub open spec fn dec_value(s: Seq<char>) -> int
    decreases s.len(),
{
    if s.len() == 0 {
        0
    } else {
        dec_value(s.drop_last()) * 10 + (s.last() as u32 as int - 48)
    }
}

pub open spec fn all_decimal(s: Seq<char>) -> bool {
    forall|i: int| 0 <= i < s.len() ==> 48 <= (#[trigger] s[i]) as u32 <= 57
}

proof fn lemma_dec_value_nonneg(s: Seq<char>)
    requires
        all_decimal(s),
    ensures
        dec_value(s) >= 0,
    decreases s.len(),
{
    if s.len() > 0 {
        assert(all_decimal(s.drop_last())) by {
            assert(forall|i: int| 0 <= i < s.len() - 1 ==> s.drop_last()[i] == #[trigger] s[i]);
        }
        lemma_dec_value_nonneg(s.drop_last());
    }
}

proof fn lemma_dec_value_monotone(s: Seq<char>, i: int)
    requires
        all_decimal(s),
        0 <= i <= s.len(),
    ensures
        dec_value(s) >= dec_value(s.take(i)),
    decreases s.len() - i,
{
    if i < s.len() {
        lemma_dec_value_monotone(s, i + 1);
        let t1 = s.take(i + 1);
        assert(t1.drop_last() =~= s.take(i));
        assert(t1.last() == s[i]);
        assert(all_decimal(s.take(i))) by {
            assert(forall|k: int| 0 <= k < i ==> s.take(i)[k] == #[trigger] s[k]);
        }
        lemma_dec_value_nonneg(s.take(i));
        assert(dec_value(t1) == dec_value(s.take(i)) * 10 + (s[i] as u32 as int - 48));
        assert(dec_value(t1) >= dec_value(s.take(i)));
    } else {
        assert(s.take(i) =~= s);
    }
}

/// Reads a decimal digit string as a 32-bit output index; fails exactly when
/// the string is empty, holds a non-digit, or overflows.
pub fn parse_u32_decimal(s: &str) -> (r: Option<u32>)
    ensures
        match r {
            Some(n) => s@.len() > 0 && all_decimal(s@) && dec_value(s@) == n,
            None => !(s@.len() > 0 && all_decimal(s@) && dec_value(s@) <= u32::MAX),
        },
{
    let n = s.unicode_len();
    if n == 0 {
        return None;
    }
    let mut acc: u32 = 0;
    let mut i: usize = 0;
    while i < n
        invariant
            n == s@.len(),
            0 <= i <= n,
            forall|k: int| 0 <= k < i ==> 48 <= (#[trigger] s@[k]) as u32 <= 57,
            acc == dec_value(s@.take(i as int)),
        decreases n - i,
    {
        let c = s.get_char(i);
        let u = c as u32;
        if !(48 <= u && u <= 57) {
            return None;
        }
        let d = u - 48;
        if acc > (u32::MAX - d) / 10 {
            proof {
                let t1 = s@.take(i as int + 1);
                assert(t1.drop_last() =~= s@.take(i as int));
                assert(t1.last() == s@[i as int]);
                assert(dec_value(t1) == acc * 10 + d);
                assert(acc * 10 + d > u32::MAX) by (nonlinear_arith)
                    requires
                        acc > (u32::MAX - d) / 10,
                        d <= 9,
                ;
                if all_decimal(s@) {
                    lemma_dec_value_monotone(s@, i as int + 1);
                }
            }
            return None;
        }
        proof {
            assert(acc * 10 + d <= u32::MAX) by (nonlinear_arith)
                requires
                    acc <= (u32::MAX - d) / 10,
                    d <= 9,
            ;
            let t1 = s@.take(i as int + 1);
            assert(t1.drop_last() =~= s@.take(i as int));
            assert(t1.last() == s@[i as int]);
        }
        acc = acc * 10 + d;
        i = i + 1;
    }
    proof {
        assert(s@.take(n as int) =~= s@);
    }
    Some(acc)
}

} // verus!

verus! {

/// Copies bytes in reverse order.
pub fn reverse_bytes(b: &Vec<u8>) -> (r: Vec<u8>)
    ensures
        r@ == b@.reverse(),
{
    let mut out: Vec<u8> = Vec::new();
    let mut i: usize = b.len();
    while i > 0
        invariant
            0 <= i <= b@.len(),
            out@.len() == b@.len() - i,
            forall|k: int| 0 <= k < out@.len() ==> out@[k] == b@[b@.len() - 1 - k],
        decreases i,
    {
        i = i - 1;
        out.push(b[i]);
    }
    proof {
        assert(out@ =~= b@.reverse());
    }
    out
}

/// The index of the first colon, or -1 when there is none.
pub open spec fn find_colon(s: Seq<char>) -> int
    decreases s.len(),
{
    if s.len() == 0 {
        -1
    } else if s[0] == ':' {
        0
    } else {
        let r = find_colon(s.drop_first());
        if r < 0 {
            -1
        } else {
            r + 1
        }
    }
}

proof fn lemma_find_colon_is(s: Seq<char>, i: int)
    requires
        0 <= i < s.len(),
        s[i] == ':',
        forall|k: int| 0 <= k < i ==> s[k] != ':',
    ensures
        find_colon(s) == i,
    decreases i,
{
    if i > 0 {
        lemma_find_colon_is(s.drop_first(), i - 1);
    }
}

proof fn lemma_find_colon_none(s: Seq<char>)
    requires
        forall|k: int| 0 <= k < s.len() ==> s[k] != ':',
    ensures
        find_colon(s) == -1,
    decreases s.len(),
{
    if s.len() > 0 {
        lemma_find_colon_none(s.drop_first());
    }
}

/// An outpoint in `txid:vout` form: exactly one colon, 64 hexadecimal digits
/// on the left, a decimal output index that fits 32 bits on the right.
pub open spec fn valid_outpoint(s: Seq<char>) -> bool {
    let p = find_colon(s);
    &&& p >= 0
    &&& find_colon(s.skip(p + 1)) < 0
    &&& s.take(p).len() == 64
    &&& valid_hex(s.take(p))
    &&& s.skip(p + 1).len() > 0
    &&& all_decimal(s.skip(p + 1))
    &&& dec_value(s.skip(p + 1)) <= u32::MAX
}

/// The 32 identifier bytes of a valid outpoint, in encoding order: the
/// reverse of the displayed hexadecimal bytes.
pub open spec fn outpoint_txid(s: Seq<char>) -> Seq<u8> {
    hex_bytes(s.take(find_colon(s))).reverse()
}

pub open spec fn outpoint_vout(s: Seq<char>) -> int {
    dec_value(s.skip(find_colon(s) + 1))
}

/// Splits an outpoint written `txid:vout` into the 32 identifier bytes (in
/// encoding order) and the output index; fails exactly on a malformed
/// outpoint.
pub fn parse_outpoint(s: &str) -> (r: Option<(Vec<u8>, u32)>)
    ensures
        match r {
            Some((txid, vout)) => {
                &&& valid_outpoint(s@)
                &&& txid@ == outpoint_txid(s@)
                &&& txid@.len() == 32
                &&& vout == outpoint_vout(s@)
            },
            None => !valid_outpoint(s@),
        },
{
    let n = s.unicode_len();
    // first colon
    let mut p: usize = 0;
    let mut found = false;
    while p < n && !found
        invariant
            n == s@.len(),
            0 <= p <= n,
            forall|k: int| 0 <= k < p ==> s@[k] != ':',
            found ==> p < n && s@[p as int] == ':',
        decreases n - p + (if found { 0int } else { 1int }),
    {
        if s.get_char(p) == ':' {
            found = true;
        } else {
            p = p + 1;
        }
    }
    if !found {
        proof {
            lemma_find_colon_none(s@);
        }
        return None;
    }
    proof {
        lemma_find_colon_is(s@, p as int);
    }
    // no second colon
    let mut q: usize = p + 1;
    while q < n
        invariant
            n == s@.len(),
            p < q <= n,
            s@[p as int] == ':',
            find_colon(s@) == p,
            forall|k: int| p < k < q ==> s@[k] != ':',
        decreases n - q,
    {
        if s.get_char(q) == ':' {
            proof {
                let rest = s@.skip(p as int + 1);
                assert(rest[q - p - 1] == s@[q as int]);
                assert(forall|k: int| 0 <= k < q - p - 1 ==> rest[k] == #[trigger] s@[k + p + 1]);
                lemma_find_colon_is(rest, q - p - 1);
            }
            return None;
        }
        q = q + 1;
    }
    proof {
        let rest = s@.skip(p as int + 1);
        assert(forall|k: int| 0 <= k < rest.len() ==> rest[k] == #[trigger] s@[k + p + 1]);
        lemma_find_colon_none(rest);
    }
    let left = s.substring_char(0, p);
    let right = s.substring_char(p + 1, n);
    proof {
        assert(left@ =~= s@.take(p as int));
        assert(right@ =~= s@.skip(p as int + 1));
    }
    if left.unicode_len() != 64 {
        return None;
    }
    let bytes = match hex_decode(left) {
        Some(b) => b,
        None => {
            return None;
        },
    };
    let vout = match parse_u32_decimal(right) {
        Some(v) => v,
        None => {
            return None;
        },
    };
    let txid = reverse_bytes(&bytes);
    proof {
        assert(txid@ == outpoint_txid(s@));
        assert(txid@.len() == 32);
    }
    Some((txid, vout))
}

/// The display form of a transaction id: byte-reversed lower-case
/// hexadecimal.
pub fn txid_hex(txid: &Vec<u8>) -> (r: String)
    ensures
        r@ == hex_seq(txid@.reverse()),
{
    let rev = reverse_bytes(txid);
    hex_encode(&rev)
}

} // verus!
