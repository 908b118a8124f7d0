//! Hex digits: runs of digits, and the byte that two digits write.

use vstd::prelude::*;
use vstd::string::StringSliceAdditionalSpecFns;

verus! {

/// Threshold at which the accumulated value of a hex run is rejected.
pub const BIG: i32 = 0x7fffffff;

/// Whether `c` is an ASCII hex digit (`0-9`, `a-f`, `A-F`).
pub open spec fn is_hex_digit(c: u8) -> bool {
    (0x30 <= c <= 0x39) || (0x61 <= c <= 0x66) || (0x41 <= c <= 0x46)
}

/// The value of the hex digit `c`.
pub open spec fn hex_digit_value(c: u8) -> nat {
    if 0x30 <= c <= 0x39 {
        (c - 0x30) as nat
    } else if 0x61 <= c <= 0x66 {
        (c - 0x61 + 10) as nat
    } else {
        (c - 0x41 + 10) as nat
    }
}

/// The base-16 value of a sequence of hex digits, most significant first.
pub open spec fn hex_seq_value(s: Seq<u8>) -> nat
    decreases s.len(),
{
    if s.len() == 0 {
        0
    } else {
        16 * hex_seq_value(s.drop_last()) + hex_digit_value(s.last())
    }
}

/// `k` is the length of the run of hex digits at the start of `s`.
pub open spec fn is_hex_run(s: Seq<u8>, k: int) -> bool {
    &&& 0 <= k <= s.len()
    &&& forall|i: int| 0 <= i < k ==> is_hex_digit(#[trigger] s[i])
    &&& (k == s.len() || !is_hex_digit(s[k]))
}

/// The byte written by the two hex digits `hi` and `lo`.
pub open spec fn hex_pair_value(hi: u8, lo: u8) -> u8 {
    (16 * hex_digit_value(hi) + hex_digit_value(lo)) as u8
}

/// What the two leading hex digits of `b` decode to, where the byte after them,
/// if any, must be `e`.
pub open spec fn leading_pair(b: Seq<u8>, e: u8) -> Option<u8> {
    if b.len() > 2 && b[2] != e {
        None
    } else if b.len() >= 2 && is_hex_digit(b[0]) && is_hex_digit(b[1]) {
        Some(hex_pair_value(b[0], b[1]))
    } else {
        None
    }
}

proof fn lemma_hex_seq_value_prefix_mono(s: Seq<u8>, j: int, k: int)
    requires
        0 <= j <= k <= s.len(),
    ensures
        hex_seq_value(s.take(j)) <= hex_seq_value(s.take(k)),
    decreases k - j,
{
    if j < k {
        lemma_hex_seq_value_prefix_mono(s, j, k - 1);
        assert(s.take(k).drop_last() =~= s.take(k - 1));
    }
}

/// Reads the run of hex digits at the start of `bytes`: its value and its length.
/// `None` where the run is empty or its value reaches `BIG`.
pub fn xtoi(bytes: &[u8]) -> (r: Option<(i32, usize)>)
    ensures
        match r {
            Some((v, k)) => {
                &&& is_hex_run(bytes@, k as int)
                &&& k > 0
                &&& v as int == hex_seq_value(bytes@.take(k as int))
                &&& v < BIG
            },
            None => forall|k: int|
                is_hex_run(bytes@, k) ==> k == 0 || hex_seq_value(bytes@.take(k)) >= BIG,
        },
{
    let mut n: i32 = 0;
    let mut idx: usize = 0;
    let num_bytes = bytes.len();
    while idx < num_bytes
        invariant
            num_bytes == bytes@.len(),
            idx <= num_bytes,
            forall|i: int| 0 <= i < idx ==> is_hex_digit(#[trigger] bytes@[i]),
            n as int == hex_seq_value(bytes@.take(idx as int)),
            0 <= n < BIG,
        ensures
            idx <= num_bytes,
            forall|i: int| 0 <= i < idx ==> is_hex_digit(#[trigger] bytes@[i]),
            idx == num_bytes || !is_hex_digit(bytes@[idx as int]),
            n as int == hex_seq_value(bytes@.take(idx as int)),
            0 <= n < BIG,
        decreases num_bytes - idx,
    {
        let c = bytes[idx];
        let d: i32;
        if 0x30u8 <= c && c <= 0x39u8 {
            d = (c - 0x30u8) as i32;
        } else if 0x61u8 <= c && c <= 0x66u8 {
            d = (c - 0x61u8) as i32 + 10;
        } else if 0x41u8 <= c && c <= 0x46u8 {
            d = (c - 0x41u8) as i32 + 10;
        } else {
            break;
        }
        proof {
            assert(bytes@.take(idx + 1).drop_last() =~= bytes@.take(idx as int));
        }
        let next: i64 = n as i64 * 16 + d as i64;
        if next >= BIG as i64 {
            proof {
                assert forall|k: int| is_hex_run(bytes@, k) implies k == 0 || hex_seq_value(
                    bytes@.take(k),
                ) >= BIG by {
                    if k <= idx {
                        assert(is_hex_digit(bytes@[k]));
                    }
                    lemma_hex_seq_value_prefix_mono(bytes@, idx + 1, k);
                }
            }
            return None;
        }
        n = next as i32;
        idx += 1;
    }
    if idx == 0 {
        return None;
    }
    Some((n, idx))
}

proof fn lemma_pair_run(a: u8, b: u8)
    ensures
        ({
            let s = seq![a, b];
            &&& is_hex_digit(a) && is_hex_digit(b) ==> is_hex_run(s, 2)
                && hex_seq_value(s.take(2)) == 16 * hex_digit_value(a) + hex_digit_value(b)
                && hex_seq_value(s.take(2)) < 256
            &&& !is_hex_digit(a) ==> is_hex_run(s, 0)
            &&& is_hex_digit(a) && !is_hex_digit(b) ==> is_hex_run(s, 1)
        }),
{
    let s = seq![a, b];
    assert(s.take(2) =~= s);
    assert(s.drop_last() =~= seq![a]);
    assert(seq![a].drop_last() =~= Seq::<u8>::empty());
    assert(hex_seq_value(Seq::<u8>::empty()) == 0);
    assert(hex_seq_value(seq![a]) == hex_digit_value(a));
    assert(hex_seq_value(s) == 16 * hex_digit_value(a) + hex_digit_value(b));
}

/// Decodes the two hex digits `hi`, `lo` as one byte.
pub(crate) fn decode_pair(hi: u8, lo: u8) -> (r: Option<u8>)
    ensures
        r == (if is_hex_digit(hi) && is_hex_digit(lo) {
            Some(hex_pair_value(hi, lo))
        } else {
            None
        }),
{
    let buf = [hi, lo];
    proof {
        lemma_pair_run(hi, lo);
        assert(buf@ =~= seq![hi, lo]);
    }
    match xtoi(buf.as_slice()) {
        Some((n, 2)) => Some(n as u8),
        _ => None,
    }
}

/// Converts the two leading hex digits of `s` into a byte. Where `s` is longer
/// than two bytes, its third byte must be `e`.
pub fn xtoi2(s: &str, e: u8) -> (r: Option<u8>)
    ensures
        r == leading_pair(s.spec_bytes(), e),
{
    let bytes = s.as_bytes();
    let num_bytes = bytes.len();
    if num_bytes > 2 && bytes[2] != e {
        return None;
    }
    if num_bytes >= 2 {
        decode_pair(bytes[0], bytes[1])
    } else {
        None
    }
}

} // verus!
