//! The text notations of given octets, and the writers that produce them.

use vstd::prelude::*;

use crate::parse::{dot_len, DOT};

verus! {

/// The lowercase hex digit of the nibble `v`.
pub open spec fn hex_char(v: nat) -> u8 {
    if v < 10 {
        (0x30 + v) as u8
    } else {
        (0x57 + v) as u8
    }
}

/// The high-nibble digit of `b`.
pub open spec fn hi_char(b: u8) -> u8 {
    hex_char(b as nat / 16)
}

/// The low-nibble digit of `b`.
pub open spec fn lo_char(b: u8) -> u8 {
    hex_char(b as nat % 16)
}

/// The colon or hyphen notation of the octets `a`, with separator `sep`: octet
/// `i` writes its digits at `3i` and `3i + 1`, and `sep` stands at `3i + 2`
/// between octets.
pub open spec fn colon_text(a: Seq<u8>, sep: u8) -> Seq<u8> {
    Seq::new(
        (3 * a.len() - 1) as nat,
        |k: int|
            if k % 3 == 2 {
                sep
            } else if k % 3 == 0 {
                hi_char(a[k / 3])
            } else {
                lo_char(a[k / 3])
            },
    )
}

/// The dot notation of the octets `a`: groups of two octets (four digits),
/// with a dot between groups.
pub open spec fn dot_text(a: Seq<u8>) -> Seq<u8> {
    Seq::new(
        dot_len(a.len()) as nat,
        |k: int|
            if k % 5 == 4 {
                DOT
            } else if (k % 5) % 2 == 0 {
                hi_char(a[2 * (k / 5) + (k % 5) / 2])
            } else {
                lo_char(a[2 * (k / 5) + (k % 5) / 2])
            },
    )
}

/// The lowercase hex digit of the nibble `v`.
pub fn hex_digit(v: u8) -> (r: u8)
    requires
        v < 16,
    ensures
        r == hex_char(v as nat),
{
    if v < 10 {
        0x30 + v
    } else {
        0x57 + v
    }
}

/// Writes the octets `a` in colon or hyphen notation with separator `sep`.
pub fn separated_array<const N: usize, const M: usize>(a: &[u8; N], sep: u8) -> (r: [u8; M])
    requires
        N >= 1,
        M == 3 * N - 1,
    ensures
        r@ == colon_text(a@, sep),
{
    let mut buf = [0u8; M];
    let mut i: usize = 0;
    while i < N
        invariant
            M == 3 * N - 1,
            i <= N,
            forall|k: int|
                0 <= k < 3 * i - 1 && k < M ==> buf@[k] == #[trigger] colon_text(a@, sep)[k],
        decreases N - i,
    {
        if i > 0 {
            buf[i * 3 - 1] = sep;
        }
        let v = a[i];
        let hi = v >> 4;
        let lo = v & 0xf;
        assert(hi == v / 16 && lo == v % 16) by (bit_vector)
            requires
                hi == v >> 4u8,
                lo == v & 0xfu8,
        ;
        buf[i * 3] = hex_digit(hi);
        buf[i * 3 + 1] = hex_digit(lo);
        proof {
            assert((3 * i) / 3 == i);
            assert((3 * i + 1) / 3 == i);
            assert((3 * i + 1) % 3 == 1);
            assert((3 * i) % 3 == 0);
        }
        i += 1;
    }
    assert(buf@ =~= colon_text(a@, sep));
    buf
}

/// Writes the octets `a` in dot notation.
pub fn dot_array<const N: usize, const M: usize>(a: &[u8; N]) -> (r: [u8; M])
    requires
        N >= 2,
        N % 2 == 0,
        M == dot_len(N as nat),
    ensures
        r@ == dot_text(a@),
{
    let mut buf = [0u8; M];
    let mut i: usize = 0;
    while i < N
        invariant
            N >= 2,
            N % 2 == 0,
            M == dot_len(N as nat),
            i <= N,
            forall|k: int|
                0 <= k < 2 * i + i / 2 && k < M ==> buf@[k] == #[trigger] dot_text(a@)[k],
        decreases N - i,
    {
        let p = i * 2 + i / 2;
        let v = a[i];
        let hi = v >> 4;
        let lo = v & 0xf;
        assert(hi == v / 16 && lo == v % 16) by (bit_vector)
            requires
                hi == v >> 4u8,
                lo == v & 0xfu8,
        ;
        buf[p] = hex_digit(hi);
        buf[p + 1] = hex_digit(lo);
        if i % 2 == 1 && i != N - 1 {
            buf[p + 2] = DOT;
        }
        proof {
            let g = i / 2;
            assert(p / 5 == g && p % 5 == 2 * (i % 2));
            assert((p + 1) / 5 == g && (p + 1) % 5 == 2 * (i % 2) + 1);
            if i % 2 == 1 {
                assert((p + 2) % 5 == 4);
            }
        }
        i += 1;
    }
    assert(buf@ =~= dot_text(a@));
    buf
}

/// Every byte of colon or hyphen notation is ASCII where the separator is.
pub proof fn lemma_colon_text_ascii(a: Seq<u8>, sep: u8)
    requires
        a.len() >= 1,
        sep < 128,
    ensures
        crate::bytes::all_ascii(colon_text(a, sep)),
{
}

} // verus!
