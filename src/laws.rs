//! Laws of the parser and the formatter: round trips, how each kind of
//! faulty text is refused, case insensitivity, and the byte order.

use vstd::prelude::*;

use core::cmp::Ordering;

use crate::bytes::lex_cmp;
use crate::format::{colon_text, dot_text, hex_char, hi_char, lo_char};
use crate::hex::{hex_digit_value, hex_pair_value, is_hex_digit};
use crate::parse::{
    colon_first_error, colon_group_error, colon_len, colon_octets, dot_first_error,
    dot_group_error, dot_len, dot_octets, dot_pos, is_octet_separator, parse_model, valid_width,
    ParseError, COLON, DOT, HYPHEN,
};

verus! {

proof fn lemma_hex_char_digit(v: nat)
    requires
        v < 16,
    ensures
        is_hex_digit(hex_char(v)),
        hex_digit_value(hex_char(v)) == v,
        !(0x41 <= hex_char(v) <= 0x46),
{
}

proof fn lemma_digit_char(c: u8)
    requires
        is_hex_digit(c),
        !(0x41 <= c <= 0x46),
    ensures
        hex_digit_value(c) < 16,
        hex_char(hex_digit_value(c)) == c,
{
}

proof fn lemma_pair_of_chars(b: u8)
    ensures
        is_hex_digit(hi_char(b)),
        is_hex_digit(lo_char(b)),
        hex_pair_value(hi_char(b), lo_char(b)) == b,
{
    lemma_hex_char_digit(b as nat / 16);
    lemma_hex_char_digit(b as nat % 16);
}

proof fn lemma_chars_of_pair(h: u8, l: u8)
    requires
        is_hex_digit(h),
        is_hex_digit(l),
        !(0x41 <= h <= 0x46),
        !(0x41 <= l <= 0x46),
    ensures
        hi_char(hex_pair_value(h, l)) == h,
        lo_char(hex_pair_value(h, l)) == l,
{
    lemma_digit_char(h);
    lemma_digit_char(l);
    let v = 16 * hex_digit_value(h) + hex_digit_value(l);
    assert(v < 256);
    assert(v / 16 == hex_digit_value(h) && v % 16 == hex_digit_value(l));
}

proof fn lemma_colon_first_error_none<const N: usize>(b: Seq<u8>, sep: u8, i: int)
    requires
        0 <= i <= N,
    ensures
        colon_first_error::<N>(b, sep, i) is None <==> forall|j: int|
            i <= j < N ==> #[trigger] colon_group_error::<N>(b, sep, j) is None,
    decreases N - i,
{
    if i < N {
        lemma_colon_first_error_none::<N>(b, sep, i + 1);
        if colon_first_error::<N>(b, sep, i) is None {
            assert forall|j: int| i <= j < N implies #[trigger] colon_group_error::<N>(
                b,
                sep,
                j,
            ) is None by {
                if j > i {
                    assert(colon_group_error::<N>(b, sep, j) is None);
                }
            }
        }
    }
}

proof fn lemma_dot_first_error_none<const N: usize>(b: Seq<u8>, g: int)
    requires
        0 <= g <= N / 2,
    ensures
        dot_first_error::<N>(b, g) is None <==> forall|j: int|
            g <= j < N / 2 ==> #[trigger] dot_group_error::<N>(b, j) is None,
    decreases N / 2 - g,
{
    if g < N / 2 {
        lemma_dot_first_error_none::<N>(b, g + 1);
        if dot_first_error::<N>(b, g) is None {
            assert forall|j: int| g <= j < N / 2 implies #[trigger] dot_group_error::<N>(
                b,
                j,
            ) is None by {
                if j > g {
                    assert(dot_group_error::<N>(b, j) is None);
                }
            }
        }
    }
}

proof fn lemma_colon_first_error_from<const N: usize>(b: Seq<u8>, sep: u8, k: int, i: int)
    requires
        0 <= k <= i < N,
        colon_group_error::<N>(b, sep, i) is Some,
        forall|j: int| 0 <= j < i ==> #[trigger] colon_group_error::<N>(b, sep, j) is None,
    ensures
        colon_first_error::<N>(b, sep, k) == colon_group_error::<N>(b, sep, i),
    decreases i - k,
{
    if k < i {
        assert(colon_group_error::<N>(b, sep, k) is None);
        lemma_colon_first_error_from::<N>(b, sep, k + 1, i);
    }
}

proof fn lemma_dot_first_error_from<const N: usize>(b: Seq<u8>, k: int, g: int)
    requires
        0 <= k <= g < N / 2,
        dot_group_error::<N>(b, g) is Some,
        forall|j: int| 0 <= j < g ==> #[trigger] dot_group_error::<N>(b, j) is None,
    ensures
        dot_first_error::<N>(b, k) == dot_group_error::<N>(b, g),
    decreases g - k,
{
    if k < g {
        assert(dot_group_error::<N>(b, k) is None);
        lemma_dot_first_error_from::<N>(b, k + 1, g);
    }
}


/// Formatting then parsing gives the octets back: for any octets `a` of a
/// valid width, colon, hyphen and dot notation each parse to `a`.
pub proof fn lemma_format_then_parse<const N: usize>(a: Seq<u8>)
    requires
        valid_width(N as nat),
        a.len() == N,
    ensures
        parse_model::<N>(colon_text(a, COLON)) == Ok::<Seq<u8>, ParseError<N>>(a),
        parse_model::<N>(colon_text(a, HYPHEN)) == Ok::<Seq<u8>, ParseError<N>>(a),
        parse_model::<N>(dot_text(a)) == Ok::<Seq<u8>, ParseError<N>>(a),
{
    lemma_colon_format_parse::<N>(a, COLON);
    lemma_colon_format_parse::<N>(a, HYPHEN);
    lemma_dot_format_parse::<N>(a);
}

proof fn lemma_div5(g: int, r: int)
    requires
        0 <= g,
        0 <= r < 5,
    ensures
        (5 * g + r) / 5 == g,
        (5 * g + r) % 5 == r,
{
    assert((5 * g + r) / 5 == g) by (nonlinear_arith)
        requires
            0 <= g,
            0 <= r < 5,
    ;
}

proof fn lemma_dot_text_group(a: Seq<u8>, g: int)
    requires
        a.len() >= 2,
        a.len() % 2 == 0,
        0 <= g < a.len() / 2,
    ensures
        ({
            let t = dot_text(a);
            &&& t[5 * g] == hi_char(a[2 * g])
            &&& t[5 * g + 1] == lo_char(a[2 * g])
            &&& t[5 * g + 2] == hi_char(a[2 * g + 1])
            &&& t[5 * g + 3] == lo_char(a[2 * g + 1])
            &&& (5 * g + 4 < t.len() ==> t[5 * g + 4] == DOT)
            &&& t.len() == 5 * (a.len() / 2) - 1
        }),
{
    lemma_div5(g, 0);
    lemma_div5(g, 1);
    lemma_div5(g, 2);
    lemma_div5(g, 3);
    lemma_div5(g, 4);
}

proof fn lemma_dot_format_parse<const N: usize>(a: Seq<u8>)
    requires
        valid_width(N as nat),
        a.len() == N,
    ensures
        parse_model::<N>(dot_text(a)) == Ok::<Seq<u8>, ParseError<N>>(a),
{
    let t = dot_text(a);
    assert(t.len() == dot_len(N as nat));
    assert forall|g: int| 0 <= g < N / 2 implies #[trigger] dot_group_error::<N>(t, g) is None by {
        lemma_pair_of_chars(a[2 * g]);
        lemma_pair_of_chars(a[2 * g + 1]);
        lemma_dot_text_group(a, g);
    }
    lemma_dot_first_error_none::<N>(t, 0);
    assert forall|i: int| 0 <= i < N implies #[trigger] dot_octets(t, N as nat)[i] == a[i] by {
        lemma_pair_of_chars(a[i]);
        let g = i / 2;
        lemma_dot_text_group(a, g);
        assert(dot_pos(i) == 5 * g + 2 * (i % 2));
    }
    assert(dot_octets(t, N as nat) =~= a);
}

proof fn lemma_colon_format_parse<const N: usize>(a: Seq<u8>, sep: u8)
    requires
        valid_width(N as nat),
        a.len() == N,
        sep == COLON || sep == HYPHEN,
    ensures
        parse_model::<N>(colon_text(a, sep)) == Ok::<Seq<u8>, ParseError<N>>(a),
{
    let t = colon_text(a, sep);
    assert(t.len() == colon_len(N as nat));
    assert(t.len() != dot_len(N as nat));
    assert(t[2] == sep);
    assert forall|i: int| 0 <= i < N implies #[trigger] colon_group_error::<N>(t, sep, i) is None by {
        lemma_pair_of_chars(a[i]);
        assert((3 * i) / 3 == i && (3 * i) % 3 == 0);
        assert((3 * i + 1) / 3 == i && (3 * i + 1) % 3 == 1);
        assert((3 * i + 2) % 3 == 2);
    }
    lemma_colon_first_error_none::<N>(t, sep, 0);
    assert forall|i: int| 0 <= i < N implies #[trigger] colon_octets(t, N as nat)[i] == a[i] by {
        lemma_pair_of_chars(a[i]);
        assert((3 * i) / 3 == i && (3 * i) % 3 == 0);
        assert((3 * i + 1) / 3 == i && (3 * i + 1) % 3 == 1);
    }
    assert(colon_octets(t, N as nat) =~= a);
}


/// No byte of `b` is an uppercase hex letter (`A-F`).
pub open spec fn no_upper_hex(b: Seq<u8>) -> bool {
    forall|k: int| 0 <= k < b.len() ==> !(0x41 <= #[trigger] b[k] <= 0x46)
}

proof fn lemma_div3(i: int, r: int)
    requires
        0 <= i,
        0 <= r < 3,
    ensures
        (3 * i + r) / 3 == i,
        (3 * i + r) % 3 == r,
{
    assert((3 * i + r) / 3 == i) by (nonlinear_arith)
        requires
            0 <= i,
            0 <= r < 3,
    ;
}

/// Parsing then formatting in the same notation gives the text back, for text
/// whose hex digits are lowercase (the formatter writes lowercase digits).
pub proof fn lemma_parse_then_format<const N: usize>(b: Seq<u8>)
    requires
        valid_width(N as nat),
        parse_model::<N>(b) is Ok,
        no_upper_hex(b),
    ensures
        b.len() == colon_len(N as nat) ==> colon_text(parse_model::<N>(b)->Ok_0, b[2]) == b,
        b.len() == dot_len(N as nat) ==> dot_text(parse_model::<N>(b)->Ok_0) == b,
{
    if b.len() == dot_len(N as nat) {
        let o = dot_octets(b, N as nat);
        lemma_dot_first_error_none::<N>(b, 0);
        let t = dot_text(o);
        assert forall|k: int| 0 <= k < b.len() implies #[trigger] t[k] == b[k] by {
            let g = k / 5;
            let r = k % 5;
            assert(k == 5 * g + r);
            assert(0 <= g < N / 2);
            assert(dot_group_error::<N>(b, g) is None);
            lemma_dot_text_group(o, g);
            assert(o[2 * g] == hex_pair_value(b[5 * g], b[5 * g + 1])) by {
                assert(dot_pos(2 * g) == 5 * g);
            }
            assert(o[2 * g + 1] == hex_pair_value(b[5 * g + 2], b[5 * g + 3])) by {
                assert(dot_pos(2 * g + 1) == 5 * g + 2);
            }
            lemma_chars_of_pair(b[5 * g], b[5 * g + 1]);
            lemma_chars_of_pair(b[5 * g + 2], b[5 * g + 3]);
        }
        assert(t =~= b);
    }
    if b.len() == colon_len(N as nat) && b.len() != dot_len(N as nat) {
        let sep = b[2];
        let o = colon_octets(b, N as nat);
        lemma_colon_first_error_none::<N>(b, sep, 0);
        let t = colon_text(o, sep);
        assert forall|k: int| 0 <= k < b.len() implies #[trigger] t[k] == b[k] by {
            let i = k / 3;
            let r = k % 3;
            assert(k == 3 * i + r);
            assert(colon_group_error::<N>(b, sep, i) is None);
            lemma_div3(i, r);
            lemma_chars_of_pair(b[3 * i], b[3 * i + 1]);
        }
        assert(t =~= b);
    }
}


/// Text whose length fits neither notation is refused with its length,
/// whatever it holds.
pub proof fn lemma_length_rejection<const N: usize>(b: Seq<u8>)
    requires
        valid_width(N as nat),
        b.len() != colon_len(N as nat),
        b.len() != dot_len(N as nat),
        b.len() <= usize::MAX,
    ensures
        parse_model::<N>(b) == Err::<Seq<u8>, ParseError<N>>(
            ParseError::InvalidLength(b.len() as usize),
        ),
{
}

/// In colon or hyphen notation, a first separator other than `:` or `-` is
/// refused as an invalid separator.
pub proof fn lemma_invalid_first_separator<const N: usize>(b: Seq<u8>)
    requires
        valid_width(N as nat),
        b.len() == colon_len(N as nat),
        !is_octet_separator(b[2]),
    ensures
        parse_model::<N>(b) == Err::<Seq<u8>, ParseError<N>>(ParseError::InvalidSeparator(b[2])),
{
}

/// In colon or hyphen notation, a separator that differs from the first one
/// makes parsing fail; where everything before it (earlier octets and the
/// digits just before it) is well formed, the error names the first separator
/// and the byte found.
pub proof fn lemma_colon_separator_consistency<const N: usize>(b: Seq<u8>, i: int)
    requires
        valid_width(N as nat),
        b.len() == colon_len(N as nat),
        is_octet_separator(b[2]),
        0 <= i < N - 1,
        b[3 * i + 2] != b[2],
    ensures
        parse_model::<N>(b) is Err,
        (forall|j: int| 0 <= j < i ==> #[trigger] colon_group_error::<N>(b, b[2], j) is None)
            && is_hex_digit(b[3 * i]) && is_hex_digit(b[3 * i + 1]) ==> parse_model::<N>(b)
            == Err::<Seq<u8>, ParseError<N>>(
            ParseError::UnexpectedSeparator { expected: b[2], actual: b[3 * i + 2] },
        ),
{
    assert(colon_group_error::<N>(b, b[2], i) is Some);
    lemma_colon_first_error_none::<N>(b, b[2], 0);
    if forall|j: int| 0 <= j < i ==> #[trigger] colon_group_error::<N>(b, b[2], j) is None {
        lemma_colon_first_error_from::<N>(b, b[2], 0, i);
    }
}

/// In dot notation, a byte other than `.` where a dot is due makes parsing
/// fail; where everything before it (earlier groups and the four digits just
/// before it) is well formed, the error names `.` and the byte found.
pub proof fn lemma_dot_separator_consistency<const N: usize>(b: Seq<u8>, g: int)
    requires
        valid_width(N as nat),
        b.len() == dot_len(N as nat),
        0 <= g < N / 2 - 1,
        b[5 * g + 4] != DOT,
    ensures
        parse_model::<N>(b) is Err,
        (forall|j: int| 0 <= j < g ==> #[trigger] dot_group_error::<N>(b, j) is None) && (
        forall|k: int| 5 * g <= k < 5 * g + 4 ==> is_hex_digit(#[trigger] b[k]))
            ==> parse_model::<N>(b) == Err::<Seq<u8>, ParseError<N>>(
            ParseError::UnexpectedSeparator { expected: DOT, actual: b[5 * g + 4] },
        ),
{
    assert(dot_group_error::<N>(b, g) is Some);
    lemma_dot_first_error_none::<N>(b, 0);
    if forall|j: int| 0 <= j < g ==> #[trigger] dot_group_error::<N>(b, j) is None {
        lemma_dot_first_error_from::<N>(b, 0, g);
    }
}

/// In colon or hyphen notation, an octet with a byte that is no hex digit makes
/// parsing fail; where everything before it is well formed, the error names
/// exactly its two bytes.
pub proof fn lemma_colon_hex_validation<const N: usize>(b: Seq<u8>, i: int)
    requires
        valid_width(N as nat),
        b.len() == colon_len(N as nat),
        is_octet_separator(b[2]),
        0 <= i < N,
        !(is_hex_digit(b[3 * i]) && is_hex_digit(b[3 * i + 1])),
    ensures
        parse_model::<N>(b) is Err,
        (forall|j: int| 0 <= j < i ==> #[trigger] colon_group_error::<N>(b, b[2], j) is None)
            ==> parse_model::<N>(b) == Err::<Seq<u8>, ParseError<N>>(
            ParseError::InvalidHexDigit([b[3 * i], b[3 * i + 1]]),
        ),
{
    assert(colon_group_error::<N>(b, b[2], i) is Some);
    lemma_colon_first_error_none::<N>(b, b[2], 0);
    if forall|j: int| 0 <= j < i ==> #[trigger] colon_group_error::<N>(b, b[2], j) is None {
        lemma_colon_first_error_from::<N>(b, b[2], 0, i);
    }
}

/// In dot notation, a pair of bytes meant as hex digits (at offset `5g + 2h`,
/// `h` being 0 or 1) that are not both hex digits makes parsing fail; where
/// everything before it is well formed, the error names exactly that pair.
pub proof fn lemma_dot_hex_validation<const N: usize>(b: Seq<u8>, g: int, h: int)
    requires
        valid_width(N as nat),
        b.len() == dot_len(N as nat),
        0 <= g < N / 2,
        h == 0 || h == 1,
        !(is_hex_digit(b[5 * g + 2 * h]) && is_hex_digit(b[5 * g + 2 * h + 1])),
    ensures
        parse_model::<N>(b) is Err,
        (forall|j: int| 0 <= j < g ==> #[trigger] dot_group_error::<N>(b, j) is None) && (h == 1
            ==> is_hex_digit(b[5 * g]) && is_hex_digit(b[5 * g + 1])) ==> parse_model::<N>(b) == Err::<Seq<u8>, ParseError<N>>(
            ParseError::InvalidHexDigit([b[5 * g + 2 * h], b[5 * g + 2 * h + 1]]),
        ),
{
    assert(dot_group_error::<N>(b, g) is Some);
    lemma_dot_first_error_none::<N>(b, 0);
    if forall|j: int| 0 <= j < g ==> #[trigger] dot_group_error::<N>(b, j) is None {
        lemma_dot_first_error_from::<N>(b, 0, g);
    }
}


/// `s` and `t` differ at most in the case of hex letters: where they differ,
/// both bytes are hex digits of the same value.
pub open spec fn same_but_hex_case(s: Seq<u8>, t: Seq<u8>) -> bool {
    &&& s.len() == t.len()
    &&& forall|k: int|
        0 <= k < s.len() ==> (#[trigger] s[k] == t[k] || (is_hex_digit(s[k]) && is_hex_digit(t[k])
            && hex_digit_value(s[k]) == hex_digit_value(t[k])))
}

/// An uppercase hex letter has the value of its lowercase form.
pub proof fn lemma_hex_letter_case(c: u8)
    requires
        0x41 <= c <= 0x46,
    ensures
        is_hex_digit(c),
        is_hex_digit((c + 0x20) as u8),
        hex_digit_value(c) == hex_digit_value((c + 0x20) as u8),
{
}

/// Uppercase and lowercase hex digits parse alike: text that differs only in
/// the case of hex letters parses to the same octets, or fails in both forms.
pub proof fn lemma_case_insensitive<const N: usize>(s: Seq<u8>, t: Seq<u8>)
    requires
        valid_width(N as nat),
        same_but_hex_case(s, t),
    ensures
        parse_model::<N>(s) is Ok <==> parse_model::<N>(t) is Ok,
        parse_model::<N>(s) is Ok ==> parse_model::<N>(s) == parse_model::<N>(t),
{
    if s.len() == dot_len(N as nat) {
        assert forall|g: int| 0 <= g < N / 2 implies (#[trigger] dot_group_error::<N>(s, g) is None
            <==> dot_group_error::<N>(t, g) is None) by {
            assert(s[5 * g] == t[5 * g] || is_hex_digit(s[5 * g]));
            assert(s[5 * g + 1] == t[5 * g + 1] || is_hex_digit(s[5 * g + 1]));
            assert(s[5 * g + 2] == t[5 * g + 2] || is_hex_digit(s[5 * g + 2]));
            assert(s[5 * g + 3] == t[5 * g + 3] || is_hex_digit(s[5 * g + 3]));
            if 5 * g + 4 < s.len() {
                assert(s[5 * g + 4] == t[5 * g + 4] || is_hex_digit(s[5 * g + 4]));
            }
        }
        lemma_dot_first_error_none::<N>(s, 0);
        lemma_dot_first_error_none::<N>(t, 0);
        if dot_first_error::<N>(s, 0) is None {
            assert forall|j: int| 0 <= j < N / 2 implies #[trigger] dot_group_error::<N>(t, j) is None by {
                assert(dot_group_error::<N>(s, j) is None);
            }
        }
        if dot_first_error::<N>(t, 0) is None {
            assert forall|j: int| 0 <= j < N / 2 implies #[trigger] dot_group_error::<N>(s, j) is None by {
                assert(dot_group_error::<N>(t, j) is None);
            }
        }
        assert forall|i: int| 0 <= i < N implies #[trigger] dot_octets(s, N as nat)[i]
            == dot_octets(t, N as nat)[i] by {
            let p = dot_pos(i);
            assert(p + 1 < s.len());
            assert(s[p] == t[p] || is_hex_digit(s[p]));
            assert(s[p + 1] == t[p + 1] || is_hex_digit(s[p + 1]));
        }
        assert(dot_octets(s, N as nat) =~= dot_octets(t, N as nat));
    } else if s.len() == colon_len(N as nat) {
        assert(s[2] == t[2] || is_hex_digit(s[2]));
        if is_octet_separator(s[2]) || is_octet_separator(t[2]) {
            let sep = s[2];
            assert forall|i: int| 0 <= i < N implies (#[trigger] colon_group_error::<N>(
                s,
                sep,
                i,
            ) is None <==> colon_group_error::<N>(t, sep, i) is None) by {
                assert(s[3 * i] == t[3 * i] || is_hex_digit(s[3 * i]));
                assert(s[3 * i + 1] == t[3 * i + 1] || is_hex_digit(s[3 * i + 1]));
                if 3 * i + 2 < s.len() {
                    assert(s[3 * i + 2] == t[3 * i + 2] || is_hex_digit(s[3 * i + 2]));
                }
            }
            lemma_colon_first_error_none::<N>(s, sep, 0);
            lemma_colon_first_error_none::<N>(t, sep, 0);
            if colon_first_error::<N>(s, sep, 0) is None {
                assert forall|j: int| 0 <= j < N implies #[trigger] colon_group_error::<N>(
                    t,
                    sep,
                    j,
                ) is None by {
                    assert(colon_group_error::<N>(s, sep, j) is None);
                }
            }
            if colon_first_error::<N>(t, sep, 0) is None {
                assert forall|j: int| 0 <= j < N implies #[trigger] colon_group_error::<N>(
                    s,
                    sep,
                    j,
                ) is None by {
                    assert(colon_group_error::<N>(t, sep, j) is None);
                }
            }
            assert forall|i: int| 0 <= i < N implies #[trigger] colon_octets(s, N as nat)[i]
                == colon_octets(t, N as nat)[i] by {
                assert(s[3 * i] == t[3 * i] || is_hex_digit(s[3 * i]));
                assert(s[3 * i + 1] == t[3 * i + 1] || is_hex_digit(s[3 * i + 1]));
            }
            assert(colon_octets(s, N as nat) =~= colon_octets(t, N as nat));
        }
    }
}

/// Lexicographic order of byte sequences is total: it finds two sequences
/// equal exactly when they are, and swapping the sides reverses it.
pub proof fn lemma_lex_cmp_total(a: Seq<u8>, b: Seq<u8>)
    ensures
        (lex_cmp(a, b) == Ordering::Equal) <==> (a == b),
        (lex_cmp(a, b) == Ordering::Less) <==> (lex_cmp(b, a) == Ordering::Greater),
    decreases a.len(),
{
    if a.len() > 0 && b.len() > 0 && a[0] == b[0] {
        lemma_lex_cmp_total(a.drop_first(), b.drop_first());
        if a.drop_first() == b.drop_first() {
            assert(a =~= seq![a[0]] + a.drop_first());
            assert(b =~= seq![b[0]] + b.drop_first());
        }
    }
    if a.len() == 0 && b.len() == 0 {
        assert(a =~= b);
    }
}

/// Lexicographic order of byte sequences is transitive.
pub proof fn lemma_lex_cmp_transitive(a: Seq<u8>, b: Seq<u8>, c: Seq<u8>)
    requires
        lex_cmp(a, b) == Ordering::Less,
        lex_cmp(b, c) == Ordering::Less,
    ensures
        lex_cmp(a, c) == Ordering::Less,
    decreases a.len(),
{
    if a.len() > 0 && b.len() > 0 && c.len() > 0 && a[0] == b[0] && b[0] == c[0] {
        lemma_lex_cmp_transitive(a.drop_first(), b.drop_first(), c.drop_first());
    }
}


/// `b` is colon or hyphen notation of `N` octets: the separator at index 2 is
/// `:` or `-`, every octet is two hex digits, and the same separator stands
/// between octets.
pub open spec fn in_colon_layout<const N: usize>(b: Seq<u8>) -> bool {
    &&& b.len() == colon_len(N as nat)
    &&& is_octet_separator(b[2])
    &&& forall|i: int|
        0 <= i < N ==> is_hex_digit(#[trigger] b[3 * i]) && is_hex_digit(b[3 * i + 1])
    &&& forall|i: int| 0 <= i < N - 1 ==> #[trigger] b[3 * i + 2] == b[2]
}

/// `b` is dot notation of `N` octets: groups of four hex digits with a dot
/// between groups.
pub open spec fn in_dot_layout<const N: usize>(b: Seq<u8>) -> bool {
    &&& b.len() == dot_len(N as nat)
    &&& forall|g: int|
        0 <= g < N / 2 ==> is_hex_digit(#[trigger] b[5 * g]) && is_hex_digit(b[5 * g + 1])
            && is_hex_digit(b[5 * g + 2]) && is_hex_digit(b[5 * g + 3])
    &&& forall|g: int| 0 <= g < N / 2 - 1 ==> #[trigger] b[5 * g + 4] == DOT
}

/// `b` with its uppercase hex letters made lowercase.
pub open spec fn lower_hex(b: Seq<u8>) -> Seq<u8> {
    Seq::new(b.len(), |k: int| if 0x41 <= b[k] <= 0x46 { (b[k] + 0x20) as u8 } else { b[k] })
}

/// Parsing succeeds exactly on text in one of the notations, and then
/// formatting the octets in that notation gives the text back, with its hex
/// letters in lowercase.
pub proof fn lemma_parse_succeeds_on_layouts<const N: usize>(b: Seq<u8>)
    requires
        valid_width(N as nat),
    ensures
        parse_model::<N>(b) is Ok <==> in_dot_layout::<N>(b) || in_colon_layout::<N>(b),
        in_dot_layout::<N>(b) ==> dot_text(parse_model::<N>(b)->Ok_0) == lower_hex(b),
        in_colon_layout::<N>(b) ==> colon_text(parse_model::<N>(b)->Ok_0, b[2]) == lower_hex(b),
{
    if b.len() == dot_len(N as nat) {
        lemma_dot_first_error_none::<N>(b, 0);
        if in_dot_layout::<N>(b) {
            assert forall|g: int| 0 <= g < N / 2 implies #[trigger] dot_group_error::<N>(b, g) is None by {
                if g < N / 2 - 1 {
                    assert(b[5 * g + 4] == DOT);
                }
            }
        }
        if parse_model::<N>(b) is Ok {
            assert forall|g: int| 0 <= g < N / 2 implies is_hex_digit(#[trigger] b[5 * g])
                && is_hex_digit(b[5 * g + 1]) && is_hex_digit(b[5 * g + 2]) && is_hex_digit(
                b[5 * g + 3],
            ) by {
                assert(dot_group_error::<N>(b, g) is None);
            }
            assert forall|g: int| 0 <= g < N / 2 - 1 implies #[trigger] b[5 * g + 4] == DOT by {
                assert(dot_group_error::<N>(b, g) is None);
            }
        }
    } else if b.len() == colon_len(N as nat) && is_octet_separator(b[2]) {
        lemma_colon_first_error_none::<N>(b, b[2], 0);
        if in_colon_layout::<N>(b) {
            assert forall|i: int| 0 <= i < N implies #[trigger] colon_group_error::<N>(b, b[2], i) is None by {
                if i < N - 1 {
                    assert(b[3 * i + 2] == b[2]);
                }
            }
        }
        if parse_model::<N>(b) is Ok {
            assert forall|i: int| 0 <= i < N implies is_hex_digit(#[trigger] b[3 * i])
                && is_hex_digit(b[3 * i + 1]) by {
                assert(colon_group_error::<N>(b, b[2], i) is None);
            }
            assert forall|i: int| 0 <= i < N - 1 implies #[trigger] b[3 * i + 2] == b[2] by {
                assert(colon_group_error::<N>(b, b[2], i) is None);
            }
        }
    }
    let l = lower_hex(b);
    assert(same_but_hex_case(b, l));
    assert(no_upper_hex(l));
    if parse_model::<N>(b) is Ok {
        lemma_case_insensitive::<N>(b, l);
        lemma_parse_then_format::<N>(l);
    }
}

} // verus!
