//! The text notations: their lengths, what parsing a text gives, and the parser.

use vstd::prelude::*;
use vstd::string::StringSliceAdditionalSpecFns;

use crate::hex::{decode_pair, hex_pair_value, is_hex_digit};

verus! {

/// The `.` between groups in dot notation.
pub const DOT: u8 = 0x2e;

/// The `:` between octets in colon notation.
pub const COLON: u8 = 0x3a;

/// The `-` between octets in hyphen notation.
pub const HYPHEN: u8 = 0x2d;

/// An error met while parsing the text of an address of `N` bytes.
#[derive(Debug, Clone, Copy, PartialEq, Eq)]
pub enum ParseError<const N: usize> {
    /// The text has a length that fits neither notation; it holds that length.
    InvalidLength(usize),
    /// A separator differs from the one that the notation or the text set.
    UnexpectedSeparator {
        /// The separator that was due.
        expected: u8,
        /// The byte that stood there.
        actual: u8,
    },
    /// In colon or hyphen notation, the first separator is neither `:` nor `-`.
    InvalidSeparator(u8),
    /// Two bytes that should be hex digits are not both hex digits.
    InvalidHexDigit([u8; 2]),
}

/// The widths that the notations are defined for: even, at least two, and
/// small enough that the text lengths fit in `usize`.
pub open spec fn valid_width(n: nat) -> bool {
    2 <= n && n % 2 == 0 && 3 * n <= usize::MAX
}

/// Length of the colon and hyphen notation of `n` bytes: `3n - 1`.
pub open spec fn colon_len(n: nat) -> int {
    3 * n - 1
}

/// Length of the dot notation of `n` bytes: `n / 2` groups of four digits and
/// `n / 2 - 1` dots.
pub open spec fn dot_len(n: nat) -> int {
    2 * n + (n / 2 - 1)
}

/// The separators that may open colon or hyphen notation.
pub open spec fn is_octet_separator(c: u8) -> bool {
    c == COLON || c == HYPHEN
}

/// The error of dot group `g` (characters `5g .. 5g + 4` and the dot after
/// them), checked left to right: first pair of digits, second pair, dot.
pub open spec fn dot_group_error<const N: usize>(b: Seq<u8>, g: int) -> Option<ParseError<N>> {
    let x = 5 * g;
    if !(is_hex_digit(b[x]) && is_hex_digit(b[x + 1])) {
        Some(ParseError::InvalidHexDigit([b[x], b[x + 1]]))
    } else if !(is_hex_digit(b[x + 2]) && is_hex_digit(b[x + 3])) {
        Some(ParseError::InvalidHexDigit([b[x + 2], b[x + 3]]))
    } else if x + 4 != b.len() && b[x + 4] != DOT {
        Some(ParseError::UnexpectedSeparator { expected: DOT, actual: b[x + 4] })
    } else {
        None
    }
}

/// The first error among dot groups `g ..`.
pub open spec fn dot_first_error<const N: usize>(b: Seq<u8>, g: int) -> Option<ParseError<N>>
    decreases N / 2 - g,
{
    if g < 0 || g >= N / 2 {
        None
    } else {
        match dot_group_error::<N>(b, g) {
            Some(e) => Some(e),
            None => dot_first_error::<N>(b, g + 1),
        }
    }
}

/// Position of the high digit of octet `i` in dot notation.
pub open spec fn dot_pos(i: int) -> int {
    2 * i + i / 2
}

/// The octets that dot notation `b` writes.
pub open spec fn dot_octets(b: Seq<u8>, n: nat) -> Seq<u8> {
    Seq::new(n, |i: int| hex_pair_value(b[dot_pos(i)], b[dot_pos(i) + 1]))
}

/// The error of octet `i` in colon or hyphen notation with separator `sep`:
/// its two digits are checked first, then the separator after them.
pub open spec fn colon_group_error<const N: usize>(b: Seq<u8>, sep: u8, i: int) -> Option<
    ParseError<N>,
> {
    let x = 3 * i;
    if !(is_hex_digit(b[x]) && is_hex_digit(b[x + 1])) {
        Some(ParseError::InvalidHexDigit([b[x], b[x + 1]]))
    } else if x + 2 != b.len() && b[x + 2] != sep {
        Some(ParseError::UnexpectedSeparator { expected: sep, actual: b[x + 2] })
    } else {
        None
    }
}

/// The first error among octets `i ..` in colon or hyphen notation.
pub open spec fn colon_first_error<const N: usize>(b: Seq<u8>, sep: u8, i: int) -> Option<
    ParseError<N>,
>
    decreases N - i,
{
    if i < 0 || i >= N {
        None
    } else {
        match colon_group_error::<N>(b, sep, i) {
            Some(e) => Some(e),
            None => colon_first_error::<N>(b, sep, i + 1),
        }
    }
}

/// The octets that colon or hyphen notation `b` writes.
pub open spec fn colon_octets(b: Seq<u8>, n: nat) -> Seq<u8> {
    Seq::new(n, |i: int| hex_pair_value(b[3 * i], b[3 * i + 1]))
}

/// What parsing the bytes `b` as an address of `N` bytes gives: the layout is
/// chosen by length alone, and the first fault in a left-to-right scan is the
/// error.
pub open spec fn parse_model<const N: usize>(b: Seq<u8>) -> Result<Seq<u8>, ParseError<N>> {
    if b.len() == dot_len(N as nat) {
        match dot_first_error::<N>(b, 0) {
            Some(e) => Err(e),
            None => Ok(dot_octets(b, N as nat)),
        }
    } else if b.len() == colon_len(N as nat) {
        if !is_octet_separator(b[2]) {
            Err(ParseError::InvalidSeparator(b[2]))
        } else {
            match colon_first_error::<N>(b, b[2], 0) {
                Some(e) => Err(e),
                None => Ok(colon_octets(b, N as nat)),
            }
        }
    } else {
        Err(ParseError::InvalidLength(b.len() as usize))
    }
}


impl<const N: usize> ParseError<N> {
    /// The error for text of length `len`.
    pub fn invalid_length(len: usize) -> (r: Self)
        ensures
            r == ParseError::<N>::InvalidLength(len),
    {
        ParseError::InvalidLength(len)
    }

    /// The error for `actual` standing where the separator `expected` was due.
    pub fn unexpected_separator(expected: u8, actual: u8) -> (r: Self)
        ensures
            r == (ParseError::<N>::UnexpectedSeparator { expected, actual }),
    {
        ParseError::UnexpectedSeparator { expected, actual }
    }

    /// The error for `sep` opening colon or hyphen notation.
    pub fn invalid_separator(sep: u8) -> (r: Self)
        ensures
            r == ParseError::<N>::InvalidSeparator(sep),
    {
        ParseError::InvalidSeparator(sep)
    }

    /// The error for the two bytes `digit` that are not both hex digits.
    pub fn invalid_hex_digit(digit: [u8; 2]) -> (r: Self)
        ensures
            r == ParseError::<N>::InvalidHexDigit(digit),
    {
        ParseError::InvalidHexDigit(digit)
    }
}

/// Length of the dot notation of an address of `N` bytes.
pub fn dot_seperated_format_len<const N: usize>() -> (r: usize)
    requires
        valid_width(N as nat),
    ensures
        r == dot_len(N as nat),
{
    N * 2 + (N / 2 - 1)
}

/// Length of the colon and hyphen notation of an address of `N` bytes.
pub fn colon_seperated_format_len<const N: usize>() -> (r: usize)
    requires
        valid_width(N as nat),
    ensures
        r == colon_len(N as nat),
{
    N * 3 - 1
}

/// Parses `src` as an address of `N` bytes in colon (`02:00:5e:10:00:00:00:01`),
/// hyphen (`02-00-5e-10-00-00-00-01`) or dot (`0200.5e10.0000.0001`) notation.
pub fn parse<const N: usize>(src: &str) -> (r: Result<[u8; N], ParseError<N>>)
    requires
        valid_width(N as nat),
    ensures
        match r {
            Ok(a) => parse_model::<N>(src.spec_bytes()) == Ok::<Seq<u8>, ParseError<N>>(a@),
            Err(e) => parse_model::<N>(src.spec_bytes()) == Err::<Seq<u8>, ParseError<N>>(e),
        },
{
    let dot_seperated_len = dot_seperated_format_len::<N>();
    let colon_seperated_len = colon_seperated_format_len::<N>();
    let bytes = src.as_bytes();
    let len = bytes.len();
    let ghost b = bytes@;
    if len == dot_seperated_len {
        let mut hw = [0u8; N];
        let mut i: usize = 0;
        let mut x: usize = 0;
        while i < N
            invariant
                b == bytes@,
                b == src.spec_bytes(),
                b.len() == len == dot_len(N as nat),
                valid_width(N as nat),
                i % 2 == 0,
                i <= N,
                x == 5 * (i / 2),
                dot_first_error::<N>(b, 0) == dot_first_error::<N>(b, (i / 2) as int),
                forall|j: int| 0 <= j < i ==> hw@[j] == #[trigger] dot_octets(b, N as nat)[j],
            decreases N - i,
        {
            let ghost g = (i / 2) as int;
            assert(0 <= g < N / 2);
            assert(dot_first_error::<N>(b, g) == match dot_group_error::<N>(b, g) {
                Some(e) => Some(e),
                None => dot_first_error::<N>(b, g + 1),
            });
            assert(5 * g == x);
            match decode_pair(bytes[x], bytes[x + 1]) {
                Some(byte) => hw[i] = byte,
                None => return Err(ParseError::invalid_hex_digit([bytes[x], bytes[x + 1]])),
            }
            match decode_pair(bytes[x + 2], bytes[x + 3]) {
                Some(byte) => hw[i + 1] = byte,
                None => return Err(ParseError::invalid_hex_digit([bytes[x + 2], bytes[x + 3]])),
            }
            if x + 4 != len && bytes[x + 4] != DOT {
                return Err(ParseError::unexpected_separator(DOT, bytes[x + 4]));
            }
            assert(dot_pos(i as int) == x);
            assert(dot_pos(i + 1) == x + 2);
            i += 2;
            x += 5;
        }
        assert(hw@ =~= dot_octets(b, N as nat));
        Ok(hw)
    } else if len == colon_seperated_len {
        let mut hw = [0u8; N];
        let mut x: usize = 0;
        let sep = bytes[2];
        if !(sep == COLON || sep == HYPHEN) {
            return Err(ParseError::invalid_separator(sep));
        }
        let mut i: usize = 0;
        while i < N
            invariant
                b == bytes@,
                b == src.spec_bytes(),
                b.len() == len == colon_len(N as nat),
                valid_width(N as nat),
                sep == b[2],
                is_octet_separator(sep),
                b.len() != dot_len(N as nat),
                i <= N,
                x == 3 * i,
                colon_first_error::<N>(b, sep, 0) == colon_first_error::<N>(b, sep, i as int),
                forall|j: int| 0 <= j < i ==> hw@[j] == #[trigger] colon_octets(b, N as nat)[j],
            decreases N - i,
        {
            assert(colon_first_error::<N>(b, sep, i as int) == match colon_group_error::<N>(
                b,
                sep,
                i as int,
            ) {
                Some(e) => Some(e),
                None => colon_first_error::<N>(b, sep, i + 1),
            });
            match decode_pair(bytes[x], bytes[x + 1]) {
                Some(byte) => hw[i] = byte,
                None => return Err(ParseError::invalid_hex_digit([bytes[x], bytes[x + 1]])),
            }
            if x + 2 != len {
                let csep = bytes[x + 2];
                if csep != sep {
                    return Err(ParseError::unexpected_separator(sep, csep));
                }
            }
            i += 1;
            x += 3;
        }
        assert(hw@ =~= colon_octets(b, N as nat));
        Ok(hw)
    } else {
        Err(ParseError::invalid_length(len))
    }
}


/// What parsing `b` gives where only colon notation is taken: the canonical
/// text form of an address. Dot-notation lengths are refused as lengths, and a
/// leading `-` as a separator; the rest is as in [`parse_model`].
pub open spec fn parse_colon_model<const N: usize>(b: Seq<u8>) -> Result<Seq<u8>, ParseError<N>> {
    if b.len() == dot_len(N as nat) {
        Err(ParseError::InvalidLength(b.len() as usize))
    } else if b.len() == colon_len(N as nat) && b[2] == HYPHEN {
        Err(ParseError::InvalidSeparator(HYPHEN))
    } else {
        parse_model::<N>(b)
    }
}

/// Parses `src` as an address of `N` bytes in colon notation only.
pub fn parse_colon_separated<const N: usize>(src: &str) -> (r: Result<[u8; N], ParseError<N>>)
    requires
        valid_width(N as nat),
    ensures
        match r {
            Ok(a) => parse_colon_model::<N>(src.spec_bytes()) == Ok::<Seq<u8>, ParseError<N>>(
                a@,
            ),
            Err(e) => parse_colon_model::<N>(src.spec_bytes()) == Err::<Seq<u8>, ParseError<N>>(
                e,
            ),
        },
{
    let bytes = src.as_bytes();
    let len = bytes.len();
    if len == dot_seperated_format_len::<N>() {
        Err(ParseError::invalid_length(len))
    } else if len == colon_seperated_format_len::<N>() && bytes[2] == HYPHEN {
        Err(ParseError::invalid_separator(HYPHEN))
    } else {
        parse::<N>(src)
    }
}

} // verus!
