use vstd::prelude::*;
use vstd::string::StringSliceAdditionalSpecFns;

use core::cmp::Ordering;

use crate::bytes::{ascii_chars, ascii_to_string, bytes_equal, compare_bytes, lex_cmp};
use crate::format::{colon_text, dot_array, dot_text, lemma_colon_text_ascii, separated_array};
use crate::parse::{parse, parse_model, ParseError, COLON, HYPHEN};

verus! {

/// The error met while parsing an [`InfiniBandAddr`].
pub type ParseInfiniBandAddrError = ParseError<20>;

/// A 20-octet IP over InfiniBand link-layer address.
#[derive(Clone, Copy, Debug, Eq, Ord, Hash)]
pub struct InfiniBandAddr([u8; 20]);

impl View for InfiniBandAddr {
    type V = Seq<u8>;

    closed spec fn view(&self) -> Seq<u8> {
        self.0@
    }
}

impl InfiniBandAddr {
    /// The address of the octets `addr`.
    pub fn new(addr: [u8; 20]) -> (r: Self)
        ensures
            r@ == addr@,
    {
        InfiniBandAddr(addr)
    }

    /// The octets, borrowed.
    pub fn as_bytes(&self) -> (r: &[u8])
        ensures
            r@ == self@,
    {
        self.0.as_slice()
    }

    /// The octets.
    pub fn octets(&self) -> (r: [u8; 20])
        ensures
            r@ == self@,
    {
        self.0
    }

    /// Colon notation, lowercase: `00:00:00:00:fe:80:00:00:00:00:00:00:02:00:5e:10:00:00:00:01`.
    pub fn to_colon_seperated_array(&self) -> (r: [u8; 59])
        ensures
            r@ == colon_text(self@, COLON),
    {
        separated_array::<20, 59>(&self.0, COLON)
    }

    /// Hyphen notation, lowercase: `00-00-00-00-fe-80-00-00-00-00-00-00-02-00-5e-10-00-00-00-01`.
    pub fn to_hyphen_seperated_array(&self) -> (r: [u8; 59])
        ensures
            r@ == colon_text(self@, HYPHEN),
    {
        separated_array::<20, 59>(&self.0, HYPHEN)
    }

    /// Dot notation, lowercase: `0000.0000.fe80.0000.0000.0000.0200.5e10.0000.0001`.
    pub fn to_dot_seperated_array(&self) -> (r: [u8; 49])
        ensures
            r@ == dot_text(self@),
    {
        dot_array::<20, 49>(&self.0)
    }

    /// The display form: colon notation, lowercase.
    pub fn to_string(&self) -> (r: String)
        ensures
            r@ == ascii_chars(colon_text(self@, COLON)),
    {
        let buf = self.to_colon_seperated_array();
        proof {
            lemma_colon_text_ascii(self@, COLON);
        }
        ascii_to_string(buf.as_slice())
    }

    /// Parses `src` in colon, hyphen or dot notation.
    pub fn parse_str(src: &str) -> (r: Result<Self, ParseInfiniBandAddrError>)
        ensures
            match r {
                Ok(a) => parse_model::<20>(src.spec_bytes()) == Ok::<Seq<u8>, ParseError<20>>(a@),
                Err(e) => parse_model::<20>(src.spec_bytes()) == Err::<Seq<u8>, ParseError<20>>(e),
            },
    {
        match parse::<20>(src) {
            Ok(a) => Ok(InfiniBandAddr(a)),
            Err(e) => Err(e),
        }
    }
}

/// Two addresses with the same octets are the same value, so they compare
/// equal and hash alike.
pub proof fn lemma_infini_band_same_octets(a: InfiniBandAddr, b: InfiniBandAddr)
    requires
        a@ == b@,
    ensures
        a == b,
{
    assert(a.0 =~= b.0);
}

impl PartialEq for InfiniBandAddr {
    fn eq(&self, other: &Self) -> (r: bool) {
        bytes_equal(self.0.as_slice(), other.0.as_slice())
    }
}

impl vstd::std_specs::cmp::PartialEqSpecImpl for InfiniBandAddr {
    open spec fn obeys_eq_spec() -> bool {
        true
    }

    open spec fn eq_spec(&self, other: &Self) -> bool {
        self@ == other@
    }
}

impl PartialOrd for InfiniBandAddr {
    fn partial_cmp(&self, other: &Self) -> (r: Option<Ordering>) {
        Some(compare_bytes(self.0.as_slice(), other.0.as_slice()))
    }
}

impl vstd::std_specs::cmp::PartialOrdSpecImpl for InfiniBandAddr {
    open spec fn obeys_partial_cmp_spec() -> bool {
        true
    }

    open spec fn partial_cmp_spec(&self, other: &Self) -> Option<Ordering> {
        Some(lex_cmp(self@, other@))
    }
}

impl From<[u8; 20]> for InfiniBandAddr {
    fn from(addr: [u8; 20]) -> (r: Self) {
        InfiniBandAddr(addr)
    }
}

impl vstd::std_specs::convert::FromSpecImpl<[u8; 20]> for InfiniBandAddr {
    open spec fn obeys_from_spec() -> bool {
        true
    }

    closed spec fn from_spec(addr: [u8; 20]) -> Self {
        InfiniBandAddr(addr)
    }
}

impl From<InfiniBandAddr> for [u8; 20] {
    fn from(addr: InfiniBandAddr) -> (r: Self) {
        addr.0
    }
}

impl vstd::std_specs::convert::FromSpecImpl<InfiniBandAddr> for [u8; 20] {
    open spec fn obeys_from_spec() -> bool {
        true
    }

    closed spec fn from_spec(addr: InfiniBandAddr) -> Self {
        addr.0
    }
}

/// Converting octets to an address keeps them, and converting the address
/// back gives the same octets.
pub proof fn lemma_infini_band_from_octets(addr: [u8; 20])
    ensures
        <InfiniBandAddr as vstd::std_specs::convert::FromSpec<[u8; 20]>>::from_spec(addr)@ == addr@,
        <[u8; 20] as vstd::std_specs::convert::FromSpec<InfiniBandAddr>>::from_spec(
            <InfiniBandAddr as vstd::std_specs::convert::FromSpec<[u8; 20]>>::from_spec(addr),
        ) == addr,
{
}

impl core::str::FromStr for InfiniBandAddr {
    type Err = ParseInfiniBandAddrError;

    fn from_str(src: &str) -> Result<Self, Self::Err> {
        InfiniBandAddr::parse_str(src)
    }
}

} // verus!
