use vstd::prelude::*;
use vstd::string::StringSliceAdditionalSpecFns;

use core::cmp::Ordering;

use crate::bytes::{ascii_chars, ascii_to_string, bytes_equal, compare_bytes, lex_cmp};
use crate::format::{colon_text, dot_array, dot_text, lemma_colon_text_ascii, separated_array};
use crate::parse::{parse, parse_model, ParseError, COLON, HYPHEN};

verus! {

/// The error met while parsing a [`MacAddr`].
pub type ParseMacAddrError = ParseError<6>;

/// A physical MAC (EUI-48) address: six octets.
#[derive(Clone, Copy, Debug, Eq, Ord, Hash)]
pub struct MacAddr([u8; 6]);

impl View for MacAddr {
    type V = Seq<u8>;

    closed spec fn view(&self) -> Seq<u8> {
        self.0@
    }
}

impl MacAddr {
    /// The address of the octets `addr`.
    pub fn new(addr: [u8; 6]) -> (r: Self)
        ensures
            r@ == addr@,
    {
        MacAddr(addr)
    }

    /// The octets, borrowed.
    pub fn as_bytes(&self) -> (r: &[u8])
        ensures
            r@ == self@,
    {
        self.0.as_slice()
    }

    /// The octets.
    pub fn octets(&self) -> (r: [u8; 6])
        ensures
            r@ == self@,
    {
        self.0
    }

    /// Colon notation, lowercase: `00:00:5e:00:53:01`.
    pub fn to_colon_seperated_array(&self) -> (r: [u8; 17])
        ensures
            r@ == colon_text(self@, COLON),
    {
        separated_array::<6, 17>(&self.0, COLON)
    }

    /// Hyphen notation, lowercase: `00-00-5e-00-53-01`.
    pub fn to_hyphen_seperated_array(&self) -> (r: [u8; 17])
        ensures
            r@ == colon_text(self@, HYPHEN),
    {
        separated_array::<6, 17>(&self.0, HYPHEN)
    }

    /// Dot notation, lowercase: `0000.5e00.5301`.
    pub fn to_dot_seperated_array(&self) -> (r: [u8; 14])
        ensures
            r@ == dot_text(self@),
    {
        dot_array::<6, 14>(&self.0)
    }

    /// The display form: colon notation, lowercase.
    pub fn to_string(&self) -> (r: String)
        ensures
            r@ == ascii_chars(colon_text(self@, COLON)),
    {
        let buf = self.to_colon_seperated_array();
        proof {
            lemma_colon_text_ascii(self@, COLON);
        }
        ascii_to_string(buf.as_slice())
    }

    /// Parses `src` in colon, hyphen or dot notation.
    pub fn parse_str(src: &str) -> (r: Result<Self, ParseMacAddrError>)
        ensures
            match r {
                Ok(a) => parse_model::<6>(src.spec_bytes()) == Ok::<Seq<u8>, ParseError<6>>(a@),
                Err(e) => parse_model::<6>(src.spec_bytes()) == Err::<Seq<u8>, ParseError<6>>(e),
            },
    {
        match parse::<6>(src) {
            Ok(a) => Ok(MacAddr(a)),
            Err(e) => Err(e),
        }
    }
}

/// Two addresses with the same octets are the same value, so they compare
/// equal and hash alike.
pub proof fn lemma_mac_same_octets(a: MacAddr, b: MacAddr)
    requires
        a@ == b@,
    ensures
        a == b,
{
    assert(a.0 =~= b.0);
}

impl PartialEq for MacAddr {
    fn eq(&self, other: &Self) -> (r: bool) {
        bytes_equal(self.0.as_slice(), other.0.as_slice())
    }
}

impl vstd::std_specs::cmp::PartialEqSpecImpl for MacAddr {
    open spec fn obeys_eq_spec() -> bool {
        true
    }

    open spec fn eq_spec(&self, other: &Self) -> bool {
        self@ == other@
    }
}

impl PartialOrd for MacAddr {
    fn partial_cmp(&self, other: &Self) -> (r: Option<Ordering>) {
        Some(compare_bytes(self.0.as_slice(), other.0.as_slice()))
    }
}

impl vstd::std_specs::cmp::PartialOrdSpecImpl for MacAddr {
    open spec fn obeys_partial_cmp_spec() -> bool {
        true
    }

    open spec fn partial_cmp_spec(&self, other: &Self) -> Option<Ordering> {
        Some(lex_cmp(self@, other@))
    }
}

impl From<[u8; 6]> for MacAddr {
    fn from(addr: [u8; 6]) -> (r: Self) {
        MacAddr(addr)
    }
}

impl vstd::std_specs::convert::FromSpecImpl<[u8; 6]> for MacAddr {
    open spec fn obeys_from_spec() -> bool {
        true
    }

    closed spec fn from_spec(addr: [u8; 6]) -> Self {
        MacAddr(addr)
    }
}

impl From<MacAddr> for [u8; 6] {
    fn from(addr: MacAddr) -> (r: Self) {
        addr.0
    }
}

impl vstd::std_specs::convert::FromSpecImpl<MacAddr> for [u8; 6] {
    open spec fn obeys_from_spec() -> bool {
        true
    }

    closed spec fn from_spec(addr: MacAddr) -> Self {
        addr.0
    }
}

/// Converting octets to an address keeps them, and converting the address
/// back gives the same octets.
pub proof fn lemma_mac_from_octets(addr: [u8; 6])
    ensures
        <MacAddr as vstd::std_specs::convert::FromSpec<[u8; 6]>>::from_spec(addr)@ == addr@,
        <[u8; 6] as vstd::std_specs::convert::FromSpec<MacAddr>>::from_spec(
            <MacAddr as vstd::std_specs::convert::FromSpec<[u8; 6]>>::from_spec(addr),
        ) == addr,
{
}

impl core::str::FromStr for MacAddr {
    type Err = ParseMacAddrError;

    fn from_str(src: &str) -> Result<Self, Self::Err> {
        MacAddr::parse_str(src)
    }
}

} // verus!
