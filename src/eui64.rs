use vstd::prelude::*;
use vstd::string::StringSliceAdditionalSpecFns;

use core::cmp::Ordering;

use crate::bytes::{ascii_chars, ascii_to_string, bytes_equal, compare_bytes, lex_cmp};
use crate::format::{colon_text, dot_array, dot_text, lemma_colon_text_ascii, separated_array};
use crate::parse::{parse, parse_model, ParseError, COLON, HYPHEN};

verus! {

/// The error met while parsing an [`Eui64Addr`].
pub type ParseEui64AddrError = ParseError<8>;

/// A physical EUI-64 address: eight octets.
#[derive(Clone, Copy, Debug, Eq, Ord, Hash)]
pub struct Eui64Addr([u8; 8]);

impl View for Eui64Addr {
    type V = Seq<u8>;

    closed spec fn view(&self) -> Seq<u8> {
        self.0@
    }
}

impl Eui64Addr {
    /// The address of the octets `addr`.
    pub fn new(addr: [u8; 8]) -> (r: Self)
        ensures
            r@ == addr@,
    {
        Eui64Addr(addr)
    }

    /// The octets, borrowed.
    pub fn as_bytes(&self) -> (r: &[u8])
        ensures
            r@ == self@,
    {
        self.0.as_slice()
    }

    /// The octets.
    pub fn octets(&self) -> (r: [u8; 8])
        ensures
            r@ == self@,
    {
        self.0
    }

    /// Colon notation, lowercase: `02:00:5e:10:00:00:00:01`.
    pub fn to_colon_seperated_array(&self) -> (r: [u8; 23])
        ensures
            r@ == colon_text(self@, COLON),
    {
        separated_array::<8, 23>(&self.0, COLON)
    }

    /// Hyphen notation, lowercase: `02-00-5e-10-00-00-00-01`.
    pub fn to_hyphen_seperated_array(&self) -> (r: [u8; 23])
        ensures
            r@ == colon_text(self@, HYPHEN),
    {
        separated_array::<8, 23>(&self.0, HYPHEN)
    }

    /// Dot notation, lowercase: `0200.5e10.0000.0001`.
    pub fn to_dot_seperated_array(&self) -> (r: [u8; 19])
        ensures
            r@ == dot_text(self@),
    {
        dot_array::<8, 19>(&self.0)
    }

    /// The display form: colon notation, lowercase.
    pub fn to_string(&self) -> (r: String)
        ensures
            r@ == ascii_chars(colon_text(self@, COLON)),
    {
        let buf = self.to_colon_seperated_array();
        proof {
            lemma_colon_text_ascii(self@, COLON);
        }
        ascii_to_string(buf.as_slice())
    }

    /// Parses `src` in colon, hyphen or dot notation.
    pub fn parse_str(src: &str) -> (r: Result<Self, ParseEui64AddrError>)
        ensures
            match r {
                Ok(a) => parse_model::<8>(src.spec_bytes()) == Ok::<Seq<u8>, ParseError<8>>(a@),
                Err(e) => parse_model::<8>(src.spec_bytes()) == Err::<Seq<u8>, ParseError<8>>(e),
            },
    {
        match parse::<8>(src) {
            Ok(a) => Ok(Eui64Addr(a)),
            Err(e) => Err(e),
        }
    }
}

/// Two addresses with the same octets are the same value, so they compare
/// equal and hash alike.
pub proof fn lemma_eui64_same_octets(a: Eui64Addr, b: Eui64Addr)
    requires
        a@ == b@,
    ensures
        a == b,
{
    assert(a.0 =~= b.0);
}

impl PartialEq for Eui64Addr {
    fn eq(&self, other: &Self) -> (r: bool) {
        bytes_equal(self.0.as_slice(), other.0.as_slice())
    }
}

impl vstd::std_specs::cmp::PartialEqSpecImpl for Eui64Addr {
    open spec fn obeys_eq_spec() -> bool {
        true
    }

    open spec fn eq_spec(&self, other: &Self) -> bool {
        self@ == other@
    }
}

impl PartialOrd for Eui64Addr {
    fn partial_cmp(&self, other: &Self) -> (r: Option<Ordering>) {
        Some(compare_bytes(self.0.as_slice(), other.0.as_slice()))
    }
}

impl vstd::std_specs::cmp::PartialOrdSpecImpl for Eui64Addr {
    open spec fn obeys_partial_cmp_spec() -> bool {
        true
    }

    open spec fn partial_cmp_spec(&self, other: &Self) -> Option<Ordering> {
        Some(lex_cmp(self@, other@))
    }
}

impl From<[u8; 8]> for Eui64Addr {
    fn from(addr: [u8; 8]) -> (r: Self) {
        Eui64Addr(addr)
    }
}

impl vstd::std_specs::convert::FromSpecImpl<[u8; 8]> for Eui64Addr {
    open spec fn obeys_from_spec() -> bool {
        true
    }

    closed spec fn from_spec(addr: [u8; 8]) -> Self {
        Eui64Addr(addr)
    }
}

impl From<Eui64Addr> for [u8; 8] {
    fn from(addr: Eui64Addr) -> (r: Self) {
        addr.0
    }
}

impl vstd::std_specs::convert::FromSpecImpl<Eui64Addr> for [u8; 8] {
    open spec fn obeys_from_spec() -> bool {
        true
    }

    closed spec fn from_spec(addr: Eui64Addr) -> Self {
        addr.0
    }
}

/// Converting octets to an address keeps them, and converting the address
/// back gives the same octets.
pub proof fn lemma_eui64_from_octets(addr: [u8; 8])
    ensures
        <Eui64Addr as vstd::std_specs::convert::FromSpec<[u8; 8]>>::from_spec(addr)@ == addr@,
        <[u8; 8] as vstd::std_specs::convert::FromSpec<Eui64Addr>>::from_spec(
            <Eui64Addr as vstd::std_specs::convert::FromSpec<[u8; 8]>>::from_spec(addr),
        ) == addr,
{
}

impl core::str::FromStr for Eui64Addr {
    type Err = ParseEui64AddrError;

    fn from_str(src: &str) -> Result<Self, Self::Err> {
        Eui64Addr::parse_str(src)
    }
}

} // verus!
