//! Parsing and formatting of fixed-width hardware link-layer addresses:
//! 6-byte MAC (EUI-48), 8-byte EUI-64 and 20-byte InfiniBand addresses, in
//! colon, hyphen and dot ("Cisco") notation.

pub mod bytes;
mod eui64;
pub mod format;
pub mod hex;
mod infini_band;
pub mod laws;
mod mac;
pub mod parse;

pub use eui64::{Eui64Addr, ParseEui64AddrError};
pub use hex::{xtoi, xtoi2};
pub use infini_band::{InfiniBandAddr, ParseInfiniBandAddrError};
pub use mac::{MacAddr, ParseMacAddrError};
pub use parse::{parse, parse_colon_separated, ParseError};
