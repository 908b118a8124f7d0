use std::collections::hash_map::DefaultHasher;
use std::hash::{Hash, Hasher};

use hardware_address::{parse, parse_colon_separated, Eui64Addr, InfiniBandAddr, MacAddr, ParseError};

const RFC7042_EUI64: [u8; 8] = [0x02, 0x00, 0x5e, 0x10, 0x00, 0x00, 0x00, 0x01];

#[test]
fn colon_input_and_display_round_trip() {
    let addr = Eui64Addr::parse_str("02:00:5e:10:00:00:00:01").unwrap();
    assert_eq!(addr.octets(), RFC7042_EUI64);
    assert_eq!(addr.to_string(), "02:00:5e:10:00:00:00:01");
    assert_eq!(&addr.to_colon_seperated_array()[..], b"02:00:5e:10:00:00:00:01");
}

#[test]
fn hyphen_input_gives_same_octets() {
    let addr = Eui64Addr::parse_str("02-00-5e-10-00-00-00-01").unwrap();
    assert_eq!(addr.octets(), RFC7042_EUI64);
    assert_eq!(&addr.to_hyphen_seperated_array()[..], b"02-00-5e-10-00-00-00-01");
}

#[test]
fn dot_input_gives_same_octets() {
    let addr = Eui64Addr::parse_str("0200.5e10.0000.0001").unwrap();
    assert_eq!(addr.octets(), RFC7042_EUI64);
    assert_eq!(&addr.to_dot_seperated_array()[..], b"0200.5e10.0000.0001");
}

#[test]
fn hyphen_where_dot_is_due() {
    assert_eq!(
        Eui64Addr::parse_str("0200-5e10.0000.0001"),
        Err(ParseError::UnexpectedSeparator { expected: b'.', actual: b'-' })
    );
}

#[test]
fn non_hex_first_pair_in_dot_notation() {
    assert_eq!(
        Eui64Addr::parse_str("xx00.5e10.0000.0001"),
        Err(ParseError::InvalidHexDigit([b'x', b'x']))
    );
}

#[test]
fn lengths_that_fit_no_notation() {
    assert_eq!(Eui64Addr::parse_str(""), Err(ParseError::InvalidLength(0)));
    assert_eq!(
        Eui64Addr::parse_str("02:00:5e:10:00:00:00:0"),
        Err(ParseError::InvalidLength(22))
    );
    let twenty_one = "0".repeat(21);
    assert_eq!(Eui64Addr::parse_str(&twenty_one), Err(ParseError::InvalidLength(21)));
    assert_eq!(
        Eui64Addr::parse_str("02:00:5e:10:00:00:00:01:"),
        Err(ParseError::InvalidLength(24))
    );
}

#[test]
fn invalid_first_separator() {
    assert_eq!(
        Eui64Addr::parse_str("02.00.5e.10.00.00.00.01"),
        Err(ParseError::InvalidSeparator(b'.'))
    );
    assert_eq!(
        Eui64Addr::parse_str("02x00x5ex10x00x00x00x01"),
        Err(ParseError::InvalidSeparator(b'x'))
    );
}

#[test]
fn mixed_separators() {
    assert_eq!(
        Eui64Addr::parse_str("02:00-5e:10:00:00:00:01"),
        Err(ParseError::UnexpectedSeparator { expected: b':', actual: b'-' })
    );
    assert_eq!(
        Eui64Addr::parse_str("02-00-5e-10-00-00-00:01"),
        Err(ParseError::UnexpectedSeparator { expected: b'-', actual: b':' })
    );
    assert_eq!(
        Eui64Addr::parse_str("0200.5e10.0000-0001"),
        Err(ParseError::UnexpectedSeparator { expected: b'.', actual: b'-' })
    );
}

#[test]
fn invalid_hex_digits_name_their_pair() {
    assert_eq!(
        Eui64Addr::parse_str("02:00:5e:1g:00:00:00:01"),
        Err(ParseError::InvalidHexDigit([b'1', b'g']))
    );
    assert_eq!(
        Eui64Addr::parse_str("0200.5e10.0000.00z1"),
        Err(ParseError::InvalidHexDigit([b'z', b'1']))
    );
    assert_eq!(
        Eui64Addr::parse_str("0200.5e10.0000.0 01"),
        Err(ParseError::InvalidHexDigit([b'0', b' ']))
    );
}

#[test]
fn first_fault_wins() {
    // an octet's digits come before the separator after them
    assert_eq!(
        Eui64Addr::parse_str("00-zz:5e:10:00:00:00:01"),
        Err(ParseError::InvalidHexDigit([b'z', b'z']))
    );
    assert_eq!(
        Eui64Addr::parse_str("00:zz-5e:10:00:00:00:01"),
        Err(ParseError::InvalidHexDigit([b'z', b'z']))
    );
    assert_eq!(
        Eui64Addr::parse_str("zz00-5e10.0000.0001"),
        Err(ParseError::InvalidHexDigit([b'z', b'z']))
    );
    assert_eq!(
        Eui64Addr::parse_str("02zz-5e10.0000.0001"),
        Err(ParseError::InvalidHexDigit([b'z', b'z']))
    );
    assert_eq!(
        Eui64Addr::parse_str("0200-5e1z.0000.0001"),
        Err(ParseError::UnexpectedSeparator { expected: b'.', actual: b'-' })
    );
    assert_eq!(
        Eui64Addr::parse_str("zz:00:5e:10:00:00:00:0y"),
        Err(ParseError::InvalidHexDigit([b'z', b'z']))
    );
}

#[test]
fn upper_and_lower_case_parse_alike() {
    let upper = Eui64Addr::parse_str("AB:CD:EF:01:23:45:67:89").unwrap();
    let lower = Eui64Addr::parse_str("ab:cd:ef:01:23:45:67:89").unwrap();
    assert_eq!(upper, lower);
    assert_eq!(upper.octets()[0], 0xab);
    let dot = Eui64Addr::parse_str("ABcd.EF01.2345.6789").unwrap();
    assert_eq!(dot, lower);
}

#[test]
fn format_then_parse_round_trip() {
    let addr = Eui64Addr::new([0xff, 0x0a, 0x90, 0x00, 0x7b, 0xc4, 0x1f, 0xe0]);
    let colon = addr.to_colon_seperated_array();
    let hyphen = addr.to_hyphen_seperated_array();
    let dot = addr.to_dot_seperated_array();
    assert_eq!(&colon[..], b"ff:0a:90:00:7b:c4:1f:e0");
    assert_eq!(&dot[..], b"ff0a.9000.7bc4.1fe0");
    for text in [&colon[..], &hyphen[..], &dot[..]] {
        let s = core::str::from_utf8(text).unwrap();
        assert_eq!(Eui64Addr::parse_str(s), Ok(addr));
    }
}

#[test]
fn equality_and_ordering_follow_the_octets() {
    let a = Eui64Addr::new([0, 0, 0, 0, 0, 0, 0, 1]);
    let b = Eui64Addr::new([0, 0, 0, 0, 0, 0, 0, 2]);
    let c = Eui64Addr::new([1, 0, 0, 0, 0, 0, 0, 0]);
    assert_eq!(a, Eui64Addr::new([0, 0, 0, 0, 0, 0, 0, 1]));
    assert_ne!(a, b);
    assert!(a < b && b < c && a < c);
    assert_eq!(a.partial_cmp(&b), Some(core::cmp::Ordering::Less));
    assert_eq!(c.cmp(&b), core::cmp::Ordering::Greater);
    assert_eq!(a.cmp(&a), core::cmp::Ordering::Equal);
    let mut h1 = DefaultHasher::new();
    let mut h2 = DefaultHasher::new();
    a.hash(&mut h1);
    Eui64Addr::new(a.octets()).hash(&mut h2);
    assert_eq!(h1.finish(), h2.finish());
}

#[test]
fn mac_addresses() {
    let addr = MacAddr::parse_str("00:00:5e:00:53:01").unwrap();
    assert_eq!(addr.octets(), [0x00, 0x00, 0x5e, 0x00, 0x53, 0x01]);
    assert_eq!(MacAddr::parse_str("00-00-5e-00-53-01"), Ok(addr));
    assert_eq!(MacAddr::parse_str("0000.5e00.5301"), Ok(addr));
    assert_eq!(addr.to_string(), "00:00:5e:00:53:01");
    assert_eq!(&addr.to_hyphen_seperated_array()[..], b"00-00-5e-00-53-01");
    assert_eq!(&addr.to_dot_seperated_array()[..], b"0000.5e00.5301");
    assert_eq!(MacAddr::parse_str("0000.5e00.530"), Err(ParseError::InvalidLength(13)));
    assert_eq!(addr.as_bytes(), &[0x00, 0x00, 0x5e, 0x00, 0x53, 0x01]);
}

#[test]
fn infini_band_addresses() {
    let text = "00:00:00:00:fe:80:00:00:00:00:00:00:02:00:5e:10:00:00:00:01";
    let addr = InfiniBandAddr::parse_str(text).unwrap();
    let octets = [
        0x00, 0x00, 0x00, 0x00, 0xfe, 0x80, 0x00, 0x00, 0x00, 0x00, 0x00, 0x00, 0x02, 0x00, 0x5e,
        0x10, 0x00, 0x00, 0x00, 0x01,
    ];
    assert_eq!(addr.octets(), octets);
    assert_eq!(addr.to_string(), text);
    assert_eq!(
        &addr.to_dot_seperated_array()[..],
        b"0000.0000.fe80.0000.0000.0000.0200.5e10.0000.0001"
    );
    assert_eq!(
        InfiniBandAddr::parse_str("0000.0000.fe80.0000.0000.0000.0200.5e10.0000.0001"),
        Ok(addr)
    );
    assert_eq!(
        InfiniBandAddr::parse_str("00-00-00-00-fe-80-00-00-00-00-00-00-02-00-5e-10-00-00-00-01"),
        Ok(addr)
    );
}

#[test]
fn generic_parse_and_error_constructors() {
    assert_eq!(parse::<8>("02:00:5e:10:00:00:00:01"), Ok(RFC7042_EUI64));
    assert_eq!(parse::<2>("ab:cd"), Ok([0xab, 0xcd]));
    assert_eq!(parse::<2>("abcd"), Ok([0xab, 0xcd]));
    assert_eq!(parse::<2>("abc"), Err(ParseError::invalid_length(3)));
    assert_eq!(ParseError::<8>::invalid_length(3), ParseError::InvalidLength(3));
    assert_eq!(
        ParseError::<8>::unexpected_separator(b':', b'-'),
        ParseError::UnexpectedSeparator { expected: b':', actual: b'-' }
    );
    assert_eq!(ParseError::<8>::invalid_separator(b'x'), ParseError::InvalidSeparator(b'x'));
    assert_eq!(
        ParseError::<8>::invalid_hex_digit([b'x', b'y']),
        ParseError::InvalidHexDigit([b'x', b'y'])
    );
}

#[test]
fn non_ascii_input_is_measured_in_bytes() {
    // nineteen bytes, with a two-byte character in the first group
    assert_eq!(
        Eui64Addr::parse_str("é00.5e10.0000.0001"),
        Err(ParseError::InvalidHexDigit([0xc3, 0xa9]))
    );
    assert_eq!(
        parse::<8>("0\u{e9}0.5e10.0000.0001"),
        Err(ParseError::InvalidHexDigit([0x30, 0xc3]))
    );
}

#[test]
fn canonical_form_is_colon_only() {
    assert_eq!(parse_colon_separated::<8>("02:00:5e:10:00:00:00:01"), Ok(RFC7042_EUI64));
    assert_eq!(
        parse_colon_separated::<8>("02-00-5e-10-00-00-00-01"),
        Err(ParseError::InvalidSeparator(b'-'))
    );
    assert_eq!(
        parse_colon_separated::<8>("0200.5e10.0000.0001"),
        Err(ParseError::InvalidLength(19))
    );
    assert_eq!(
        parse_colon_separated::<8>("02:00:5e:10:00:00:00:0x"),
        Err(ParseError::InvalidHexDigit([b'0', b'x']))
    );
}

#[test]
fn conversions_from_and_to_octets() {
    let addr = Eui64Addr::from([2, 0, 94, 16, 0, 0, 0, 1]);
    assert_eq!(addr, Eui64Addr::parse_str("02:00:5e:10:00:00:00:01").unwrap());
    let octets: [u8; 8] = addr.into();
    assert_eq!(octets, addr.octets());
    let mac = MacAddr::from([0, 0, 0x5e, 0, 0x53, 1]);
    let mac_octets: [u8; 6] = mac.into();
    assert_eq!(mac_octets, [0, 0, 0x5e, 0, 0x53, 1]);
    let ib = InfiniBandAddr::from([7u8; 20]);
    let ib_octets: [u8; 20] = ib.into();
    assert_eq!(ib_octets, [7u8; 20]);
}
