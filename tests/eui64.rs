use hardware_address::{Eui64Addr, ParseError};

struct TestCase {
    input: &'static str,
    output: Option<Vec<u8>>,
    err: Option<ParseError<8>>,
}

fn test_cases() -> Vec<TestCase> {
    vec![
        // RFC 7042, Section 2.2.2
        TestCase {
            input: "02:00:5e:10:00:00:00:01",
            output: Some(vec![0x02, 0x00, 0x5e, 0x10, 0x00, 0x00, 0x00, 0x01]),
            err: None,
        },
        TestCase {
            input: "02-00-5e-10-00-00-00-01",
            output: Some(vec![0x02, 0x00, 0x5e, 0x10, 0x00, 0x00, 0x00, 0x01]),
            err: None,
        },
        TestCase {
            input: "0200.5e10.0000.0001",
            output: Some(vec![0x02, 0x00, 0x5e, 0x10, 0x00, 0x00, 0x00, 0x01]),
            err: None,
        },
        TestCase {
            input: "ab:cd:ef:AB:CD:EF:ab:cd",
            output: Some(vec![0xab, 0xcd, 0xef, 0xab, 0xcd, 0xef, 0xab, 0xcd]),
            err: None,
        },
        TestCase {
            input: "0200-5e10.0000.0001",
            output: None,
            err: Some(ParseError::UnexpectedSeparator {
                expected: b'.',
                actual: b'-',
            }),
        },
        TestCase {
            input: "xx00.5e10.0000.0001",
            output: None,
            err: Some(ParseError::InvalidHexDigit([b'x', b'x'])),
        },
        TestCase {
            input: "00xx.5e10.0000.0001",
            output: None,
            err: Some(ParseError::InvalidHexDigit([b'x', b'x'])),
        },
    ]
}

#[test]
fn parse() {
    let cases = test_cases();
    for (i, test) in cases.iter().enumerate() {
        let result = test.input.parse::<Eui64Addr>();

        match (result, &test.output) {
            (Ok(out), Some(expected)) => {
                assert_eq!(
                    out.as_bytes(),
                    expected.as_slice(),
                    "Test case {}: Eui64Addr::parse({}) output mismatch",
                    i,
                    test.input
                );

                if test.err.is_none() {
                    let formatted = out.to_string();
                    let round_trip = formatted.as_str().parse::<Eui64Addr>();
                    assert!(
                        round_trip.is_ok(),
                        "Test case {}: Round-trip parse failed for {}",
                        i,
                        formatted
                    );
                    assert_eq!(
                        round_trip.unwrap(),
                        out,
                        "Test case {}: Round-trip value mismatch",
                        i
                    );
                }
            }
            (Err(err), None) => {
                assert_eq!(
                    Some(&err),
                    test.err.as_ref(),
                    "Test case {}: Expected error containing '{:?}', got '{:?}'",
                    i,
                    test.err,
                    err
                );
            }
            (Ok(out), None) => {
                panic!(
                    "Test case {}: Expected error '{:?}', got success: {:?}",
                    i, test.err, out
                );
            }
            (Err(err), Some(expected)) => {
                panic!(
                    "Test case {}: Expected {:?}, got error: {:?}",
                    i, expected, err
                );
            }
        }
    }
}

#[test]
fn formatted() {
    let addr = "02:00:5e:10:00:00:00:01".parse::<Eui64Addr>().unwrap();
    assert_eq!(addr.to_string(), "02:00:5e:10:00:00:00:01");

    let dot = addr.to_dot_seperated_array();
    let dot_str = core::str::from_utf8(&dot).unwrap();
    assert_eq!(dot_str, "0200.5e10.0000.0001");

    let dashed = addr.to_hyphen_seperated_array();
    let dashed_str = core::str::from_utf8(&dashed).unwrap();
    assert_eq!(dashed_str, "02-00-5e-10-00-00-00-01");
}

#[test]
fn octets_and_new() {
    let addr = Eui64Addr::parse_str("02:00:5e:10:00:00:00:01").unwrap();
    assert_eq!(addr.octets(), [2, 0, 94, 16, 0, 0, 0, 1]);
    let addr3 = Eui64Addr::new([2, 0, 94, 16, 0, 0, 0, 1]);
    assert_eq!(addr, addr3);
    assert_eq!(format!("{:?}", addr3.octets()), "[2, 0, 94, 16, 0, 0, 0, 1]");
}
