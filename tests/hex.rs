use hardware_address::{xtoi, xtoi2};

#[test]
fn test_xtoi() {
    assert_eq!(xtoi(b""), None);
    assert_eq!(xtoi(b"0"), Some((0, 1)));
    assert_eq!(xtoi(b"12"), Some((0x12, 2)));
    assert_eq!(xtoi(b"1a"), Some((0x1a, 2)));
    assert_eq!(xtoi(b"1A"), Some((0x1a, 2)));
    assert_eq!(xtoi(b"12x"), Some((0x12, 2)));
    assert_eq!(xtoi(b"x12"), None);
}

#[test]
fn test_xtoi2() {
    assert_eq!(xtoi2("12", b'\0'), Some(0x12));
    assert_eq!(xtoi2("12x", b'x'), Some(0x12));
    assert_eq!(xtoi2("12y", b'x'), None);
    assert_eq!(xtoi2("1", b'\0'), None);
    assert_eq!(xtoi2("xy", b'\0'), None);
}

#[test]
fn xtoi_long_runs() {
    assert_eq!(xtoi(b"7ffffffe"), Some((0x7ffffffe, 8)));
    assert_eq!(xtoi(b"7fffffff"), None);
    assert_eq!(xtoi(b"fffffffff"), None);
    assert_eq!(xtoi(b"DeadBeef"), None);
    assert_eq!(xtoi(b"0DeadBee:"), Some((0x0deadbee, 8)));
}

#[test]
fn xtoi2_case_and_short_input() {
    assert_eq!(xtoi2("AB", b':'), Some(0xab));
    assert_eq!(xtoi2("ab", b':'), Some(0xab));
    assert_eq!(xtoi2("fF:", b':'), Some(0xff));
    assert_eq!(xtoi2("", b':'), None);
    assert_eq!(xtoi2("1g", b':'), None);
}
