use nbssh::decimal::{parse_u16, u16_to_string};

#[test]
fn writes_shortest_decimal() {
    assert_eq!(u16_to_string(0), "0");
    assert_eq!(u16_to_string(7), "7");
    assert_eq!(u16_to_string(9), "9");
    assert_eq!(u16_to_string(10), "10");
    assert_eq!(u16_to_string(22), "22");
    assert_eq!(u16_to_string(100), "100");
    assert_eq!(u16_to_string(9222), "9222");
    assert_eq!(u16_to_string(65535), "65535");
}

#[test]
fn writes_like_the_standard_library() {
    for n in 0..=u16::MAX {
        assert_eq!(u16_to_string(n), n.to_string());
    }
}

#[test]
fn reads_what_it_writes() {
    for n in 0..=u16::MAX {
        assert_eq!(parse_u16(&u16_to_string(n)), Some(n));
    }
}

#[test]
fn reads_digits() {
    assert_eq!(parse_u16("0"), Some(0));
    assert_eq!(parse_u16("22"), Some(22));
    assert_eq!(parse_u16("1234"), Some(1234));
    assert_eq!(parse_u16("65535"), Some(65535));
    assert_eq!(parse_u16("00"), Some(0));
    assert_eq!(parse_u16("0022"), Some(22));
    assert_eq!(parse_u16("+22"), Some(22));
    assert_eq!(parse_u16("+0"), Some(0));
}

#[test]
fn refuses_what_is_no_port() {
    for text in [
        "", "+", "-", "-1", "-0", "++1", "+-1", "1+", "65536", "70000", "100000", "655350",
        "4294967296", "18446744073709551616", "a", "1a", "a1", " 1", "1 ", "1_000", "0x10", "1.5",
        "\u{662}\u{662}", "\u{ff11}",
    ] {
        assert_eq!(parse_u16(text), None, "{:?}", text);
    }
}

#[test]
fn reads_like_the_standard_library() {
    for text in [
        "", "+", "0", "+0", "-0", "007", "65535", "65536", "+65535", "+65536", "000065536", "12a",
        "1 2", "99999", "099999",
    ] {
        assert_eq!(parse_u16(text), text.parse::<u16>().ok(), "{:?}", text);
    }
}
