use nbssh::{Address, AddressError, DEFAULT_SSH_PORT};

#[test]
fn test_address_parse() {
    assert_eq!(Address::parse("a"), Ok(Address::from_host("a")));
    assert_eq!(Address::parse("a:1234"), Ok(Address::new("a", 1234)));
    assert_eq!(Address::parse("a:b"), Err(AddressError::InvalidPort));
    assert_eq!(
        Address::parse("a:1234:5678"),
        Err(AddressError::InvalidFormat)
    );
}

#[test]
fn test_address_display() {
    let addr = Address::from_host("abc");
    assert_eq!(addr.to_string(), "abc");
    let addr = Address::new("abc", 123);
    assert_eq!(addr.to_string(), "abc:123");
}

#[test]
fn test_parse() {
    // A missing port stays missing; it is written like port 22.
    assert_eq!(Address::parse("a"), Ok(Address::from_host("a")));
    assert_eq!(
        Address::parse("a").unwrap().to_string(),
        Address::new("a", 22).to_string()
    );
    assert_eq!(Address::parse("a:1234"), Ok(Address::new("a", 1234)));
    assert_eq!(Address::parse("a:b"), Err(AddressError::InvalidPort));
    assert_eq!(
        Address::parse("a:1234:5678"),
        Err(AddressError::InvalidFormat)
    );
}

#[test]
fn test_display() {
    let addr = Address::new("abc", 22);
    assert_eq!(addr.to_string(), "abc");
    let addr = Address::new("abc", 123);
    assert_eq!(addr.to_string(), "abc:123");
}

#[test]
fn default_port_is_22() {
    assert_eq!(DEFAULT_SSH_PORT, 22);
}

#[test]
fn new_keeps_host_and_port() {
    let addr = Address::new("example.org", 2222);
    assert_eq!(addr.host, "example.org");
    assert_eq!(addr.port, Some(2222));
}

#[test]
fn from_host_has_no_port() {
    let addr = Address::from_host("example.org");
    assert_eq!(addr.host, "example.org");
    assert_eq!(addr.port, None);
}

#[test]
fn default_address_is_empty() {
    let addr = Address::default();
    assert_eq!(addr.host, "");
    assert_eq!(addr.port, None);
}

#[test]
fn parse_without_colon_is_host_alone() {
    for text in ["a", "localhost", "example.org", "10.0.0.1", "me@host", "h\u{f6}st", " "] {
        let addr = Address::parse(text).unwrap();
        assert_eq!(addr.host, text);
        assert_eq!(addr.port, None);
    }
}

#[test]
fn parse_host_and_port() {
    for (text, host, port) in [
        ("a:0", "a", 0u16),
        ("a:1", "a", 1),
        ("a:22", "a", 22),
        ("localhost:9222", "localhost", 9222),
        ("10.0.0.1:65535", "10.0.0.1", 65535),
        ("me@host:80", "me@host", 80),
        ("h\u{f6}st:8080", "h\u{f6}st", 8080),
    ] {
        let addr = Address::parse(text).unwrap();
        assert_eq!(addr.host, host);
        assert_eq!(addr.port, Some(port));
    }
}

#[test]
fn parse_accepts_leading_zeros_and_plus() {
    assert_eq!(Address::parse("a:0080"), Ok(Address::new("a", 80)));
    assert_eq!(Address::parse("a:+80"), Ok(Address::new("a", 80)));
    assert_eq!(Address::parse("a:00000000065535"), Ok(Address::new("a", 65535)));
}

#[test]
fn parse_accepts_empty_host_before_colon() {
    let addr = Address::parse(":22").unwrap();
    assert_eq!(addr.host, "");
    assert_eq!(addr.port, Some(22));
}

#[test]
fn parse_refuses_empty_text() {
    assert_eq!(Address::parse(""), Err(AddressError::InvalidFormat));
}

#[test]
fn parse_refuses_two_colons_or_more() {
    for text in ["a:1234:5678", "::", "a::", "::1", "a:b:c", "1:2:3:4", "a:22:", ":a:"] {
        assert_eq!(Address::parse(text), Err(AddressError::InvalidFormat));
    }
}

#[test]
fn parse_refuses_bad_port() {
    for text in [
        "a:b", "a:", ":", "a:65536", "a:99999999999999999999", "a:-1", "a:+", "a:++1", "a: 22",
        "a:22 ", "a:2_2", "a:0x16", "a:1.0", "a:\u{661}",
    ] {
        assert_eq!(Address::parse(text), Err(AddressError::InvalidPort));
    }
}

#[test]
fn to_string_leaves_default_port_out() {
    assert_eq!(Address::new("h", 22).to_string(), "h");
    assert_eq!(Address::new("h", 21).to_string(), "h:21");
    assert_eq!(Address::new("h", 23).to_string(), "h:23");
    assert_eq!(Address::new("h", 0).to_string(), "h:0");
    assert_eq!(Address::new("h", 65535).to_string(), "h:65535");
    assert_eq!(Address::new("", 80).to_string(), ":80");
    assert_eq!(Address::from_host("").to_string(), "");
}

#[test]
fn round_trip_keeps_canonical_text() {
    for text in ["a", "localhost", "a:1234", "localhost:9222", "h:0", "h:65535", ":80", "h:21"] {
        assert_eq!(Address::parse(text).unwrap().to_string(), text);
    }
}

#[test]
fn round_trip_drops_default_port() {
    assert_eq!(Address::parse("h:22").unwrap().to_string(), "h");
    assert_eq!(Address::parse("h:022").unwrap().to_string(), "h");
    assert_eq!(Address::parse("h:+22").unwrap().to_string(), "h");
}

#[test]
fn round_trip_shortens_port() {
    assert_eq!(Address::parse("h:007").unwrap().to_string(), "h:7");
}

#[test]
fn port_str_is_decimal_or_empty() {
    assert_eq!(Address::new("a", 1234).port_str(), "1234");
    assert_eq!(Address::new("a", 22).port_str(), "22");
    assert_eq!(Address::new("a", 0).port_str(), "0");
    assert_eq!(Address::from_host("a").port_str(), "");
}

#[test]
fn addresses_compare_by_host_and_port() {
    assert_eq!(Address::new("a", 1), Address::new("a", 1));
    assert_ne!(Address::new("a", 1), Address::new("a", 2));
    assert_ne!(Address::new("a", 1), Address::new("b", 1));
    assert_ne!(Address::new("a", 22), Address::from_host("a"));
    assert_eq!(Address::from_host("a"), Address::from_host("a"));
}

#[test]
fn clone_is_equal() {
    let addr = Address::new("abc", 123);
    assert_eq!(addr.clone(), addr);
    let addr = Address::from_host("abc");
    assert_eq!(addr.clone(), addr);
}

#[test]
fn parse_all_reads_every_text() {
    assert_eq!(
        Address::parse_all(&["a", "b:1", ":22", "c:0022"]),
        Ok(vec![
            Address::from_host("a"),
            Address::new("b", 1),
            Address::new("", 22),
            Address::new("c", 22),
        ])
    );
}

#[test]
fn parse_all_of_nothing_is_empty() {
    assert_eq!(Address::parse_all(&[]), Ok(vec![]));
}

#[test]
fn parse_all_reports_first_failure() {
    assert_eq!(
        Address::parse_all(&["a", "b:x", "c:1:2", "d"]),
        Err(AddressError::InvalidPort)
    );
    assert_eq!(
        Address::parse_all(&["a", "c:1:2", "b:x"]),
        Err(AddressError::InvalidFormat)
    );
    assert_eq!(Address::parse_all(&["a", "b", ""]), Err(AddressError::InvalidFormat));
}

#[test]
fn errors_compare_by_variant() {
    assert_eq!(AddressError::InvalidFormat, AddressError::InvalidFormat);
    assert_ne!(AddressError::InvalidFormat, AddressError::InvalidPort);
    assert_eq!(AddressError::InvalidPort.clone(), AddressError::InvalidPort);
}
