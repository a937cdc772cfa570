use netreactor::address::{is_valid_address, parse_address, HostPort};

fn parsed(host: &str, port: u16) -> Option<HostPort> {
    Some(HostPort { host: String::from(host), port })
}

#[test]
fn ipv4_address_with_port() {
    assert_eq!(parse_address("127.0.0.1:18080"), parsed("127.0.0.1", 18080));
}

#[test]
fn host_name_with_port() {
    assert_eq!(parse_address("localhost:80"), parsed("localhost", 80));
}

#[test]
fn host_is_all_before_the_last_colon() {
    assert_eq!(parse_address("[::1]:8080"), parsed("[::1]", 8080));
    assert_eq!(parse_address("a:b:443"), parsed("a:b", 443));
    assert_eq!(parse_address("::9"), parsed(":", 9));
}

#[test]
fn host_may_be_empty() {
    assert_eq!(parse_address(":80"), parsed("", 80));
}

#[test]
fn host_may_hold_any_character() {
    assert_eq!(parse_address("h\u{f4}te.example:8443"), parsed("h\u{f4}te.example", 8443));
    assert_eq!(parse_address("\u{4f8b}\u{3048}:1"), parsed("\u{4f8b}\u{3048}", 1));
}

#[test]
fn port_bounds() {
    assert_eq!(parse_address("h:0"), parsed("h", 0));
    assert_eq!(parse_address("h:65535"), parsed("h", 65535));
    assert_eq!(parse_address("h:65536"), None);
    assert_eq!(parse_address("h:99999999999999999999999"), None);
}

#[test]
fn port_may_have_leading_zeros_and_a_plus() {
    assert_eq!(parse_address("h:00080"), parsed("h", 80));
    assert_eq!(parse_address("h:000000000000000000000000065535"), parsed("h", 65535));
    assert_eq!(parse_address("h:+80"), parsed("h", 80));
    assert_eq!(parse_address("h:+0"), parsed("h", 0));
}

#[test]
fn address_without_colon_is_refused() {
    assert_eq!(parse_address(""), None);
    assert_eq!(parse_address("localhost"), None);
    assert_eq!(parse_address("8080"), None);
}

#[test]
fn address_without_port_is_refused() {
    assert_eq!(parse_address(":"), None);
    assert_eq!(parse_address("localhost:"), None);
    assert_eq!(parse_address("localhost:+"), None);
}

#[test]
fn port_that_is_no_number_is_refused() {
    assert_eq!(parse_address("h:-1"), None);
    assert_eq!(parse_address("h:8a"), None);
    assert_eq!(parse_address("h: 80"), None);
    assert_eq!(parse_address("h:80 "), None);
    assert_eq!(parse_address("h:++80"), None);
    assert_eq!(parse_address("h:8+0"), None);
    assert_eq!(parse_address("h:http"), None);
    assert_eq!(parse_address("h:\u{ff18}\u{ff10}"), None);
    assert_eq!(parse_address("h:0x50"), None);
}

#[test]
fn validity_is_that_parsing_succeeds() {
    assert!(is_valid_address("127.0.0.1:18080"));
    assert!(is_valid_address(":0"));
    assert!(!is_valid_address("127.0.0.1"));
    assert!(!is_valid_address("127.0.0.1:port"));
    assert!(!is_valid_address("127.0.0.1:65536"));
}

#[test]
fn grammar_agrees_with_splitting_and_parsing_by_the_standard_library() {
    let samples = [
        "127.0.0.1:18080",
        "localhost:80",
        "[::1]:8080",
        "a:b:443",
        ":80",
        ":",
        "",
        "localhost",
        "h:+80",
        "h:+",
        "h:-0",
        "h:-1",
        "h:65535",
        "h:65536",
        "h:0000065535",
        "h:4294967376",
        "h:18446744073709551696",
        "h:8a",
        "h: 80",
        "h:80:",
        "h\u{f4}te:1",
        "h:\u{661}",
        "h:1\u{0}",
        "+:+1",
        "::::65535",
    ];
    for sample in samples {
        let expected = sample.rsplit_once(':').and_then(|(host, port)| {
            port.parse::<u16>().ok().map(|port| HostPort { host: String::from(host), port })
        });
        assert_eq!(parse_address(sample), expected, "address {:?}", sample);
    }
}

#[test]
fn host_and_port_joined_by_a_colon_are_read_back() {
    for host in ["", "localhost", "127.0.0.1", "[::1]", "a:b", "h\u{f4}te", "::"] {
        for (text, port) in [("0", 0), ("80", 80), ("+443", 443), ("065535", 65535)] {
            let address = format!("{}:{}", host, text);
            assert_eq!(parse_address(&address), parsed(host, port), "address {:?}", address);
        }
    }
}
