use mqtt_link::address::{parse_port, parse_url, DEFAULT_PORT};

#[test]
fn host_and_port_are_split_at_the_colon() {
    assert_eq!(parse_url("host:1883"), ("host".to_string(), 1883));
    assert_eq!(parse_url("127.0.0.1:1883"), ("127.0.0.1".to_string(), 1883));
    assert_eq!(parse_url("broker.local:8883"), ("broker.local".to_string(), 8883));
}

#[test]
fn address_without_colon_gets_the_default_port() {
    assert_eq!(parse_url("onlyhost"), ("onlyhost".to_string(), 1883));
    assert_eq!(parse_url(""), (String::new(), DEFAULT_PORT));
}

#[test]
fn unreadable_port_keeps_the_whole_text_as_host() {
    assert_eq!(parse_url("host:abc"), ("host:abc".to_string(), 1883));
    assert_eq!(parse_url("host:"), ("host:".to_string(), 1883));
    assert_eq!(parse_url("host:65536"), ("host:65536".to_string(), 1883));
    assert_eq!(parse_url("host:-1"), ("host:-1".to_string(), 1883));
    assert_eq!(parse_url("host: 80"), ("host: 80".to_string(), 1883));
}

#[test]
fn several_colons_keep_the_whole_text_as_host() {
    assert_eq!(parse_url("a:b:c"), ("a:b:c".to_string(), 1883));
    assert_eq!(parse_url("::1"), ("::1".to_string(), 1883));
    assert_eq!(parse_url("host:18:83"), ("host:18:83".to_string(), 1883));
}

#[test]
fn edge_ports_are_read() {
    assert_eq!(parse_url("h:0"), ("h".to_string(), 0));
    assert_eq!(parse_url("h:65535"), ("h".to_string(), 65535));
    assert_eq!(parse_url("h:+1883"), ("h".to_string(), 1883));
    assert_eq!(parse_url("h:0001883"), ("h".to_string(), 1883));
    assert_eq!(parse_url(":1883"), (String::new(), 1883));
}

#[test]
fn host_may_hold_any_characters_but_a_colon() {
    assert_eq!(parse_url("h\u{f6}st:1"), ("h\u{f6}st".to_string(), 1));
    assert_eq!(parse_url("\u{4e3b}\u{673a}:9"), ("\u{4e3b}\u{673a}".to_string(), 9));
}

#[test]
fn port_reading_agrees_with_the_standard_parser() {
    let samples = [
        "", "+", "-", "0", "00", "1", "+0", "+1", "-0", "-1", "++1", "+-1", "1+", " 1", "1 ",
        "12a", "a12", "65535", "65536", "065535", "0000000000000000000065535", "99999",
        "100000", "4294967296", "18446744073709551616", "1883", "+1883", "1_883", "1.0",
        "\u{663}", "\u{ff11}", "0x10", "1e3",
    ];
    for s in samples {
        assert_eq!(parse_port(s), s.parse::<u16>().ok(), "port text {:?}", s);
    }
}

#[test]
fn every_port_is_read_back() {
    let mut p: u32 = 0;
    while p <= 65535 {
        let text = p.to_string();
        assert_eq!(parse_port(&text), Some(p as u16));
        p += 257;
    }
    assert_eq!(parse_port("65535"), Some(65535));
}
