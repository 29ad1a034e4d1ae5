use simple_chat::text::{join_text, same_text, trim};
use simple_chat::validators::{parse_u16, validate_ip, validate_port, validate_username};

#[test]
fn trim_removes_unicode_whitespace_at_both_ends() {
    assert_eq!(trim("  hello\t\n"), "hello");
    assert_eq!(trim("\u{3000}hi there\u{85}\u{a0}"), "hi there");
    assert_eq!(trim("   "), "");
    assert_eq!(trim(""), "");
    assert_eq!(trim("a b"), "a b");
}

#[test]
fn trim_agrees_with_std_trim() {
    let samples = [" x ", "\u{2000}\u{2028}y\u{205f}", "\u{200b}z\u{200b}", "\r\nline\r\n", "\u{1680}"];
    for s in samples {
        assert_eq!(trim(s), s.trim());
    }
}

#[test]
fn trim_twice_is_trim_once() {
    let s = " \t padded value \n ";
    assert_eq!(trim(trim(s)), trim(s));
}

#[test]
fn text_helpers() {
    assert_eq!(join_text("ab", "cd"), "abcd");
    assert!(same_text("héllo", "héllo"));
    assert!(!same_text("hello", "hell"));
    assert!(!same_text("hello", "hellp"));
}

#[test]
fn parse_u16_follows_std() {
    let samples = ["0", "80", "+80", "-80", "", "+", "65535", "65536", "0080", "8o", "99999999999", "++1", " 1"];
    for s in samples {
        assert_eq!(parse_u16(s), s.parse::<u16>().ok(), "input {:?}", s);
    }
}

#[test]
fn port_accepts_1_to_65535() {
    assert!(validate_port("8080"));
    assert!(validate_port("1"));
    assert!(validate_port("65535"));
    assert!(validate_port(" 8080 "));
    assert!(validate_port("+443"));
    assert!(validate_port("0080"));
    assert!(!validate_port("0"));
    assert!(!validate_port("65536"));
    assert!(!validate_port("-1"));
    assert!(!validate_port(""));
    assert!(!validate_port("   "));
    assert!(!validate_port("80a"));
    assert!(!validate_port("8 0"));
}

#[test]
fn port_every_decimal_in_range() {
    for n in [1u32, 9, 10, 99, 100, 1024, 9999, 10000, 65534, 65535] {
        assert!(validate_port(&n.to_string()));
    }
    assert!(!validate_port(&0u32.to_string()));
}

#[test]
fn username_length_3_to_20() {
    assert!(validate_username("abc"));
    assert!(validate_username("User2024"));
    assert!(validate_username("  bob  "));
    assert!(validate_username("abcdefghijklmnopqrst"));
    assert!(!validate_username("abcdefghijklmnopqrstu"));
    assert!(!validate_username("ab"));
    assert!(!validate_username("  ab  "));
    assert!(!validate_username(""));
}

#[test]
fn username_alphanumeric_only() {
    assert!(!validate_username("bob smith"));
    assert!(!validate_username("user_1"));
    assert!(!validate_username("a-b-c"));
    assert!(!validate_username("hi!"));
}

#[test]
fn username_counts_symbols() {
    // Non-ASCII letters and digits are alphanumeric.
    assert!(validate_username("Élodie"));
    assert!(validate_username("藏藏藏"));
    assert!(validate_username("٣٣٣"));
    // Twenty symbols are allowed even where their UTF-8 encoding is longer.
    assert!(validate_username("ééééééééééééééééééé1"));
    assert!(!validate_username("éééééééééééééééééééé1"));
}

#[test]
fn ip_local_host_names() {
    assert!(validate_ip("localhost"));
    assert!(validate_ip(" localhost "));
    assert!(validate_ip("  ip6-localhost\t"));
    assert!(!validate_ip("Localhost"));
    assert!(!validate_ip("example.com"));
}

#[test]
fn ip_addresses_v4_and_v6() {
    assert!(validate_ip("192.168.1.1"));
    assert!(validate_ip(" 127.0.0.1 "));
    assert!(validate_ip("0.0.0.0"));
    assert!(validate_ip("::1"));
    assert!(validate_ip("fe80::1"));
    assert!(validate_ip("2001:db8::ff00:42:8329"));
    assert!(!validate_ip("256.0.0.1"));
    assert!(!validate_ip("1.2.3"));
    assert!(!validate_ip("1.2.3.4:80"));
    assert!(!validate_ip(""));
    assert!(!validate_ip("   "));
}

#[test]
fn ip_agrees_with_std() {
    for s in ["10.0.0.1", " ::ffff:1.2.3.4 ", "01.2.3.4", "1.2.3.4.5", "gg::1", "localhost", "host"] {
        let t = s.trim();
        let expected = t == "localhost" || t == "ip6-localhost" || t.parse::<core::net::IpAddr>().is_ok();
        assert_eq!(validate_ip(s), expected, "input {:?}", s);
    }
}

#[test]
fn checks_ignore_surrounding_whitespace() {
    for s in ["8080", "abc", "localhost", "0", "ab", "10.1.2.3", "::1"] {
        let padded = format!(" \t{}\u{3000}", s);
        assert_eq!(validate_port(&padded), validate_port(s));
        assert_eq!(validate_username(&padded), validate_username(s));
        assert_eq!(validate_ip(&padded), validate_ip(s));
    }
}
