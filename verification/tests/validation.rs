use sparkdns::validation::{
    sanitize_output, truncate_output, validate_doh_url, validate_dot_host, validate_host,
    validate_ip, validate_ipv4, validate_ipv6, validate_profile_id, validate_profile_name,
};

#[test]
fn validates_valid_ipv4() {
    assert!(validate_ipv4("1.1.1.1").is_ok());
    assert!(validate_ipv4("8.8.8.8").is_ok());
    assert!(validate_ipv4("255.255.255.255").is_ok());
    assert!(validate_ipv4("0.0.0.0").is_ok());
}

#[test]
fn rejects_invalid_ipv4() {
    assert!(validate_ipv4("1.1.1").is_err());
    assert!(validate_ipv4("1.1.1.1.1").is_err());
    assert!(validate_ipv4("256.1.1.1").is_err());
    assert!(validate_ipv4("a.b.c.d").is_err());
    assert!(validate_ipv4("").is_err());
    assert!(validate_ipv4("...").is_err());
}

#[test]
fn validates_valid_ipv6() {
    assert!(validate_ipv6("::1").is_ok());
    assert!(validate_ipv6("2606:4700:4700::1111").is_ok());
    assert!(validate_ipv6("2001:4860:4860::8888").is_ok());
}

#[test]
fn rejects_invalid_ipv6() {
    assert!(validate_ipv6("2606:4700:4700::1111::1").is_err());
    assert!(validate_ipv6("not-an-ip").is_err());
    assert!(validate_ipv6("").is_err());
}

#[test]
fn validates_ip_either_family() {
    assert!(validate_ip("1.1.1.1").is_ok());
    assert!(validate_ip("::1").is_ok());
    assert!(validate_ip("not-an-ip").is_err());
}

#[test]
fn validates_profile_id() {
    assert!(validate_profile_id("preset_cloudflare").is_ok());
    assert!(validate_profile_id("custom-1_a").is_ok());
    assert!(validate_profile_id("").is_err());
    assert!(validate_profile_id("has space").is_err());
    assert!(validate_profile_id("has/slash").is_err());
    assert!(validate_profile_id(&"a".repeat(129)).is_err());
}

#[test]
fn validates_profile_name() {
    assert!(validate_profile_name("Cloudflare").is_ok());
    assert!(validate_profile_name("My Custom DNS").is_ok());
    assert!(validate_profile_name("  ").is_err());
    assert!(validate_profile_name("line\nbreak").is_err());
    assert!(validate_profile_name("null\u{0}char").is_err());
}

#[test]
fn validates_doh_url() {
    assert!(validate_doh_url("https://cloudflare-dns.com/dns-query").is_ok());
    assert!(validate_doh_url("http://example.com").is_err());
    assert!(validate_doh_url("").is_err());
    assert!(validate_doh_url("https://bad\nurl").is_err());
}

#[test]
fn validates_dot_host() {
    assert!(validate_dot_host("one.one.one.one").is_ok());
    assert!(validate_dot_host("").is_err());
    assert!(validate_dot_host("bad\nhost").is_err());
}

#[test]
fn validates_host() {
    assert!(validate_host("example.com").is_ok());
    assert!(validate_host("8.8.8.8").is_ok());
    assert!(validate_host("").is_err());
    assert!(validate_host(&"a".repeat(254)).is_err());
    assert!(validate_host("bad\nhost").is_err());
}

#[test]
fn sanitizes_output_removes_control() {
    assert_eq!(sanitize_output("hello"), "hello");
    assert_eq!(sanitize_output("hello\u{0}world"), "helloworld");
    assert_eq!(sanitize_output("  trim me  "), "trim me");
}

#[test]
fn truncate_output_respects_max() {
    assert_eq!(truncate_output("abc", 10), "abc");
    assert_eq!(truncate_output("abcdefghij", 3), "abc...[truncated]");
}

#[test]
fn test_validation_ipv4_valid() {
    assert!(validate_ipv4("8.8.8.8").is_ok());
    assert!(validate_ipv4("1.1.1.1").is_ok());
}

#[test]
fn test_validation_ipv4_invalid() {
    assert!(validate_ipv4("999.999.999.999").is_err());
    assert!(validate_ipv4("not-an-ip").is_err());
    assert!(validate_ipv4("").is_err());
    assert!(validate_ipv4("1.2.3").is_err());
}

#[test]
fn test_validation_ipv6_valid() {
    assert!(validate_ipv6("::1").is_ok());
    assert!(validate_ipv6("2606:4700:4700::1111").is_ok());
}

#[test]
fn test_validation_ipv6_invalid() {
    assert!(validate_ipv6("not-an-ip").is_err());
    assert!(validate_ipv6("").is_err());
}

#[test]
fn test_validation_profile_id() {
    assert!(validate_profile_id("preset_cloudflare").is_ok());
    assert!(validate_profile_id("my-profile-1").is_ok());
    assert!(validate_profile_id("").is_err());
    assert!(validate_profile_id("has spaces").is_err());
    assert!(validate_profile_id("has;semicolon").is_err());
}

#[test]
fn test_validation_profile_name() {
    assert!(validate_profile_name("Cloudflare").is_ok());
    assert!(validate_profile_name("My Custom DNS").is_ok());
    assert!(validate_profile_name("").is_err());
    assert!(validate_profile_name(&"a".repeat(65)).is_err());
}

#[test]
fn test_validation_doh_url() {
    assert!(validate_doh_url("https://cloudflare-dns.com/dns-query").is_ok());
    assert!(validate_doh_url("http://cloudflare-dns.com/dns-query").is_err());
    assert!(validate_doh_url("").is_err());
}

#[test]
fn test_sanitize_output() {
    assert_eq!(sanitize_output("hello\u{0}world"), "helloworld");
    assert_eq!(sanitize_output("hello\nworld"), "hello world");
    assert_eq!(sanitize_output("  clean  "), "clean");
}

#[test]
fn test_truncate_output() {
    let long = "a".repeat(100);
    let truncated = truncate_output(&long, 10);
    assert!(truncated.contains("[truncated]"));
    assert!(truncated.len() < 100);
    assert_eq!(truncate_output("short", 10), "short");
}

// Each case: text, accepted as IPv6, accepted as an address of either family.
#[test]
fn ip_grammar_cases() {
    let cases: [(&str, bool, bool); 39] = [
        ("", false, false),
        ("::", true, true),
        (":::", false, false),
        ("::1", true, true),
        ("1::", true, true),
        ("1::2", true, true),
        ("1:2:3:4:5:6:7:8", true, true),
        ("1:2:3:4:5:6:7::8", false, false),
        ("1:2:3:4:5:6:7:8:9", false, false),
        ("1:2:3:4:5:6::7", true, true),
        ("12345::", false, false),
        ("::ffff:1.2.3.4", true, true),
        ("::1.2.3.4", true, true),
        ("1.2.3.4::", false, false),
        ("1:2:3:4:5:6:1.2.3.4", true, true),
        ("1:2:3:4:5:6:7:1.2.3.4", false, false),
        ("::1.2.3.04", false, false),
        ("::1.2.3.256", false, false),
        ("1::2::3", false, false),
        (":1::2", false, false),
        ("1:::2", false, false),
        ("fe80::1%eth0", false, false),
        ("ABCD:ef01::", true, true),
        ("1.2.3.4", false, true),
        ("01.2.3.4", false, false),
        ("1.2.3", false, false),
        ("255.255.255.255", false, true),
        ("256.0.0.0", false, false),
        ("1.2.3.4.5", false, false),
        ("+1.2.3.4", false, false),
        (" 1.2.3.4", false, false),
        ("::1.2.3.4:5", false, false),
        ("1:2:3:4:5:6:7:8::", false, false),
        ("::g", false, false),
        ("0:0::0:0:0:0:0", true, true),
        ("1:2:3:4:5:1.2.3.4", false, false),
        ("1:2:3:4:5::1.2.3.4", true, true),
        ("1:2:3:4:5:6::1.2.3.4", false, false),
        ("0.0.0.0", false, true),
    ];
    for (text, v6, any) in cases {
        assert_eq!(validate_ipv6(text).is_ok(), v6, "ipv6 {:?}", text);
        assert_eq!(validate_ip(text).is_ok(), any, "ip {:?}", text);
    }
}

#[test]
fn ipv4_accepts_what_u8_parsing_accepts() {
    assert!(validate_ipv4("+1.2.3.4").is_ok());
    assert!(validate_ipv4("001.002.003.004").is_ok());
    assert!(validate_ipv4("1.2.3.-4").is_err());
    assert!(validate_ipv4("1.2.3.+").is_err());
    assert!(validate_ipv4("1.2.3.4 ").is_err());
}

#[test]
fn validation_errors_carry_their_messages() {
    match validate_ipv4("x") {
        Err(sparkdns::errors::AppError::Validation(m)) => assert_eq!(m, "Invalid IPv4 address: x"),
        other => panic!("unexpected {:?}", other),
    }
    match validate_profile_id("a b") {
        Err(e) => assert_eq!(
            e.message(),
            "Validation error: Profile id may only contain alphanumeric, dash, underscore"
        ),
        Ok(()) => panic!("accepted"),
    }
    assert!(validate_doh_url(&format!("https://{}", "a".repeat(505))).is_err());
    assert!(validate_doh_url(&format!("https://{}", "a".repeat(504))).is_ok());
    assert!(validate_profile_name(&"é".repeat(33)).is_err());
    assert!(validate_profile_name(&"é".repeat(32)).is_ok());
}

#[test]
fn sanitize_replaces_controls_and_is_stable() {
    let s = sanitize_output("\u{7}a\tb\u{85}c\u{8}\r\n");
    assert_eq!(s, "a b c");
    assert_eq!(sanitize_output(&s), s);
}

#[test]
fn truncate_counts_bytes() {
    assert_eq!(truncate_output("ééé", 4), "éé...[truncated]");
    assert_eq!(truncate_output("ééé", 6), "ééé");
}

#[test]
fn sanitizing_twice_is_sanitizing_once() {
    for s in ["  a\u{1}b\u{7}c \t", "\u{0}\u{8} \u{1b}[31mred\u{1b}[0m\r\n", "\u{85}x\u{9f}", "plain", ""] {
        let once = sanitize_output(s);
        assert_eq!(sanitize_output(&once), once);
    }
    assert_eq!(sanitize_output("  a\u{1}b\u{7}c \t"), "a bc");
}
