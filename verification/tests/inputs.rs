use yufi::inputs::{
    is_ip_or_ipv6, is_ipv4, parse_ip_prefix, parse_network_inputs, parse_prefix,
};

#[test]
fn ipv4_needs_four_small_numbers() {
    assert!(is_ipv4("192.168.1.124"));
    assert!(is_ipv4("0.0.0.0"));
    assert!(is_ipv4("255.255.255.255"));
    assert!(is_ipv4("001.002.003.004"));
    assert!(is_ipv4("+1.2.3.4"));
    assert!(!is_ipv4("256.1.1.1"));
    assert!(!is_ipv4("1.2.3"));
    assert!(!is_ipv4("1.2.3.4.5"));
    assert!(!is_ipv4("1..3.4"));
    assert!(!is_ipv4("1.2.3."));
    assert!(!is_ipv4("0001.2.3.4"));
    assert!(!is_ipv4("a.b.c.d"));
    assert!(!is_ipv4(""));
    assert!(!is_ipv4(" 1.2.3.4"));
    assert!(!is_ipv4("1.2.3.-4"));
}

#[test]
fn anything_with_a_colon_passes_for_ipv6() {
    assert!(is_ip_or_ipv6("1.1.1.1"));
    assert!(is_ip_or_ipv6("fe80::1"));
    assert!(is_ip_or_ipv6(":"));
    assert!(!is_ip_or_ipv6("example.org"));
    assert!(!is_ip_or_ipv6(""));
}

#[test]
fn prefix_is_a_number_up_to_32() {
    assert_eq!(parse_prefix("0"), Ok(0));
    assert_eq!(parse_prefix("24"), Ok(24));
    assert_eq!(parse_prefix("32"), Ok(32));
    assert_eq!(parse_prefix("+8"), Ok(8));
    assert_eq!(parse_prefix("33"), Err("Invalid prefix (0-32)".to_string()));
    assert_eq!(parse_prefix(""), Err("Invalid prefix (0-32)".to_string()));
    assert_eq!(parse_prefix("-1"), Err("Invalid prefix (0-32)".to_string()));
    assert_eq!(parse_prefix("abc"), Err("Invalid prefix (0-32)".to_string()));
    assert_eq!(parse_prefix("4294967296"), Err("Invalid prefix (0-32)".to_string()));
}

#[test]
fn address_and_prefix_part_at_the_first_slash() {
    assert_eq!(parse_ip_prefix("10.0.0.2/16"), ("10.0.0.2".to_string(), 16));
    assert_eq!(parse_ip_prefix("10.0.0.2"), ("10.0.0.2".to_string(), 24));
    assert_eq!(parse_ip_prefix("10.0.0.2/"), ("10.0.0.2/".to_string(), 24));
    assert_eq!(parse_ip_prefix("10.0.0.2/x"), ("10.0.0.2/x".to_string(), 24));
    assert_eq!(parse_ip_prefix("10.0.0.2/8/9"), ("10.0.0.2/8/9".to_string(), 24));
    assert_eq!(parse_ip_prefix("/8"), ("".to_string(), 8));
    assert_eq!(parse_ip_prefix("a/99"), ("a".to_string(), 99));
    assert_eq!(parse_ip_prefix(""), ("".to_string(), 24));
}

#[test]
fn empty_fields_give_nothing() {
    let parsed = parse_network_inputs("", "  ", "").unwrap();
    assert_eq!(parsed.ip, None);
    assert_eq!(parsed.prefix, None);
    assert_eq!(parsed.gateway, None);
    assert_eq!(parsed.dns, None);
}

#[test]
fn full_fields_are_read() {
    let parsed =
        parse_network_inputs(" 192.168.1.124 / 24 ", " 192.168.1.1 ", "1.1.1.1, 8.8.8.8 ,, ::1")
            .unwrap();
    assert_eq!(parsed.ip.as_deref(), Some("192.168.1.124"));
    assert_eq!(parsed.prefix, Some(24));
    assert_eq!(parsed.gateway.as_deref(), Some("192.168.1.1"));
    assert_eq!(
        parsed.dns,
        Some(vec!["1.1.1.1".to_string(), "8.8.8.8".to_string(), "::1".to_string()])
    );
}

#[test]
fn address_without_prefix_leaves_the_prefix_open() {
    let parsed = parse_network_inputs("10.0.0.2", "", "").unwrap();
    assert_eq!(parsed.ip.as_deref(), Some("10.0.0.2"));
    assert_eq!(parsed.prefix, None);
}

#[test]
fn each_field_has_its_errors() {
    let err = |ip: &str, gw: &str, dns: &str| parse_network_inputs(ip, gw, dns).unwrap_err();
    assert_eq!(err("/24", "", ""), "IP address is required");
    assert_eq!(err(" / 24", "", ""), "IP address is required");
    assert_eq!(err("10.0.0/24", "", ""), "Invalid IP address");
    assert_eq!(err("10.0.0.256", "", ""), "Invalid IP address");
    assert_eq!(err("fe80::1", "", ""), "Invalid IP address");
    assert_eq!(err("10.0.0.2/33", "", ""), "Invalid prefix (0-32)");
    assert_eq!(err("10.0.0.2/", "", ""), "Invalid prefix (0-32)");
    assert_eq!(err("10.0.0.2", "gateway", ""), "Invalid gateway address");
    assert_eq!(err("", "10.0.0.1", ""), "Gateway requires an IP address");
    assert_eq!(err("", "", "1.1.1.1, dns.example"), "Invalid DNS server: dns.example");
    assert_eq!(err("", "", "bad, worse"), "Invalid DNS server: bad");
}

#[test]
fn the_first_bad_field_decides() {
    let err = parse_network_inputs("nope", "nope", "nope").unwrap_err();
    assert_eq!(err, "Invalid IP address");
    let err = parse_network_inputs("10.0.0.2", "nope", "nope").unwrap_err();
    assert_eq!(err, "Invalid gateway address");
}

#[test]
fn name_servers_that_are_all_empty_give_none() {
    let parsed = parse_network_inputs("", "", " , , ").unwrap();
    assert_eq!(parsed.dns, None);
}
