use seminar_node::address::{ipv4_text_of, ipv6_text, mapped_segments, parse_ipv4, peer_ip_text_of, to_ipv4};

#[test]
fn dotted_quads() {
    assert_eq!(parse_ipv4("1.2.3.4"), Some([1, 2, 3, 4]));
    assert_eq!(parse_ipv4("0.0.0.0"), Some([0, 0, 0, 0]));
    assert_eq!(parse_ipv4("255.255.255.255"), Some([255, 255, 255, 255]));
    assert_eq!(parse_ipv4("127.0.0.1"), Some([127, 0, 0, 1]));
    assert_eq!(parse_ipv4("192.168.100.20"), Some([192, 168, 100, 20]));
}

#[test]
fn not_dotted_quads() {
    for s in [
        "", "1.2.3", "1.2.3.4.5", "256.1.1.1", "1.2.3.", ".1.2.3", "01.2.3.4", "1.2.3.04", "00.1.2.3",
        "1..2.3", "1.2.3.4 ", " 1.2.3.4", "a.b.c.d", "1.2.3.-4", "1.2.3.+4", "1000.1.1.1", "123.456.789.0",
        "::ffff:1.2.3.4", "1.2.3.4:8333", "<change-me>",
    ] {
        assert_eq!(parse_ipv4(s), None, "{s}");
    }
}

#[test]
fn dotted_quad_edge_cases() {
    assert_eq!(parse_ipv4("0.1.1.1"), Some([0, 1, 1, 1]));
    assert_eq!(parse_ipv4("10.20.30.40"), Some([10, 20, 30, 40]));
    assert_eq!(parse_ipv4("1.02.3.4"), None);
    assert_eq!(parse_ipv4("999.1.1.1"), None);
    assert_eq!(parse_ipv4("1.1.1.1."), None);
    assert_eq!(parse_ipv4("."), None);
    assert_eq!(parse_ipv4("..."), None);
    assert_eq!(parse_ipv4("1.1.1.1a"), None);
    assert_eq!(parse_ipv4("１.2.3.4"), None);
}

#[test]
fn mapped_form() {
    assert_eq!(mapped_segments(&[1, 2, 3, 4]), [0, 0, 0, 0, 0, 0xffff, 0x0102, 0x0304]);
    assert_eq!(mapped_segments(&[127, 0, 0, 1]), [0, 0, 0, 0, 0, 0xffff, 0x7f00, 0x0001]);
}

#[test]
fn embedded_ipv4_addresses() {
    assert_eq!(to_ipv4(&[0, 0, 0, 0, 0, 0xffff, 0x0102, 0x0304]), Some([1, 2, 3, 4]));
    assert_eq!(to_ipv4(&[0, 0, 0, 0, 0, 0, 0x0102, 0x0304]), Some([1, 2, 3, 4]));
    assert_eq!(to_ipv4(&[0, 0, 0, 0, 0, 0, 0, 1]), Some([0, 0, 0, 1]));
    assert_eq!(to_ipv4(&[0x2001, 0xdb8, 0, 0, 0, 0, 0, 1]), None);
    assert_eq!(to_ipv4(&[0, 0, 0, 0, 0, 0xfffe, 1, 1]), None);
}

#[test]
fn mapped_round_trip_on_concrete_values() {
    for ip in [[1u8, 2, 3, 4], [0, 0, 0, 0], [255, 255, 255, 255], [10, 0, 200, 7]] {
        assert_eq!(to_ipv4(&mapped_segments(&ip)), Some(ip));
    }
}

#[test]
fn ipv6_texts() {
    assert_eq!(ipv6_text(&[0, 0, 0, 0, 0, 0xffff, 0x0102, 0x0304]), "::ffff:1.2.3.4");
    assert_eq!(ipv6_text(&[0, 0, 0, 0, 0, 0, 0, 0]), "::");
    assert_eq!(ipv6_text(&[0, 0, 0, 0, 0, 0, 0, 1]), "::1");
    assert_eq!(ipv6_text(&[0x2001, 0xdb8, 0, 0, 0, 0, 0, 1]), "2001:db8::1");
    assert_eq!(ipv6_text(&[0x2001, 0xdb8, 0, 1, 0, 0, 0, 1]), "2001:db8:0:1::1");
    assert_eq!(ipv6_text(&[0x2001, 0, 0, 1, 0, 0, 1, 1]), "2001::1:0:0:1:1");
    assert_eq!(ipv6_text(&[1, 0, 2, 0, 3, 0, 4, 0]), "1:0:2:0:3:0:4:0");
    assert_eq!(ipv6_text(&[0xabcd, 0xef01, 0x2345, 0x6789, 0xffff, 0xa, 0xb0, 0xc00]), "abcd:ef01:2345:6789:ffff:a:b0:c00");
    assert_eq!(ipv6_text(&[1, 0, 0, 0, 0, 0, 0, 0]), "1::");
    assert_eq!(ipv6_text(&[0, 0, 0, 0, 0, 0, 0x0102, 0x0304]), "::102:304");
}

#[test]
fn ipv6_zero_runs() {
    assert_eq!(ipv6_text(&[0, 0, 0, 0, 0, 0xffff, 0xc0a8, 1]), "::ffff:192.168.0.1");
    assert_eq!(ipv6_text(&[0x2001, 0xdb8, 0, 0, 1, 0, 0, 1]), "2001:db8::1:0:0:1");
    assert_eq!(ipv6_text(&[0, 1, 0, 0, 1, 0, 0, 0]), "0:1:0:0:1::");
    assert_eq!(ipv6_text(&[0, 0, 1, 0, 0, 0, 1, 0]), "0:0:1::1:0");
    assert_eq!(ipv6_text(&[0xfe80, 0, 0, 0, 0x202, 0xb3ff, 0xfe1e, 0x8329]), "fe80::202:b3ff:fe1e:8329");
    assert_eq!(ipv6_text(&[1, 2, 3, 4, 5, 6, 7, 8]), "1:2:3:4:5:6:7:8");
    assert_eq!(ipv6_text(&[0, 0, 0, 0, 0, 0xfffe, 1, 1]), "::fffe:1:1");
    assert_eq!(ipv6_text(&[0xffff; 8]), "ffff:ffff:ffff:ffff:ffff:ffff:ffff:ffff");
    assert_eq!(ipv6_text(&[0, 0xffff, 0, 0, 0, 0xffff, 1, 2]), "0:ffff::ffff:1:2");
    assert_eq!(ipv6_text(&[0, 0, 0, 0, 0xffff, 0, 1, 2]), "::ffff:0:1:2");
}

#[test]
fn peer_texts() {
    assert_eq!(peer_ip_text_of(&[0, 0, 0, 0, 0, 0xffff, 0x0102, 0x0304]), "1.2.3.4");
    assert_eq!(peer_ip_text_of(&[0, 0, 0, 0, 0, 0, 0xc0a8, 0x0001]), "192.168.0.1");
    assert_eq!(peer_ip_text_of(&[0x2001, 0xdb8, 0, 0, 0, 0, 0, 1]), "2001:db8::1");
    assert_eq!(ipv4_text_of(&[255, 0, 10, 100]), "255.0.10.100");
}

#[test]
fn dotted_quad_round_trip_on_concrete_values() {
    for ip in [[1u8, 2, 3, 4], [0, 0, 0, 0], [255, 255, 255, 255], [10, 0, 200, 7], [99, 100, 9, 10]] {
        assert_eq!(parse_ipv4(&ipv4_text_of(&ip)), Some(ip));
    }
}
