use wifi_link::ipv4::{parse_cidr, parse_ipv4, render_cidr, render_ipv4, Ipv4Addr, Ipv4Cidr};

fn addr(o0: u8, o1: u8, o2: u8, o3: u8) -> Ipv4Addr {
    Ipv4Addr { o0, o1, o2, o3 }
}

#[test]
fn static_cidr_round_trips() {
    let text = b"192.168.4.1/24";
    let parsed = parse_cidr(text).expect("canonical CIDR text must parse");
    assert_eq!(parsed.addr, addr(192, 168, 4, 1));
    assert_eq!(parsed.prefix_len, 24);
    let rendered = render_cidr(&parsed);
    assert_eq!(rendered, text.to_vec());
}

#[test]
fn gateway_round_trips() {
    let text = b"192.168.4.1";
    let parsed = parse_ipv4(text).expect("canonical address text must parse");
    assert_eq!(parsed, addr(192, 168, 4, 1));
    assert_eq!(render_ipv4(&parsed), text.to_vec());
}

#[test]
fn render_then_parse_is_identity() {
    let cases = [
        addr(0, 0, 0, 0),
        addr(255, 255, 255, 255),
        addr(10, 0, 200, 9),
        addr(1, 23, 45, 250),
    ];
    for a in cases {
        let text = render_ipv4(&a);
        assert_eq!(parse_ipv4(&text), Some(a));
    }
    for prefix_len in [0u8, 1, 9, 10, 24, 32] {
        let c = Ipv4Cidr { addr: addr(172, 16, 0, 254), prefix_len };
        let text = render_cidr(&c);
        assert_eq!(parse_cidr(&text), Some(c));
    }
}

#[test]
fn render_is_canonical_text() {
    assert_eq!(render_ipv4(&addr(0, 0, 0, 0)), b"0.0.0.0".to_vec());
    assert_eq!(render_ipv4(&addr(255, 1, 30, 9)), b"255.1.30.9".to_vec());
    let c = Ipv4Cidr { addr: addr(192, 168, 13, 37), prefix_len: 24 };
    assert_eq!(render_cidr(&c), b"192.168.13.37/24".to_vec());
}

#[test]
fn malformed_addresses_are_rejected() {
    let bad: &[&[u8]] = &[
        b"",
        b"192.168.4",
        b"192.168.4.1.5",
        b"192.168.4.",
        b".192.168.4.1",
        b"256.0.0.1",
        b"01.2.3.4",
        b"1.2.3.0004",
        b"192,168.4.1",
        b"192.168.4.1/24",
        b"a.b.c.d",
        b" 192.168.4.1",
    ];
    for text in bad {
        assert_eq!(parse_ipv4(text), None, "accepted {:?}", text);
    }
}

#[test]
fn malformed_cidr_is_rejected() {
    let bad: &[&[u8]] = &[
        b"",
        b"192.168.4.1",
        b"192.168.4.1/",
        b"192.168.4.1/33",
        b"192.168.4.1/024",
        b"192.168.4.1/256",
        b"192.168.4/24",
        b"192.168.4.1//24",
        b"/24",
    ];
    for text in bad {
        assert_eq!(parse_cidr(text), None, "accepted {:?}", text);
    }
}

#[test]
fn prefix_bounds_are_exact() {
    assert_eq!(
        parse_cidr(b"10.0.0.1/32").map(|c| c.prefix_len),
        Some(32)
    );
    assert_eq!(parse_cidr(b"10.0.0.1/0").map(|c| c.prefix_len), Some(0));
    assert_eq!(parse_cidr(b"10.0.0.1/33"), None);
}
