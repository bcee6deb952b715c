use mira::stun::{binding_request, parse_binding_response, transaction_id};

fn reply(txid: &[u8], attrs: &[u8]) -> Vec<u8> {
    let mut r = vec![0x01, 0x01, (attrs.len() >> 8) as u8, attrs.len() as u8, 0x21, 0x12, 0xA4, 0x42];
    r.extend_from_slice(txid);
    r.extend_from_slice(attrs);
    r
}

#[test]
fn transaction_id_is_the_port_then_zeros() {
    let t = transaction_id(0x1234);
    assert_eq!(t, vec![0x12, 0x34, 0, 0, 0, 0, 0, 0, 0, 0, 0, 0]);
}

#[test]
fn binding_request_layout() {
    let t = transaction_id(50000);
    let req = binding_request(&t);
    assert_eq!(req.len(), 20);
    assert_eq!(&req[0..8], &[0x00, 0x01, 0x00, 0x00, 0x21, 0x12, 0xA4, 0x42]);
    assert_eq!(&req[8..20], &t[..]);
}

#[test]
fn reads_xor_mapped_address() {
    let t = transaction_id(4000);
    // 203.0.113.5 port 54321, masked with the cookie
    let port: u16 = 54321 ^ 0x2112;
    let attrs = [
        0x00, 0x20, 0x00, 0x08, 0x00, 0x01, (port >> 8) as u8, port as u8,
        203 ^ 0x21, 0 ^ 0x12, 113 ^ 0xA4, 5 ^ 0x42,
    ];
    let r = reply(&t, &attrs);
    let m = parse_binding_response(&r, &t).expect("address");
    assert_eq!(m.ip, [203, 0, 113, 5]);
    assert_eq!(m.port, 54321);
}

#[test]
fn skips_other_attributes_with_padding() {
    let t = transaction_id(1);
    let port: u16 = 80 ^ 0x2112;
    let mut attrs = vec![0x80, 0x22, 0x00, 0x05, b'a', b'b', b'c', b'd', b'e', 0, 0, 0];
    attrs.extend_from_slice(&[0x00, 0x20, 0x00, 0x08, 0x00, 0x01, (port >> 8) as u8, port as u8, 10 ^ 0x21, 0 ^ 0x12, 0 ^ 0xA4, 1 ^ 0x42]);
    let r = reply(&t, &attrs);
    let m = parse_binding_response(&r, &t).expect("address");
    assert_eq!(m.ip, [10, 0, 0, 1]);
    assert_eq!(m.port, 80);
}

#[test]
fn refuses_foreign_or_short_replies() {
    let t = transaction_id(1);
    let other = transaction_id(2);
    let attrs = [0x00, 0x20, 0x00, 0x08, 0x00, 0x01, 0, 0, 0, 0, 0, 0];
    assert!(parse_binding_response(&reply(&other, &attrs), &t).is_none());
    assert!(parse_binding_response(&[0u8; 10], &t).is_none());
    let mut bad_cookie = reply(&t, &attrs);
    bad_cookie[4] = 0;
    assert!(parse_binding_response(&bad_cookie, &t).is_none());
    // attribute length running past the end of the message
    let mut long = reply(&t, &attrs);
    long[3] = 40;
    assert!(parse_binding_response(&long, &t).is_none());
}

#[test]
fn ipv6_mapping_is_not_read() {
    let t = transaction_id(1);
    let attrs = [0x00, 0x20, 0x00, 0x08, 0x00, 0x02, 0, 0, 0, 0, 0, 0];
    assert!(parse_binding_response(&reply(&t, &attrs), &t).is_none());
}

#[test]
fn mapping_cut_before_its_family_gives_nothing() {
    let t = transaction_id(1);
    let attrs = [0x00, 0x20, 0x00, 0x08, 0x00];
    let r = reply(&t, &attrs);
    assert!(parse_binding_response(&r, &t).is_none());
}

#[test]
fn mapping_cut_before_its_address_gives_nothing() {
    let t = transaction_id(1);
    let attrs = [0x00, 0x20, 0x00, 0x08, 0x00, 0x01];
    assert!(parse_binding_response(&reply(&t, &attrs), &t).is_none());
    let attrs = [0x00, 0x20, 0x00, 0x08, 0x00, 0x01, 0x00, 0x50];
    assert!(parse_binding_response(&reply(&t, &attrs), &t).is_none());
}
