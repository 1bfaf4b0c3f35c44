use tunnel_core::handshake::{
    check_ack, encode_with_token, parse, parse_with, Address, ConnectRequest, HandshakeError,
    Profile,
};
use tunnel_core::token::{encode, expected_hash, to_hex};

const PASSWORD_TOKEN: &str = "d63dc919e201d7bc4c825630d2cf25fdc93d4b2f0d46706d29038d01";

fn token() -> Vec<u8> {
    expected_hash("password")
}

fn frame(token: &[u8], cmd: u8, atype: u8, addr: &[u8], port: u16) -> Vec<u8> {
    let mut v = token.to_vec();
    v.extend_from_slice(&[0x0D, 0x0A, cmd, atype]);
    v.extend_from_slice(addr);
    v.extend_from_slice(&port.to_be_bytes());
    v.extend_from_slice(&[0x0D, 0x0A]);
    v
}

fn domain_addr(name: &str) -> Vec<u8> {
    let mut v = vec![name.len() as u8];
    v.extend_from_slice(name.as_bytes());
    v
}

#[test]
fn expected_hash_is_hex_sha224() {
    let t = token();
    assert_eq!(t.len(), 56);
    assert_eq!(t, PASSWORD_TOKEN.as_bytes().to_vec());
    assert_eq!(
        expected_hash(""),
        b"d14a028c2a3a2bc9476102bb288234c415a2b01f828ea62ac5b3e42f".to_vec()
    );
}

#[test]
fn hex_of_bytes() {
    assert_eq!(to_hex(&[0x00, 0x0f, 0xa5, 0xff]), b"000fa5ff".to_vec());
    assert_eq!(to_hex(&[]), Vec::<u8>::new());
}

#[test]
fn password_example_domain() {
    let data = frame(&token(), 1, 3, &domain_addr("example.com"), 443);
    let (req, used) = parse(&token(), &data).unwrap();
    assert_eq!(req.address, Address::Domain("example.com".to_string()));
    assert_eq!(req.port, 443);
    assert_eq!(used, data.len());
}

#[test]
fn round_trip_domain_and_ports() {
    for port in [0u16, 1, 443, 65535] {
        for addr in [
            Address::Domain("example.com".to_string()),
            Address::Domain(String::new()),
            Address::Domain("ünïcode.example".to_string()),
            Address::Ipv4([127, 0, 0, 1]),
            Address::Ipv4([255, 255, 255, 255]),
            Address::Ipv6([0x20, 0x01, 0x0d, 0xb8, 0, 0, 0, 0, 0, 0, 0, 0, 0, 0, 0, 1]),
        ] {
            let req = ConnectRequest { address: addr, port };
            let bytes = encode("password", &req).unwrap();
            let (back, used) = parse(&token(), &bytes).unwrap();
            assert_eq!(back, req);
            assert_eq!(used, bytes.len());
        }
    }
}

#[test]
fn round_trip_keeps_trailing_bytes() {
    let req = ConnectRequest { address: Address::Ipv4([10, 0, 0, 2]), port: 8080 };
    let mut bytes = encode_with_token(&token(), &req).unwrap();
    let n = bytes.len();
    bytes.extend_from_slice(b"GET / HTTP/1.1");
    let (back, used) = parse(&token(), &bytes).unwrap();
    assert_eq!(back, req);
    assert_eq!(used, n);
}

#[test]
fn encode_layout() {
    let req = ConnectRequest { address: Address::Ipv4([1, 2, 3, 4]), port: 0x1234 };
    let bytes = encode_with_token(b"tok", &req).unwrap();
    assert_eq!(bytes, vec![b't', b'o', b'k', 0x0D, 0x0A, 1, 1, 1, 2, 3, 4, 0x12, 0x34, 0x0D, 0x0A]);
}

#[test]
fn encode_refuses_long_domain() {
    let req = ConnectRequest { address: Address::Domain("a".repeat(256)), port: 80 };
    assert_eq!(encode("password", &req), Err(HandshakeError::MalformedAddress));
    let ok = ConnectRequest { address: Address::Domain("a".repeat(255)), port: 80 };
    assert!(encode("password", &ok).is_ok());
}

#[test]
fn single_byte_token_change_fails() {
    let good = frame(&token(), 1, 3, &domain_addr("example.com"), 443);
    for i in 0..56 {
        let mut bad = good.clone();
        bad[i] ^= 0x01;
        assert_eq!(parse(&token(), &bad), Err(HandshakeError::AuthenticationFailed));
        assert_eq!(parse(&token(), &bad[..56]), Err(HandshakeError::AuthenticationFailed));
    }
}

#[test]
fn short_domain_is_truncated() {
    let mut data = token();
    data.extend_from_slice(&[0x0D, 0x0A, 1, 3, 11]);
    data.extend_from_slice(b"exam");
    assert_eq!(parse(&token(), &data), Err(HandshakeError::TruncatedHandshake));
}

#[test]
fn unknown_address_types() {
    for atype in [0u8, 2, 5, 255] {
        let data = frame(&token(), 1, atype, &[1, 2, 3, 4], 80);
        assert_eq!(parse(&token(), &data), Err(HandshakeError::UnknownAddressType));
    }
}

#[test]
fn unsupported_command() {
    let data = frame(&token(), 2, 1, &[1, 2, 3, 4], 80);
    assert_eq!(parse(&token(), &data), Err(HandshakeError::UnsupportedCommand));
    let alt = frame(&token(), 3, 1, &[1, 2, 3, 4], 80);
    assert_eq!(parse(&token(), &alt), Err(HandshakeError::UnsupportedCommand));
    let profile = Profile { strict_delimiters: false, accept_alt_command: true };
    let (req, _) = parse_with(profile, &token(), &alt).unwrap();
    assert_eq!(req.address, Address::Ipv4([1, 2, 3, 4]));
}

#[test]
fn malformed_domain() {
    let data = frame(&token(), 1, 3, &[2, 0xff, 0xfe], 80);
    assert_eq!(parse(&token(), &data), Err(HandshakeError::MalformedAddress));
}

#[test]
fn every_short_prefix_is_truncated() {
    let data = frame(&token(), 1, 4, &[0u8; 16], 22);
    for n in 0..data.len() {
        assert_eq!(parse(&token(), &data[..n]), Err(HandshakeError::TruncatedHandshake));
    }
    assert!(parse(&token(), &data).is_ok());
}

#[test]
fn delimiters_lenient_and_strict() {
    let mut data = frame(&token(), 1, 1, &[8, 8, 8, 8], 53);
    data[56] = b'x';
    let n = data.len();
    data[n - 1] = b'y';
    assert!(parse(&token(), &data).is_ok());
    let strict = Profile { strict_delimiters: true, accept_alt_command: false };
    assert_eq!(parse_with(strict, &token(), &data), Err(HandshakeError::BadDelimiter));
    let good = frame(&token(), 1, 1, &[8, 8, 8, 8], 53);
    assert!(parse_with(strict, &token(), &good).is_ok());
}

#[test]
fn lean_profile() {
    let p = Profile::lean();
    assert!(!p.strict_delimiters);
    assert!(!p.accept_alt_command);
}

#[test]
fn acknowledgment() {
    assert_eq!(check_ack(&[0x0D, 0x0A]), Ok(()));
    assert_eq!(check_ack(&[0x0A, 0x0D]), Err(HandshakeError::HandshakeRejected));
    assert_eq!(check_ack(&[0x0D]), Err(HandshakeError::HandshakeRejected));
    assert_eq!(check_ack(&[0x0D, 0x0A, 0x00]), Err(HandshakeError::HandshakeRejected));
}

#[test]
fn expected_token_of_wrong_length_admits_nothing() {
    let good = frame(&token(), 1, 3, &domain_addr("example.com"), 443);
    assert_eq!(parse(&Vec::new(), &good), Err(HandshakeError::AuthenticationFailed));
    assert_eq!(parse(&token()[..55].to_vec(), &good), Err(HandshakeError::AuthenticationFailed));
    // A frame carrying no token at all is not accepted by an empty expected token.
    let bare = frame(&[], 1, 1, &[1, 2, 3, 4], 80);
    let mut padded = bare.clone();
    padded.extend_from_slice(&[0u8; 56]);
    assert_eq!(parse(&Vec::new(), &padded), Err(HandshakeError::AuthenticationFailed));
    assert_eq!(parse(&Vec::new(), &bare), Err(HandshakeError::TruncatedHandshake));
}

#[test]
fn unknown_type_and_short_domain_with_other_delimiters() {
    let mut data = token();
    data.extend_from_slice(&[b'?', b'!', 1, 9, 1, 2, 3, 4, 0, 80, 0x0D, 0x0A]);
    assert_eq!(parse(&token(), &data), Err(HandshakeError::UnknownAddressType));
    let mut short = token();
    short.extend_from_slice(&[0, 0, 1, 3, 5, b'a', b'b']);
    assert_eq!(parse(&token(), &short), Err(HandshakeError::TruncatedHandshake));
}
