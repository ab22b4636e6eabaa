use beam_tunnel::base64::{base64_decode, base64_encode};
use beam_tunnel::context::SourceIp;
use beam_tunnel::net::{PeerAddr, RemoteAddr};
use beam_tunnel::p2p::{
    parse_token_info, punch_packet, Attempt, ConnectStage, ConnectionState, NextStep, P2PManager,
    TokenError,
};
use beam_tunnel::stun::{parse_stun_response, stun_binding_request};

fn addr(a: u8, b: u8, c: u8, d: u8, port: u16) -> PeerAddr {
    PeerAddr { ip: [a, b, c, d], port }
}

#[test]
fn base64_encodes_with_padding() {
    assert_eq!(base64_encode(""), "");
    assert_eq!(base64_encode("f"), "Zg==");
    assert_eq!(base64_encode("fo"), "Zm8=");
    assert_eq!(base64_encode("foo"), "Zm9v");
    assert_eq!(base64_encode("foob"), "Zm9vYg==");
    assert_eq!(base64_encode("fooba"), "Zm9vYmE=");
    assert_eq!(base64_encode("foobar"), "Zm9vYmFy");
    assert_eq!(base64_encode("beam-p2p:1.2.3.4:80"), "YmVhbS1wMnA6MS4yLjMuNDo4MA==");
    assert_eq!(base64_encode("\u{fb}\u{ff}"), "w7vDvw==");
    assert_eq!(base64_encode(">>>???"), "Pj4+Pz8/");
}

#[test]
fn base64_decodes_with_and_without_padding() {
    assert_eq!(base64_decode(""), b"");
    assert_eq!(base64_decode("Zg=="), b"f");
    assert_eq!(base64_decode("Zg"), b"f");
    assert_eq!(base64_decode("Zm8="), b"fo");
    assert_eq!(base64_decode("Zm9v"), b"foo");
    assert_eq!(base64_decode("Zm9vYmFy"), b"foobar");
    assert_eq!(base64_decode("Pj4+Pz8/"), b">>>???");
    assert_eq!(base64_decode("===="), b"");
    assert_eq!(base64_decode("Z"), b"");
}

#[test]
fn base64_decoding_skips_what_is_outside_the_alphabet() {
    // Within each four bytes, the bytes outside the alphabet are skipped.
    assert_eq!(base64_decode("Zm9*"), b"fo");
    assert_eq!(base64_decode("Z-8="), vec![0x67u8]);
    assert_eq!(base64_decode("****"), b"");
    // Padding in the middle is skipped like any other such byte.
    assert_eq!(base64_decode("Zg=a"), vec![102u8, 6]);
    assert_eq!(base64_decode("Zm9v\u{e9}g"), b"foo");
}

#[test]
fn base64_round_trips_any_text() {
    for text in [
        "", "a", "ab", "abc", "abcd", "hello world", "beam-p2p:203.0.113.7:4433",
        "\u{0}\u{1}\u{2}", "gr\u{fc}\u{df}e", "\u{1F600} emoji", "====", "a=b=c",
        "The quick brown fox jumps over the lazy dog",
    ] {
        assert_eq!(base64_decode(&base64_encode(text)), text.as_bytes(), "{:?}", text);
    }
    for len in 0..40usize {
        let text: String = (0..len).map(|i| (b'!' + (i as u8 * 7) % 90) as char).collect();
        assert_eq!(base64_decode(&base64_encode(&text)), text.as_bytes());
    }
}

#[test]
fn token_names_the_public_address_when_it_is_known() {
    let mut manager = P2PManager::new(4000);
    let local = manager.generate_connection_token();
    assert_eq!(local, base64_encode("beam-p2p:0.0.0.0:4000"));
    assert_eq!(P2PManager::parse_connection_token(&local), Ok(addr(0, 0, 0, 0, 4000)));

    manager.record_public_address(addr(203, 0, 113, 7, 51820));
    let public = manager.generate_connection_token();
    assert_eq!(public, base64_encode("beam-p2p:203.0.113.7:51820"));
    assert_eq!(P2PManager::parse_connection_token(&public), Ok(addr(203, 0, 113, 7, 51820)));
}

#[test]
fn token_round_trips_for_many_addresses() {
    for a in [
        addr(0, 0, 0, 0, 0), addr(255, 255, 255, 255, 65535), addr(1, 2, 3, 4, 80),
        addr(10, 0, 0, 1, 1), addr(100, 10, 1, 0, 10000), addr(9, 99, 199, 200, 9999),
    ] {
        let mut manager = P2PManager::new(1);
        manager.record_public_address(a);
        let token = manager.generate_connection_token();
        assert_eq!(P2PManager::parse_connection_token(&token), Ok(a));
    }
}

#[test]
fn token_errors_each_have_their_input() {
    let parse = |info: &str| P2PManager::parse_connection_token(&base64_encode(info));
    assert_eq!(parse("beam-p2p:1.2.3.4:80"), Ok(addr(1, 2, 3, 4, 80)));
    assert_eq!(parse("beam-p2q:1.2.3.4:80"), Err(TokenError::BadFormat));
    assert_eq!(parse("Beam-p2p:1.2.3.4:80"), Err(TokenError::BadFormat));
    assert_eq!(parse(""), Err(TokenError::BadFormat));
    assert_eq!(parse("beam-p2p:"), Err(TokenError::BadFormat));
    assert_eq!(parse("beam-p2p:1.2.3.4"), Err(TokenError::BadFormat));
    assert_eq!(parse("beam-p2p:1.2.3.4:80:90"), Err(TokenError::BadFormat));
    assert_eq!(parse("beam-p2p:::1:80"), Err(TokenError::BadFormat));
    assert_eq!(parse("beam-p2p:1.2.3:80"), Err(TokenError::BadAddress));
    assert_eq!(parse("beam-p2p:1.2.3.256:80"), Err(TokenError::BadAddress));
    assert_eq!(parse("beam-p2p:1.2.3.04:80"), Err(TokenError::BadAddress));
    assert_eq!(parse("beam-p2p:1.2.3.4.5:80"), Err(TokenError::BadAddress));
    assert_eq!(parse("beam-p2p:localhost:80"), Err(TokenError::BadAddress));
    assert_eq!(parse("beam-p2p: 1.2.3.4:80"), Err(TokenError::BadAddress));
    assert_eq!(parse("beam-p2p::80"), Err(TokenError::BadAddress));
    assert_eq!(parse("beam-p2p:1.2.3.4:"), Err(TokenError::BadPort));
    assert_eq!(parse("beam-p2p:1.2.3.4:65536"), Err(TokenError::BadPort));
    assert_eq!(parse("beam-p2p:1.2.3.4:http"), Err(TokenError::BadPort));
    assert_eq!(parse("beam-p2p:1.2.3.4:-1"), Err(TokenError::BadPort));
    assert_eq!(parse("beam-p2p:1.2.3.4:+80"), Ok(addr(1, 2, 3, 4, 80)));
    assert_eq!(parse("beam-p2p:1.2.3.4:0080"), Ok(addr(1, 2, 3, 4, 80)));
    assert_eq!(parse("beam-p2p:0.0.0.0:0"), Ok(addr(0, 0, 0, 0, 0)));
    // Bytes that are no UTF-8: 0xff 0xff.
    assert_eq!(P2PManager::parse_connection_token("//8="), Err(TokenError::NotUtf8));
    assert_eq!(P2PManager::parse_connection_token(""), Err(TokenError::BadFormat));
    assert_eq!(parse_token_info("beam-p2p:7.7.7.7:7"), Ok(addr(7, 7, 7, 7, 7)));
}

#[test]
fn connection_id_names_the_peer() {
    let peer = addr(192, 0, 2, 1, 7000);
    let first = P2PManager::connection_id(peer);
    let second = P2PManager::connection_id(peer);
    assert!(first.starts_with("p2p-192.0.2.1:7000-"));
    assert!(second.starts_with("p2p-192.0.2.1:7000-"));
    assert_eq!(first.len(), "p2p-192.0.2.1:7000-".len() + 36);
    assert_ne!(first, second);
    assert_eq!(P2PManager::connection_id_with("192.0.2.1:7000", "abc"), "p2p-192.0.2.1:7000-abc");
    assert_eq!(P2PManager::connection_id_with("[::1]:80", ""), "p2p-[::1]:80-");
    assert!(P2PManager::connection_id_for("[2001:db8::1]:443").starts_with("p2p-[2001:db8::1]:443-"));
}

#[test]
fn peers_of_either_family_are_kept() {
    let mut manager = P2PManager::new(4000);
    let v6 = RemoteAddr { ip: SourceIp::V6([0x2001, 0xdb8, 0, 0, 0, 0, 0, 1]), port: 443 };
    match manager.after_attempt("six", v6, ConnectStage::Direct, Attempt::Reached(9)) {
        NextStep::Established(c) => {
            assert_eq!(c.remote_addr, v6);
            assert_eq!(c.conn_id, "six");
        }
        _ => panic!("the connection should stand"),
    }
    manager.after_attempt("four", addr(1, 2, 3, 4, 5).as_remote(), ConnectStage::Direct, Attempt::Reached(1));
    assert_eq!(manager.active_connections(), 2);
    assert_eq!(addr(1, 2, 3, 4, 5).as_remote(), RemoteAddr { ip: SourceIp::V4([1, 2, 3, 4]), port: 5 });
}

#[test]
fn direct_connection_is_stored_and_counted() {
    let mut manager = P2PManager::new(4000);
    let peer = addr(192, 0, 2, 1, 7000);
    let step = manager.after_attempt("c1", peer.as_remote(), ConnectStage::Direct, Attempt::Reached(12));
    match step {
        NextStep::Established(c) => {
            assert_eq!(c.conn_id, "c1");
            assert_eq!(c.remote_addr, peer.as_remote());
            assert_eq!(c.rtt_ms, 12);
            assert_eq!(c.state, ConnectionState::Connected);
            assert_eq!(c.bytes_sent, 0);
            assert_eq!(c.bytes_received, 0);
        }
        _ => panic!("the connection should stand"),
    }
    assert_eq!(manager.active_connections(), 1);
    let stats = manager.get_stats();
    assert_eq!(stats.direct_connections, 1);
    assert_eq!(stats.nat_traversal_success, 0);
    assert_eq!(stats.nat_traversal_failed, 0);
    assert_eq!(stats.relayed_connections, 0);
}

#[test]
fn failed_direct_attempt_leads_to_hole_punching_only_behind_nat() {
    let peer = addr(192, 0, 2, 1, 7000);
    let mut open = P2PManager::new(4000);
    assert!(matches!(
        open.after_attempt("c", peer.as_remote(), ConnectStage::Direct, Attempt::Unreachable),
        NextStep::GiveUp
    ));

    // The local address is 0.0.0.0: the same public address means no NAT.
    let mut same = P2PManager::new(4000);
    same.record_public_address(addr(0, 0, 0, 0, 9));
    assert!(matches!(
        same.after_attempt("c", peer.as_remote(), ConnectStage::Direct, Attempt::Unreachable),
        NextStep::GiveUp
    ));

    let mut natted = P2PManager::new(4000);
    natted.record_public_address(addr(203, 0, 113, 7, 51820));
    assert!(matches!(
        natted.after_attempt("c", peer.as_remote(), ConnectStage::Direct, Attempt::Unreachable),
        NextStep::TryHolePunch
    ));
    assert_eq!(natted.get_stats().nat_traversal_failed, 0);
    assert!(matches!(
        natted.after_attempt("c", peer.as_remote(), ConnectStage::HolePunch, Attempt::Unreachable),
        NextStep::GiveUp
    ));
    assert_eq!(natted.get_stats().nat_traversal_failed, 1);
    assert_eq!(natted.active_connections(), 0);
    assert!(matches!(
        natted.after_attempt("c", peer.as_remote(), ConnectStage::HolePunch, Attempt::Reached(40)),
        NextStep::Established(_)
    ));
    let stats = natted.get_stats();
    assert_eq!(stats.nat_traversal_success, 1);
    assert_eq!(stats.direct_connections, 1);
    assert_eq!(natted.active_connections(), 1);
}

#[test]
fn connections_are_kept_by_id() {
    let mut manager = P2PManager::new(4000);
    let peer = addr(192, 0, 2, 1, 7000);
    manager.after_attempt("a", peer.as_remote(), ConnectStage::Direct, Attempt::Reached(1));
    manager.after_attempt("b", peer.as_remote(), ConnectStage::Direct, Attempt::Reached(2));
    manager.after_attempt("a", peer.as_remote(), ConnectStage::Direct, Attempt::Reached(3));
    assert_eq!(manager.active_connections(), 2);
    manager.close_connection("missing");
    assert_eq!(manager.active_connections(), 2);
    manager.close_connection("a");
    assert_eq!(manager.active_connections(), 1);
    manager.close_connection("a");
    assert_eq!(manager.active_connections(), 1);
    manager.shutdown();
    assert_eq!(manager.active_connections(), 0);
    assert_eq!(manager.get_stats().direct_connections, 3);
}

#[test]
fn new_manager_knows_four_stun_servers() {
    let manager = P2PManager::new(4000);
    assert_eq!(
        manager.stun_servers(),
        &vec![
            "stun.l.google.com:19302".to_string(),
            "stun1.l.google.com:19302".to_string(),
            "stun2.l.google.com:19302".to_string(),
            "stun.cloudflare.com:3478".to_string(),
        ]
    );
}

#[test]
fn stun_request_is_a_binding_request() {
    let request = stun_binding_request();
    assert_eq!(&request[..8], &[0x00, 0x01, 0x00, 0x00, 0x21, 0x12, 0xA4, 0x42]);
    assert_eq!(&request[8..], &[1, 2, 3, 4, 5, 6, 7, 8, 9, 10, 11, 12]);
}

fn stun_response(attributes: &[u8]) -> Vec<u8> {
    let mut message = vec![0x01, 0x01, 0x00, attributes.len() as u8, 0x21, 0x12, 0xA4, 0x42];
    message.extend_from_slice(&[1, 2, 3, 4, 5, 6, 7, 8, 9, 10, 11, 12]);
    message.extend_from_slice(attributes);
    message
}

fn mapped(ip: [u8; 4], port: u16) -> Vec<u8> {
    let p = port ^ 0x2112;
    vec![
        0x00, 0x20, 0x00, 0x08, 0x00, 0x01, (p >> 8) as u8, p as u8, ip[0] ^ 0x21, ip[1] ^ 0x12,
        ip[2] ^ 0xA4, ip[3] ^ 0x42,
    ]
}

#[test]
fn stun_response_reports_the_mapped_address() {
    assert_eq!(
        parse_stun_response(&stun_response(&mapped([203, 0, 113, 7], 51820))),
        Some(addr(203, 0, 113, 7, 51820))
    );
    assert_eq!(
        parse_stun_response(&stun_response(&mapped([0, 0, 0, 0], 0))),
        Some(addr(0, 0, 0, 0, 0))
    );
    assert_eq!(
        parse_stun_response(&stun_response(&mapped([255, 255, 255, 255], 65535))),
        Some(addr(255, 255, 255, 255, 65535))
    );
}

#[test]
fn stun_response_skips_other_attributes() {
    // A software attribute of five bytes is filled up to eight.
    let mut attributes = vec![0x80, 0x22, 0x00, 0x05, b'h', b'e', b'l', b'l', b'o', 0, 0, 0];
    attributes.extend_from_slice(&mapped([198, 51, 100, 2], 3478));
    assert_eq!(
        parse_stun_response(&stun_response(&attributes)),
        Some(addr(198, 51, 100, 2, 3478))
    );
    // A mapped address of another family is passed over.
    let mut v6 = vec![0x00, 0x20, 0x00, 0x14, 0x00, 0x02];
    v6.extend_from_slice(&[0u8; 18]);
    v6.extend_from_slice(&mapped([198, 51, 100, 3], 1));
    assert_eq!(parse_stun_response(&stun_response(&v6)), Some(addr(198, 51, 100, 3, 1)));
}

#[test]
fn stun_response_without_an_address() {
    assert_eq!(parse_stun_response(&[]), None);
    assert_eq!(parse_stun_response(&stun_response(&[])), None);
    assert_eq!(parse_stun_response(&stun_binding_request()), None);
    // An error response.
    let mut error = stun_response(&mapped([1, 2, 3, 4], 5));
    error[1] = 0x11;
    assert_eq!(parse_stun_response(&error), None);
    // The attribute runs off the end.
    let whole = stun_response(&mapped([1, 2, 3, 4], 5));
    assert_eq!(parse_stun_response(&whole[..whole.len() - 1]), None);
    assert_eq!(parse_stun_response(&whole[..25]), None);
    assert_eq!(parse_stun_response(&whole[..24]), None);
    // The value of another attribute runs off the end.
    assert_eq!(parse_stun_response(&stun_response(&[0x80, 0x22, 0xff, 0xff, 0, 0, 0, 0])), None);
    // Too short a value for an address.
    assert_eq!(
        parse_stun_response(&stun_response(&[0x00, 0x20, 0x00, 0x04, 0x00, 0x01, 0, 0, 0, 0, 0, 0])),
        None
    );
}

#[test]
fn punch_packets_are_numbered() {
    assert_eq!(punch_packet(0), "beam-punch-0");
    assert_eq!(punch_packet(4), "beam-punch-4");
    assert_eq!(punch_packet(u32::MAX), "beam-punch-4294967295");
}
