use socks_tunnel::auth::{AuthOutcome, AuthStatus, Authenticator};
use socks_tunnel::codec::{
    socks_addr_type, socks_read_address, socks_write_address, AddrData, AddrType, CmdType, Parsed,
    Reserved, SocksVersion, Target,
};
use socks_tunnel::config::{
    require_connect, LocalConfig, RemoteConfig, SessionError, TlsConfig, TlsPolicy,
};
use socks_tunnel::relay::{copy_step, CopyAction, RELAY_BUFFER_SIZE};
use socks_tunnel::resolve::{host_port, resolve_addr, Resolution, RetryAction, RetryState, DNS_RETRIES};
use socks_tunnel::socks::{
    socks_handshake, socks_request, socks_request_reply, tunnel_header, tunnel_request,
};

fn encoded(addr: &AddrData, port: u16) -> Vec<u8> {
    let mut out = Vec::new();
    socks_write_address(&mut out, addr, port);
    out
}

#[test]
fn ipv4_address_round_trip() {
    let addr = AddrData::IPv4([93, 184, 216, 34]);
    let bytes = encoded(&addr, 80);
    assert_eq!(bytes, vec![93, 184, 216, 34, 0, 80]);
    assert_eq!(
        socks_read_address(AddrType::IPv4, &bytes),
        Parsed::Done((addr, 80), 6)
    );
}

#[test]
fn domain_address_round_trip() {
    let addr = AddrData::DomainName("example.com".to_string());
    let mut bytes = encoded(&addr, 443);
    assert_eq!(bytes[0], 11);
    assert_eq!(&bytes[1..12], b"example.com");
    assert_eq!(&bytes[12..], &[1, 187]);
    bytes.extend_from_slice(&[9, 9, 9]);
    assert_eq!(
        socks_read_address(AddrType::DomainName, &bytes),
        Parsed::Done((addr, 443), 14)
    );
}

#[test]
fn domain_address_non_ascii_round_trip() {
    let addr = AddrData::DomainName("bücher.de".to_string());
    let bytes = encoded(&addr, 65535);
    assert_eq!(bytes[0], 10);
    assert_eq!(
        socks_read_address(AddrType::DomainName, &bytes),
        Parsed::Done((addr, 65535), 13)
    );
}

#[test]
fn empty_domain_round_trip() {
    let addr = AddrData::DomainName(String::new());
    let bytes = encoded(&addr, 0);
    assert_eq!(bytes, vec![0, 0, 0]);
    assert_eq!(
        socks_read_address(AddrType::DomainName, &bytes),
        Parsed::Done((addr, 0), 3)
    );
}

#[test]
fn longest_domain_round_trip() {
    let name = "a".repeat(255);
    let addr = AddrData::DomainName(name);
    let bytes = encoded(&addr, 8080);
    assert_eq!(bytes.len(), 258);
    assert_eq!(bytes[0], 255);
    assert_eq!(
        socks_read_address(AddrType::DomainName, &bytes),
        Parsed::Done((addr, 8080), 258)
    );
}

#[test]
fn address_needs_more_bytes() {
    assert_eq!(socks_read_address(AddrType::IPv4, &[1, 2, 3]), Parsed::Incomplete(3));
    assert_eq!(socks_read_address(AddrType::DomainName, &[]), Parsed::Incomplete(1));
    assert_eq!(socks_read_address(AddrType::DomainName, &[4, b'a']), Parsed::Incomplete(5));
}

#[test]
fn domain_with_bad_utf8_is_invalid() {
    assert_eq!(
        socks_read_address(AddrType::DomainName, &[2, 0xff, 0xfe, 0, 80]),
        Parsed::Invalid
    );
}

#[test]
fn enum_bytes() {
    assert_eq!(SocksVersion::from_u8(5), Some(SocksVersion::V5));
    assert_eq!(SocksVersion::from_u8(4), None);
    assert_eq!(SocksVersion::V5.as_u8(), 5);
    assert_eq!(Reserved::from_u8(0), Some(Reserved::ZeroByte));
    assert_eq!(Reserved::from_u8(1), None);
    assert_eq!(CmdType::from_u8(1), Some(CmdType::Connect));
    assert_eq!(CmdType::from_u8(3), Some(CmdType::UdpAssociate));
    assert_eq!(CmdType::from_u8(2), None);
    assert_eq!(CmdType::UdpAssociate.as_u8(), 3);
    assert_eq!(AddrType::from_u8(1), Some(AddrType::IPv4));
    assert_eq!(AddrType::from_u8(3), Some(AddrType::DomainName));
    assert_eq!(AddrType::from_u8(4), None);
    assert_eq!(AddrType::DomainName.as_u8(), 3);
    assert_eq!(socks_addr_type(&AddrData::IPv4([0; 4])), AddrType::IPv4);
    assert_eq!(socks_addr_type(&AddrData::DomainName("x".to_string())), AddrType::DomainName);
}

#[test]
fn handshake_selects_no_auth() {
    assert_eq!(socks_handshake(&[5, 1, 0]), Parsed::Done(vec![5, 0], 3));
    assert_eq!(socks_handshake(&[5, 3, 2, 1, 0, 7]), Parsed::Done(vec![5, 0], 5));
}

#[test]
fn handshake_rejects() {
    assert_eq!(socks_handshake(&[4, 1, 0]), Parsed::Invalid);
    assert_eq!(socks_handshake(&[5, 2, 1, 2]), Parsed::Invalid);
    assert_eq!(socks_handshake(&[5, 0]), Parsed::Invalid);
}

#[test]
fn handshake_needs_more_bytes() {
    assert_eq!(socks_handshake(&[]), Parsed::Incomplete(2));
    assert_eq!(socks_handshake(&[5]), Parsed::Incomplete(1));
    assert_eq!(socks_handshake(&[5, 3, 0]), Parsed::Incomplete(2));
}

#[test]
fn request_connect_ipv4() {
    let target = Target { addr: AddrData::IPv4([93, 184, 216, 34]), port: 80 };
    assert_eq!(
        socks_request(&[5, 1, 0, 1, 93, 184, 216, 34, 0, 80]),
        Parsed::Done((target, CmdType::Connect), 10)
    );
    assert_eq!(socks_request_reply(), vec![5, 0, 0, 1, 0, 0, 0, 0, 0, 0]);
}

#[test]
fn request_udp_associate_domain() {
    let target = Target { addr: AddrData::DomainName("ab".to_string()), port: 53 };
    assert_eq!(
        socks_request(&[5, 3, 0, 3, 2, b'a', b'b', 0, 53]),
        Parsed::Done((target, CmdType::UdpAssociate), 9)
    );
}

#[test]
fn request_rejects() {
    assert_eq!(socks_request(&[4, 1, 0, 1, 1, 2, 3, 4, 0, 80]), Parsed::Invalid);
    assert_eq!(socks_request(&[5, 2, 0, 1, 1, 2, 3, 4, 0, 80]), Parsed::Invalid);
    assert_eq!(socks_request(&[5, 1, 1, 1, 1, 2, 3, 4, 0, 80]), Parsed::Invalid);
    assert_eq!(socks_request(&[5, 1, 0, 4, 1, 2, 3, 4, 0, 80]), Parsed::Invalid);
    assert_eq!(socks_request(&[5, 1, 0]), Parsed::Incomplete(1));
    assert_eq!(socks_request(&[5, 1, 0, 1, 1, 2]), Parsed::Incomplete(4));
}

#[test]
fn tunnel_header_layout() {
    let target = Target { addr: AddrData::IPv4([93, 184, 216, 34]), port: 80 };
    assert_eq!(
        tunnel_header("pw", &target),
        vec![b'p', b'w', 13, 10, 1, 1, 93, 184, 216, 34, 0, 80]
    );
    let named = Target { addr: AddrData::DomainName("ab".to_string()), port: 443 };
    assert_eq!(
        tunnel_header("", &named),
        vec![13, 10, 1, 3, 2, b'a', b'b', 1, 187]
    );
}

#[test]
fn tunnel_request_parses_after_line() {
    let target = Target { addr: AddrData::DomainName("example.com".to_string()), port: 443 };
    let header = tunnel_header("secret", &target);
    assert_eq!(
        tunnel_request(&header[8..]),
        Parsed::Done((target, CmdType::Connect), header.len() - 8)
    );
    assert_eq!(tunnel_request(&[1]), Parsed::Incomplete(1));
    assert_eq!(tunnel_request(&[2, 1, 1, 2, 3, 4, 0, 80]), Parsed::Invalid);
    assert_eq!(tunnel_request(&[1, 2, 1, 2, 3, 4, 0, 80]), Parsed::Invalid);
}

#[test]
fn end_to_end_connect() {
    assert_eq!(socks_handshake(&[5, 1, 0]), Parsed::Done(vec![5, 0], 3));
    let (target, cmd) = match socks_request(&[5, 1, 0, 1, 93, 184, 216, 34, 0, 80]) {
        Parsed::Done(v, 10) => v,
        other => panic!("unexpected {:?}", other),
    };
    assert_eq!(require_connect(cmd), Ok(()));
    let header = tunnel_header("hunter2", &target);

    let mut auth = Authenticator::new("hunter2");
    let mut taken = 0;
    while auth.status() == AuthStatus::Matching {
        let n = auth.wanted().min(4);
        auth.on_bytes(&header[taken..taken + n]);
        taken += n;
    }
    assert_eq!(auth.status(), AuthStatus::Authenticated);
    assert_eq!(taken, 9);
    let (got, cmd) = match tunnel_request(&header[taken..]) {
        Parsed::Done(v, n) => {
            assert_eq!(taken + n, header.len());
            v
        },
        other => panic!("unexpected {:?}", other),
    };
    assert_eq!(cmd, CmdType::Connect);
    assert_eq!(resolve_addr(&got.addr, got.port), Resolution::Direct([93, 184, 216, 34], 80));
}

#[test]
fn auth_accepts_password_line() {
    let mut auth = Authenticator::new("abc");
    assert_eq!(auth.wanted(), 5);
    assert_eq!(auth.on_bytes(b"abc\r\n"), AuthStatus::Authenticated);
    assert_eq!(auth.captured(), b"abc\r\n");
}

#[test]
fn auth_departure_at_position_three_goes_to_decoy() {
    let mut auth = Authenticator::new("abcdef");
    let probe = b"GET / HTTP/1.1\r\n";
    let mut taken = 0;
    let mut status = AuthStatus::Matching;
    while status == AuthStatus::Matching {
        status = auth.on_bytes(&probe[taken..taken + 1]);
        taken += 1;
    }
    assert_eq!(status, AuthStatus::Disguised);
    assert_eq!(taken, 1);
    let mut auth = Authenticator::new("abcdef");
    let probe = b"abcXef\r\n";
    let mut taken = 0;
    let mut status = AuthStatus::Matching;
    while status == AuthStatus::Matching {
        status = auth.on_bytes(&probe[taken..taken + 1]);
        taken += 1;
    }
    assert_eq!(status, AuthStatus::Disguised);
    assert_eq!(taken, 4);
    assert_eq!(auth.captured(), b"abcX");
}

#[test]
fn auth_wrong_line_end_is_disguised_with_all_bytes() {
    let mut auth = Authenticator::new("pw");
    assert_eq!(auth.on_bytes(b"pw"), AuthStatus::Matching);
    assert_eq!(auth.on_bytes(b"\n\r"), AuthStatus::Disguised);
    assert_eq!(auth.captured(), b"pw\n\r");
}

#[test]
fn auth_chunk_with_departure_keeps_whole_chunk() {
    let mut auth = Authenticator::new("secret");
    assert_eq!(auth.on_bytes(b"sec"), AuthStatus::Matching);
    assert_eq!(auth.on_bytes(b"xyz"), AuthStatus::Disguised);
    assert_eq!(auth.captured(), b"secxyz");
}

#[test]
fn auth_end_of_stream_and_error_are_disguised() {
    let mut auth = Authenticator::new("secret");
    assert_eq!(auth.on_bytes(b"se"), AuthStatus::Matching);
    assert_eq!(auth.on_bytes(b""), AuthStatus::Disguised);
    assert_eq!(auth.captured(), b"se");
    let mut auth = Authenticator::new("secret");
    assert_eq!(auth.on_bytes(b"s"), AuthStatus::Matching);
    assert_eq!(auth.on_read_error(), AuthStatus::Disguised);
    assert_eq!(auth.status(), AuthStatus::Disguised);
    assert_eq!(auth.captured(), b"s");
}

#[test]
fn copy_steps() {
    assert_eq!(RELAY_BUFFER_SIZE, 4096);
    assert_eq!(copy_step(0), CopyAction::Finish);
    assert_eq!(copy_step(17), CopyAction::Forward(17));
    assert_eq!(copy_step(4096), CopyAction::Forward(4096));
}

#[test]
fn relay_ends_at_first_eof() {
    // One side sends 3 + 5 bytes and ends; the other keeps sending.
    let reads = [(true, 3usize), (false, 7), (true, 5), (false, 9), (true, 0), (false, 4)];
    let mut forwarded = 0;
    let mut finished = None;
    for (dir, n) in reads {
        match copy_step(n) {
            CopyAction::Forward(k) => {
                if dir {
                    forwarded += k;
                }
            },
            CopyAction::Finish => {
                finished = Some(dir);
                break;
            },
        }
    }
    assert_eq!(finished, Some(true));
    assert_eq!(forwarded, 8);
}

#[test]
fn host_port_text() {
    assert_eq!(host_port("example.com", 443), "example.com:443");
    assert_eq!(host_port("h", 0), "h:0");
    assert_eq!(host_port("", 65535), ":65535");
}

#[test]
fn resolve_domain_and_ipv4() {
    assert_eq!(
        resolve_addr(&AddrData::DomainName("example.com".to_string()), 8080),
        Resolution::Lookup("example.com:8080".to_string())
    );
    assert_eq!(
        resolve_addr(&AddrData::IPv4([10, 0, 0, 1]), 22),
        Resolution::Direct([10, 0, 0, 1], 22)
    );
}

#[test]
fn resolver_gives_up_after_six_attempts() {
    let mut state = RetryState::new(DNS_RETRIES);
    let mut attempts = 1;
    while state.on_failure() == RetryAction::Retry {
        attempts += 1;
    }
    assert_eq!(attempts, 6);
}

#[test]
fn resolver_succeeds_after_some_failures() {
    // Lookups fail twice and then succeed.
    let outcomes = [false, false, true];
    let mut state = RetryState::new(DNS_RETRIES);
    let mut attempts = 0;
    let mut ok = false;
    for &o in outcomes.iter() {
        attempts += 1;
        if o {
            ok = true;
            break;
        }
        if state.on_failure() == RetryAction::GiveUp {
            break;
        }
    }
    assert!(ok);
    assert_eq!(attempts, 3);
}

fn local() -> LocalConfig {
    LocalConfig {
        local_addr: "127.0.0.1".to_string(),
        local_port: 1080,
        password: "pw".to_string(),
        remote_addr: "203.0.113.5".to_string(),
        remote_host: "tunnel.example".to_string(),
        remote_port: 443,
        cert_file: Some("ca.pem".to_string()),
    }
}

#[test]
fn tls_config_from_local() {
    let cfg = TlsConfig::from_local(&local(), Some("PEM".to_string()));
    assert_eq!(cfg.password, "pw");
    assert_eq!(cfg.remote_addr, "203.0.113.5:443");
    assert_eq!(cfg.remote_host, "tunnel.example");
    assert_eq!(cfg.tls_policy(), TlsPolicy::PinnedUnchecked("PEM".to_string()));
    let plain = TlsConfig::from_local(&local(), None);
    assert_eq!(plain.tls_policy(), TlsPolicy::PlatformDefault);
    assert_eq!(local().listen_address(), "127.0.0.1:1080");
}

#[test]
fn remote_addresses() {
    let cfg = RemoteConfig {
        password: "pw".to_string(),
        remote_addr: "0.0.0.0".to_string(),
        remote_port: 443,
        web_addr: "127.0.0.1".to_string(),
        web_port: 8080,
        pfx: "id.pfx".to_string(),
        pfx_password: "x".to_string(),
    };
    assert_eq!(cfg.listen_address(), "0.0.0.0:443");
    assert_eq!(cfg.web_address(), "127.0.0.1:8080");
}

#[test]
fn only_connect_is_carried_out() {
    assert_eq!(require_connect(CmdType::Connect), Ok(()));
    assert_eq!(require_connect(CmdType::UdpAssociate), Err(SessionError::Unimplemented));
}

#[test]
fn auth_outcome_hands_captured_bytes_to_decoy() {
    let mut auth = Authenticator::new("secret");
    assert_eq!(auth.on_bytes(b"se"), AuthStatus::Matching);
    assert_eq!(auth.on_bytes(b"z"), AuthStatus::Disguised);
    assert_eq!(auth.outcome(), Some(AuthOutcome::Decoy(b"sez".to_vec())));
    let mut auth = Authenticator::new("ok");
    assert_eq!(auth.on_bytes(b"ok\r\n"), AuthStatus::Authenticated);
    assert_eq!(auth.outcome(), Some(AuthOutcome::Tunnel));
    let auth = Authenticator::new("ok");
    assert_eq!(auth.outcome(), None);
}
