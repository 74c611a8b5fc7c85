use samp_query::client::{
    client_list_from_response, info_from_response, ping_from_response, rcon_from_response,
    rules_from_response, Action, ClientConfig, Outcome, Retry,
};
use samp_query::decode::{
    check_ping, decode_client_list, decode_detailed_player_info, decode_info, decode_rcon,
    decode_rules,
};
use samp_query::error::http_status;
use samp_query::packet::{
    build_ping_request, build_ping_request_with, build_rcon_request, build_request,
    validate_and_strip,
};
use samp_query::reader::{read_i32_le, read_str_u16_le, read_str_u32_le, read_str_u8, read_u16_le};
use samp_query::{
    ArgumentFault, Error, IpAddress, QueryType, ResponseFault, ServerAddr, ServerRules,
};

const ALL_KINDS: [QueryType; 6] = [
    QueryType::Information,
    QueryType::Rules,
    QueryType::ClientList,
    QueryType::DetailedPlayerInfo,
    QueryType::Ping,
    QueryType::Rcon,
];

fn local() -> ServerAddr {
    ServerAddr { ip: IpAddress::V4(127, 0, 0, 1), port: 7777 }
}

fn with_header(kind: u8, payload: &[u8]) -> Vec<u8> {
    let mut d = vec![b'S', b'A', b'M', b'P', 127, 0, 0, 1, 0x61, 0x1e, kind];
    d.extend_from_slice(payload);
    d
}

fn str32(s: &str) -> Vec<u8> {
    let mut v = (s.len() as u32).to_le_bytes().to_vec();
    v.extend_from_slice(s.as_bytes());
    v
}

fn str8(s: &str) -> Vec<u8> {
    let mut v = vec![s.len() as u8];
    v.extend_from_slice(s.as_bytes());
    v
}

#[test]
fn test_query_types() {
    assert_eq!(QueryType::Information.opcode(), b'i');
    assert_eq!(QueryType::Rules.opcode(), b'r');
    assert_eq!(QueryType::ClientList.opcode(), b'c');
    assert_eq!(QueryType::DetailedPlayerInfo.opcode(), b'd');
    assert_eq!(QueryType::Ping.opcode(), b'p');
    assert_eq!(QueryType::Rcon.opcode(), b'x');

    assert_eq!(QueryType::from_opcode(b'i'), Some(QueryType::Information));
    assert_eq!(QueryType::from_opcode(b'r'), Some(QueryType::Rules));
    assert_eq!(QueryType::from_opcode(b'c'), Some(QueryType::ClientList));
    assert_eq!(QueryType::from_opcode(b'd'), Some(QueryType::DetailedPlayerInfo));
    assert_eq!(QueryType::from_opcode(b'p'), Some(QueryType::Ping));
    assert_eq!(QueryType::from_opcode(b'x'), Some(QueryType::Rcon));
    assert_eq!(QueryType::from_opcode(b'z'), None);
}

#[test]
fn opcode_round_trip_every_kind() {
    for k in ALL_KINDS {
        assert_eq!(QueryType::from_opcode(k.opcode()), Some(k));
        assert_eq!(k.opcode_char() as u32, k.opcode() as u32);
    }
}

#[test]
fn opcodes_are_distinct() {
    for (i, a) in ALL_KINDS.iter().enumerate() {
        for (j, b) in ALL_KINDS.iter().enumerate() {
            assert_eq!(a.opcode() == b.opcode(), i == j);
        }
    }
}

#[test]
fn kind_names() {
    assert_eq!(QueryType::ClientList.name(), "Client List");
    assert_eq!(QueryType::DetailedPlayerInfo.name(), "Detailed Player Info");
    assert_eq!(QueryType::Rcon.name(), "RCON");
}

#[test]
fn request_header_layout() {
    let b = build_request(&local(), QueryType::Information).unwrap();
    assert_eq!(b, vec![b'S', b'A', b'M', b'P', 127, 0, 0, 1, 0x61, 0x1e, b'i']);
    let peer = ServerAddr { ip: IpAddress::V4(10, 20, 30, 40), port: 0xABCD };
    for k in ALL_KINDS {
        let b = build_request(&peer, k).unwrap();
        assert_eq!(b.len(), 11);
        assert_eq!(&b[0..4], b"SAMP");
        assert_eq!(&b[4..8], &[10, 20, 30, 40]);
        assert_eq!(&b[8..10], &[0xCD, 0xAB]);
        assert_eq!(b[10], k.opcode());
    }
}

#[test]
fn request_to_ipv6_is_unsupported() {
    let peer = ServerAddr { ip: IpAddress::V6(1), port: 7777 };
    assert!(matches!(build_request(&peer, QueryType::Rules), Err(Error::UnsupportedAddress)));
    assert!(matches!(build_ping_request(&peer), Err(Error::UnsupportedAddress)));
}

#[test]
fn rcon_request_layout() {
    let b = build_rcon_request(&local(), "pw", "say hi").unwrap();
    let mut expected = with_header(b'x', &[]);
    expected.extend_from_slice(&[2, 0, b'p', b'w', 6, 0]);
    expected.extend_from_slice(b"say hi");
    assert_eq!(b, expected);
}

#[test]
fn rcon_request_limits() {
    let pw255 = "a".repeat(255);
    let pw256 = "a".repeat(256);
    let cmd1024 = "c".repeat(1024);
    let cmd1025 = "c".repeat(1025);
    assert_eq!(build_rcon_request(&local(), &pw255, &cmd1024).unwrap().len(), 11 + 2 + 255 + 2 + 1024);
    assert!(matches!(
        build_rcon_request(&local(), &pw256, "x"),
        Err(Error::InvalidArgument(ArgumentFault::PasswordTooLong))
    ));
    assert!(matches!(
        build_rcon_request(&local(), "pw", &cmd1025),
        Err(Error::InvalidArgument(ArgumentFault::CommandTooLong))
    ));
}

#[test]
fn ping_request_carries_nonce() {
    let b = build_ping_request_with(&local(), [0xAA, 0xBB, 0xCC, 0xDD]).unwrap();
    assert_eq!(b, with_header(b'p', &[0xAA, 0xBB, 0xCC, 0xDD]));
    let (b, nonce) = build_ping_request(&local()).unwrap();
    assert_eq!(b.len(), 15);
    assert_eq!(&b[11..15], &nonce);
    assert_eq!(b[10], b'p');
}

#[test]
fn strip_accepts_valid_header() {
    let d = with_header(b'z', &[1, 2, 3]);
    assert_eq!(validate_and_strip(&d).unwrap(), vec![1, 2, 3]);
    assert_eq!(validate_and_strip(&d[0..11]).unwrap(), Vec::<u8>::new());
}

#[test]
fn strip_rejects_short_and_bad_magic() {
    let d = with_header(b'i', &[]);
    assert!(matches!(
        validate_and_strip(&d[0..10]),
        Err(Error::InvalidResponse(ResponseFault::TooShort))
    ));
    let mut bad = d.clone();
    bad[3] = b'Q';
    assert!(matches!(
        validate_and_strip(&bad),
        Err(Error::InvalidResponse(ResponseFault::BadMagic))
    ));
}

#[test]
fn information_decode() {
    let mut p = vec![0x00, 0x05, 0x00, 0x32, 0x00];
    p.extend(str32("Test Server"));
    p.extend(str32("Freeroam"));
    p.extend(str32("English"));
    let info = decode_info(&p).unwrap();
    assert!(!info.password);
    assert_eq!(info.players, 5);
    assert_eq!(info.max_players, 50);
    assert_eq!(info.hostname, "Test Server");
    assert_eq!(info.gamemode, "Freeroam");
    assert_eq!(info.language, "English");
}

#[test]
fn information_from_datagram_ignores_trailing_bytes() {
    let mut p = vec![0x01, 0x05, 0x00, 0x32, 0x00];
    p.extend(str32("Test Server"));
    p.extend(str32("Freeroam"));
    p.extend(str32("English"));
    p.extend_from_slice(&[9, 9, 9]);
    let info = info_from_response(&with_header(b'i', &p)).unwrap();
    assert!(info.password);
    assert_eq!(info.language, "English");
}

#[test]
fn information_short_payload() {
    assert!(matches!(decode_info(&[0x00, 0x05]), Err(Error::ShortRead)));
    let mut p = vec![0x00, 0x05, 0x00, 0x32, 0x00];
    p.extend_from_slice(&[5, 0, 0, 0, b'a']);
    assert!(matches!(decode_info(&p), Err(Error::ShortRead)));
}

#[test]
fn rules_decode() {
    let mut p = vec![0x02, 0x00];
    p.extend(str8("weather"));
    p.extend(str8("1"));
    p.extend(str8("time"));
    p.extend(str8("12"));
    let rules = decode_rules(&p).unwrap();
    assert_eq!(rules.len(), 2);
    assert_eq!(rules.get(&"weather".to_string()).unwrap(), "1");
    assert_eq!(rules.get(&"time".to_string()).unwrap(), "12");
    assert!(rules.get(&"mapname".to_string()).is_none());
}

#[test]
fn rules_later_duplicate_overwrites() {
    let mut p = vec![0x02, 0x00];
    p.extend(str8("time"));
    p.extend(str8("1"));
    p.extend(str8("time"));
    p.extend(str8("2"));
    let rules = rules_from_response(&with_header(b'r', &p)).unwrap();
    assert_eq!(rules.len(), 1);
    assert_eq!(rules.get(&"time".to_string()).unwrap(), "2");
}

#[test]
fn rules_count_larger_than_payload() {
    let mut p = vec![0x02, 0x00];
    p.extend(str8("weather"));
    p.extend(str8("1"));
    assert!(matches!(decode_rules(&p), Err(Error::ShortRead)));
}

#[test]
fn client_list_decode() {
    let mut p = vec![0x01, 0x00];
    p.extend(str8("Alice"));
    p.extend_from_slice(&[0x2A, 0, 0, 0]);
    let list = decode_client_list(&p).unwrap();
    assert_eq!(list.players.len(), 1);
    assert_eq!(list.players[0].name, "Alice");
    assert_eq!(list.players[0].score, 42);
}

#[test]
fn client_list_negative_score() {
    let mut p = vec![0x01, 0x00];
    p.extend(str8("Bob"));
    p.extend_from_slice(&[0xFF, 0xFF, 0xFF, 0xFF]);
    let list = client_list_from_response(&with_header(b'c', &p)).unwrap();
    assert_eq!(list.players[0].score, -1);
}

#[test]
fn detailed_player_info_decode() {
    let mut p = vec![0x01, 0x00, 0x07];
    p.extend(str8("Alice"));
    p.extend_from_slice(&[0x2A, 0, 0, 0, 0x19, 0, 0, 0]);
    let list = decode_detailed_player_info(&p).unwrap();
    assert_eq!(list.players.len(), 1);
    let pl = &list.players[0];
    assert_eq!(pl.id, 7);
    assert_eq!(pl.name, "Alice");
    assert_eq!(pl.score, 42);
    assert_eq!(pl.ping, 25);
}

#[test]
fn zero_counts_give_empty_collections() {
    assert_eq!(decode_rules(&[0, 0]).unwrap().len(), 0);
    assert!(decode_client_list(&[0, 0]).unwrap().players.is_empty());
    assert!(decode_detailed_player_info(&[0, 0]).unwrap().players.is_empty());
}

#[test]
fn ping_mismatch() {
    let nonce = [0xAA, 0xBB, 0xCC, 0xDD];
    let d = with_header(b'p', &[0xAA, 0xBB, 0xCC, 0xDE]);
    match ping_from_response(&d, &nonce, 12) {
        Err(Error::InvalidResponse(f)) => {
            assert_eq!(f, ResponseFault::PingMismatch);
            assert_eq!(f.reason(), "Invalid ping response");
        },
        other => panic!("unexpected {:?}", other),
    }
}

#[test]
fn ping_match_reports_elapsed() {
    let nonce = [0xAA, 0xBB, 0xCC, 0xDD];
    let d = with_header(b'p', &nonce);
    assert_eq!(ping_from_response(&d, &nonce, 37).unwrap().ping_ms, 37);
    assert!(check_ping(&[0xAA, 0xBB, 0xCC], &nonce).is_err());
}

#[test]
fn timeout_after_three_attempts() {
    let config = ClientConfig { timeout_ms: 100, max_retries: 3 };
    let (mut state, mut action) = Retry::start(&config);
    let mut sends = 0;
    let err = loop {
        match action {
            Action::Send => {
                sends += 1;
                action = state.on_outcome(Outcome::TimedOut);
            },
            Action::Finish(r) => break r.unwrap_err(),
        }
    };
    assert_eq!(sends, 3);
    assert!(err.is_timeout());
}

#[test]
fn zero_attempts_time_out_at_once() {
    let config = ClientConfig { timeout_ms: 100, max_retries: 0 };
    let (_, action) = Retry::start(&config);
    assert!(matches!(action, Action::Finish(Err(Error::Timeout))));
}

#[test]
fn reply_and_failures_end_the_exchange() {
    let config = ClientConfig::default();
    assert_eq!(config.timeout_ms, 1000);
    assert_eq!(config.max_retries, 3);
    let (mut state, _) = Retry::start(&config);
    assert!(matches!(state.on_outcome(Outcome::TimedOut), Action::Send));
    match state.on_outcome(Outcome::Received(vec![1, 2])) {
        Action::Finish(Ok(b)) => assert_eq!(b, vec![1, 2]),
        other => panic!("unexpected {:?}", other),
    }
    assert!(matches!(
        state.on_outcome(Outcome::SendFailed("down".to_string())),
        Action::Finish(Err(Error::Send(_)))
    ));
    assert!(matches!(
        state.on_outcome(Outcome::ReceiveFailed("reset".to_string())),
        Action::Finish(Err(Error::Receive(_)))
    ));
}

#[test]
fn length_prefix_at_the_limit() {
    let mut ok = 2048u32.to_le_bytes().to_vec();
    ok.extend(vec![b'a'; 2048]);
    let (s, pos) = read_str_u32_le(&ok, 0).unwrap();
    assert_eq!(s.len(), 2048);
    assert_eq!(pos, 2052);
    let mut too_long = 2049u32.to_le_bytes().to_vec();
    too_long.extend(vec![b'a'; 2049]);
    assert!(matches!(
        read_str_u32_le(&too_long, 0),
        Err(Error::InvalidResponse(ResponseFault::LengthExceedsMax))
    ));
    let mut ok16 = 2048u16.to_le_bytes().to_vec();
    ok16.extend(vec![b'a'; 2048]);
    assert_eq!(read_str_u16_le(&ok16, 0).unwrap().0.len(), 2048);
    let mut bad16 = 2049u16.to_le_bytes().to_vec();
    bad16.extend(vec![b'a'; 2049]);
    assert!(matches!(
        read_str_u16_le(&bad16, 0),
        Err(Error::InvalidResponse(ResponseFault::LengthExceedsMax))
    ));
}

#[test]
fn readers_on_short_input_and_bad_text() {
    assert!(matches!(read_u16_le(&[1], 0), Err(Error::ShortRead)));
    assert!(matches!(read_i32_le(&[1, 2, 3, 4], 1), Err(Error::ShortRead)));
    assert_eq!(read_u16_le(&[0x34, 0x12], 0).unwrap(), (0x1234, 2));
    assert!(matches!(read_str_u8(&[2, 0xC3, 0x28], 0), Err(Error::InvalidUtf8)));
    assert_eq!(read_str_u8(&[2, 0xC3, 0xA9], 0).unwrap().0, "é");
}

#[test]
fn rcon_replies() {
    assert!(matches!(decode_rcon(&[]), Err(Error::RconAuthFailed)));
    assert_eq!(decode_rcon(&[0x20]).unwrap().message, " ");
    let d = with_header(b'x', b"done");
    assert_eq!(rcon_from_response(&d).unwrap().message, "done");
    assert!(rcon_from_response(&with_header(b'x', &[])).unwrap_err().is_auth_error());
}

#[test]
fn status_codes() {
    assert_eq!(http_status(&Error::AddrParse("x".to_string())), 400);
    assert_eq!(http_status(&Error::Timeout), 504);
    assert_eq!(http_status(&Error::Connect("x".to_string())), 502);
    assert_eq!(http_status(&Error::Bind("x".to_string())), 502);
    assert_eq!(http_status(&Error::RconAuthFailed), 401);
    assert_eq!(http_status(&Error::ShortRead), 500);
    assert!(Error::ServerError("x".to_string()).is_server_error());
}

#[test]
fn rules_map_operations() {
    let mut r = ServerRules::new();
    r.insert("a".to_string(), "1".to_string());
    r.insert("b".to_string(), "2".to_string());
    r.insert("a".to_string(), "3".to_string());
    assert_eq!(r.len(), 2);
    assert_eq!(r.get(&"a".to_string()).unwrap(), "3");
    assert_eq!(r.entries().len(), 2);
}
