use nsdp::cmds::{Cmd, CmdAttributes};
use nsdp::exchange::{
    bulk_query_request, device_from_reply, discovery_request, login_request, next_request, reply_outcome, step,
    Discovery, Event, ExchangeError, RecvEvent, TargetedState, DISCOVERY_ATTEMPTS,
};
use nsdp::request::{Request, Session};
use nsdp::secret::{key_bytes, password, xor_with_key};
use nsdp::tlv::{TLVReadingError, TypeLengthValue};
use std::collections::BTreeSet;

const PC: [u8; 6] = [0x4c, 0xcc, 0x6a, 0x6c, 0xce, 0x7e];

fn reply(switch_mac: [u8; 6], name: &str, model: &str, location: &str, ip: [u8; 4]) -> Vec<u8> {
    Request::new(
        [0x01, 0x02],
        Session::new(PC, switch_mac, [0x00, 0x11]),
        vec![
            TypeLengthValue::with_value(Cmd::CMD_Model, model.as_bytes().to_vec()),
            TypeLengthValue::with_value(Cmd::CMD_Name, name.as_bytes().to_vec()),
            TypeLengthValue::with_value(Cmd::CMD_Location, location.as_bytes().to_vec()),
            TypeLengthValue::with_value(Cmd::CMD_IPv4, ip.to_vec()),
        ],
    )
    .format()
}

fn transmit_response(switch_mac: [u8; 6]) -> Vec<u8> {
    Request::new([0x10, 0x04], Session::new(PC, switch_mac, [0x00, 0x05]), vec![]).format()
}

#[test]
fn obfuscation_of_default_secret() {
    assert_eq!(password("password"), vec![0x3e, 0x15, 0x14, 0x01, 0x24, 0x02, 0x13, 0x16]);
}

#[test]
fn obfuscation_is_an_involution() {
    let key = key_bytes();
    assert_eq!(key, b"NtgrSmartSwitchRock".to_vec());
    for secret in [&b""[..], b"a", b"password", b"exactly-nineteen-ch"] {
        let once = xor_with_key(secret, &key);
        assert_eq!(once.len(), secret.len());
        if !secret.is_empty() {
            assert_ne!(once.as_slice(), secret);
        }
        assert_eq!(xor_with_key(&once, &key), secret.to_vec());
    }
}

#[test]
fn obfuscation_stops_at_shorter_input() {
    let long = vec![0u8; 30];
    assert_eq!(xor_with_key(&long, &key_bytes()), key_bytes());
    assert_eq!(xor_with_key(b"ab", &[1]), vec![b'a' ^ 1]);
}

#[test]
fn discovery_request_asks_for_identity() {
    let req = discovery_request(PC);
    let bytes = req.format();
    assert_eq!(&bytes[0..2], &[0x01, 0x01]);
    assert_eq!(&bytes[8..14], &PC);
    assert_eq!(&bytes[14..20], &[0u8; 6]);
    assert_eq!(bytes[22], 0);
    let codes: Vec<[u8; 2]> = req.get_cmds().iter().map(|t| t.code()).collect();
    assert_eq!(codes, vec![[0x00, 0x03], [0x00, 0x01], [0x00, 0x05], [0x00, 0x06]]);
    assert!(req.get_cmds().iter().all(|t| t.len() == 0));
}

#[test]
fn device_extracted_from_reply() {
    let sw = device_from_reply(&reply([9; 6], "lab", "GS105E", "rack 2", [10, 0, 0, 7]), "10.0.0.7:63322".to_string())
        .unwrap();
    assert_eq!(sw.name, "lab");
    assert_eq!(sw.model, "GS105E");
    assert_eq!(sw.location, "rack 2");
    assert_eq!(sw.ipv4_address_reported, [10, 0, 0, 7]);
    assert_eq!(sw.ipv4_address, "10.0.0.7:63322");
    assert_eq!(sw.mac_address, [9; 6]);
}

#[test]
fn device_missing_field_is_skipped() {
    let bytes = Request::new(
        [0x01, 0x02],
        Session::new(PC, [3; 6], [0, 1]),
        vec![TypeLengthValue::with_value(Cmd::CMD_Name, b"x".to_vec())],
    )
    .format();
    assert!(device_from_reply(&bytes, "a".to_string()).is_none());
    let bad_ip = Request::new(
        [0x01, 0x02],
        Session::new(PC, [3; 6], [0, 1]),
        vec![
            TypeLengthValue::with_value(Cmd::CMD_Name, b"x".to_vec()),
            TypeLengthValue::with_value(Cmd::CMD_Model, b"y".to_vec()),
            TypeLengthValue::with_value(Cmd::CMD_Location, b"z".to_vec()),
            TypeLengthValue::with_value(Cmd::CMD_IPv4, vec![1, 2, 3]),
        ],
    )
    .format();
    assert!(device_from_reply(&bad_ip, "a".to_string()).is_none());
    assert!(device_from_reply(&[1, 2, 3], "a".to_string()).is_none());
}

fn run_discovery(events: Vec<RecvEvent>) -> Vec<nsdp::exchange::Switch> {
    let mut d = Discovery::new(DISCOVERY_ATTEMPTS);
    let mut events = events.into_iter();
    while !d.is_finished() {
        match events.next() {
            Some(e) => d.on_event(e),
            None => d.on_event(RecvEvent::TimedOut),
        }
    }
    d.into_devices()
}

#[test]
fn discovery_of_three_switches() {
    let replies = [
        (reply([1; 6], "a", "GS108E", "hall", [192, 168, 1, 2]), "192.168.1.2:63322"),
        (reply([2; 6], "b", "GS105E", "desk", [192, 168, 1, 3]), "192.168.1.3:63322"),
        (reply([3; 6], "c", "GS116E", "attic", [192, 168, 1, 4]), "192.168.1.4:63322"),
    ];
    for order in [[0, 1, 2], [2, 0, 1], [1, 2, 0]] {
        let events = order
            .iter()
            .map(|&i| RecvEvent::Received(replies[i].0.clone(), replies[i].1.to_string()))
            .collect();
        let found = run_discovery(events);
        assert_eq!(found.len(), 3);
        let names: BTreeSet<String> = found.iter().map(|s| s.name.clone()).collect();
        assert_eq!(names, ["a", "b", "c"].iter().map(|s| s.to_string()).collect());
        for s in &found {
            let i = (s.mac_address[0] - 1) as usize;
            assert_eq!(s.ipv4_address, replies[i].1);
            assert_eq!(s.ipv4_address_reported, [192, 168, 1, 2 + i as u8]);
        }
    }
}

#[test]
fn discovery_skips_malformed_and_stops_on_timeout() {
    let events = vec![
        RecvEvent::Received(vec![0u8; 10], "x".to_string()),
        RecvEvent::Received(reply([1; 6], "a", "m", "l", [1, 1, 1, 1]), "y".to_string()),
        RecvEvent::TimedOut,
        RecvEvent::Received(reply([2; 6], "b", "m", "l", [2, 2, 2, 2]), "z".to_string()),
    ];
    let found = run_discovery(events);
    assert_eq!(found.len(), 1);
    assert_eq!(found[0].name, "a");
}

#[test]
fn discovery_bounded_by_attempts() {
    let mut d = Discovery::new(2);
    d.on_event(RecvEvent::Received(reply([1; 6], "a", "m", "l", [1, 1, 1, 1]), "y".to_string()));
    assert!(!d.is_finished());
    d.on_event(RecvEvent::Received(reply([2; 6], "b", "m", "l", [1, 1, 1, 1]), "y".to_string()));
    assert!(d.is_finished());
    assert_eq!(d.into_devices().len(), 2);
}

#[test]
fn login_request_carries_obfuscated_secret() {
    let req = login_request(PC, [5; 6], "password");
    let bytes = req.format();
    assert_eq!(&bytes[0..2], &[0x01, 0x03]);
    assert_eq!(&bytes[14..20], &[5; 6]);
    assert_eq!(&bytes[32..36], &[0x00, 0x0a, 0x00, 0x08]);
    assert_eq!(&bytes[36..44], password("password").as_slice());
    assert_eq!(&bytes[44..48], &[0xFF, 0xFF, 0x00, 0x00]);
}

#[test]
fn login_succeeds_on_reply() {
    let next = step(TargetedState::AwaitingLogin, Event::Reply(transmit_response([5; 6])));
    assert!(matches!(next, TargetedState::AwaitingQuery));
}

#[test]
fn login_times_out() {
    let next = step(TargetedState::AwaitingLogin, Event::TimedOut);
    assert!(matches!(next, TargetedState::Failed(ExchangeError::Timeout)));
    assert!(matches!(reply_outcome(Event::TimedOut), Err(ExchangeError::Timeout)));
}

#[test]
fn login_reports_parse_error() {
    let mut bytes = transmit_response([5; 6]);
    bytes.truncate(10);
    let next = step(TargetedState::AwaitingLogin, Event::Reply(bytes));
    assert!(matches!(next, TargetedState::Failed(ExchangeError::Malformed(TLVReadingError::ArrTooShort(_)))));
}

#[test]
fn send_failure_aborts() {
    let next = step(TargetedState::AwaitingQuery, Event::SendFailed);
    assert!(matches!(next, TargetedState::Failed(ExchangeError::TransportFailure)));
}

#[test]
fn bulk_query_asks_for_read_only_commands() {
    let req = bulk_query_request(PC, [5; 6]);
    assert_eq!(&req.format()[0..2], &[0x01, 0x01]);
    let sent: BTreeSet<[u8; 2]> = req.get_cmds().iter().map(|t| t.code()).collect();
    let expected: BTreeSet<[u8; 2]> =
        Cmd::all().iter().filter(|c| c.is_flag_set(CmdAttributes::ReadOnly)).map(|c| c.code()).collect();
    assert_eq!(sent, expected);
    assert!(!sent.contains(&[0x00, 0x0a]));
    assert_eq!(req.get_cmds().len(), 31);
}

#[test]
fn targeted_exchange_runs_to_completion() {
    let mut state = TargetedState::AwaitingLogin;
    let mut sent = Vec::new();
    while let Some(req) = next_request(&state, PC, [5; 6], "password") {
        sent.push(req.format());
        let answer = if sent.len() == 1 {
            transmit_response([5; 6])
        } else {
            reply([5; 6], "core", "GS108E", "rack", [10, 1, 1, 1])
        };
        state = step(state, Event::Reply(answer));
    }
    assert_eq!(sent.len(), 2);
    assert_eq!(&sent[0][0..2], &[0x01, 0x03]);
    assert_eq!(&sent[1][0..2], &[0x01, 0x01]);
    match state {
        TargetedState::Done(resp) => {
            assert_eq!(resp.get_cmd(Cmd::CMD_Name).unwrap().to_text().unwrap(), "core");
        }
        other => panic!("unexpected state {:?}", other),
    }
}
