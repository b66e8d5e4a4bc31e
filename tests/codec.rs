use nsdp::cmds::{Cmd, CmdAttributes};
use nsdp::consts::ProtoConsts;
use nsdp::request::{Request, Session};
use nsdp::response::Response;
use nsdp::tlv::{TLVReadingError, TypeLengthValue};

fn session() -> Session {
    Session::new([1, 2, 3, 4, 5, 6], [7, 8, 9, 10, 11, 12], [0x00, 0x2a])
}

#[test]
fn record_encodes_code_length_payload() {
    let t = TypeLengthValue::new([0x00, 0x03], b"abc".to_vec());
    assert_eq!(t.to_raw(), vec![0x00, 0x03, 0x00, 0x03, b'a', b'b', b'c']);
}

#[test]
fn record_length_is_big_endian() {
    let t = TypeLengthValue::new([0x10, 0x00], vec![0u8; 300]);
    let raw = t.to_raw();
    assert_eq!(raw.len(), 304);
    assert_eq!(&raw[0..4], &[0x10, 0x00, 0x01, 0x2c]);
}

#[test]
fn record_round_trip() {
    for payload in [vec![], vec![1u8], b"switch-name".to_vec(), vec![0xab; 1000]] {
        let t = TypeLengthValue::new([0x00, 0x05], payload.clone());
        let mut raw = t.to_raw();
        let n = raw.len();
        raw.extend_from_slice(&[9, 9, 9]);
        let (back, used) = match TypeLengthValue::from_raw(&raw) {
            Ok(x) => x,
            Err(e) => panic!("decode failed: {:?}", e),
        };
        assert_eq!(used, 4 + payload.len());
        assert_eq!(used, n);
        assert_eq!(back.code(), [0x00, 0x05]);
        assert_eq!(back.value(), payload.as_slice());
        assert_eq!(back.len() as usize, payload.len());
    }
}

#[test]
fn record_round_trip_largest_payload() {
    let t = TypeLengthValue::new([0x78, 0x00], vec![7u8; 65535]);
    let raw = t.to_raw();
    assert_eq!(&raw[2..4], &[0xff, 0xff]);
    let (back, used) = TypeLengthValue::from_raw(&raw).unwrap();
    assert_eq!(used, 65539);
    assert_eq!(back.value().len(), 65535);
}

#[test]
fn terminator_is_end_of_message() {
    assert!(matches!(TypeLengthValue::from_raw(&[0xFF, 0xFF, 0x00, 0x00]), Err(TLVReadingError::EndOfMessage)));
    assert!(matches!(
        TypeLengthValue::from_raw(&[0xFF, 0xFF, 0x00, 0x00, 0x00, 0x03, 0x00, 0x01, 0x41]),
        Err(TLVReadingError::EndOfMessage)
    ));
}

#[test]
fn short_buffers_are_truncated() {
    for n in 0..4 {
        let buf = vec![0u8; n];
        assert!(matches!(TypeLengthValue::from_raw(&buf), Err(TLVReadingError::ArrTooShort(_))));
    }
    assert!(matches!(TypeLengthValue::from_raw(&[0x00, 0x01, 0x00, 0x05, 1, 2]), Err(TLVReadingError::ArrTooShort(_))));
    assert!(matches!(TypeLengthValue::from_raw(&[0x00, 0x01, 0x00, 0x01]), Err(TLVReadingError::ArrTooShort(_))));
}

#[test]
fn payload_as_text() {
    let t = TypeLengthValue::new([0x00, 0x03], b"GS108E".to_vec());
    assert_eq!(t.to_text().unwrap(), "GS108E");
    let bad = TypeLengthValue::new([0x00, 0x03], vec![0xff, 0xfe]);
    assert!(matches!(bad.to_text(), Err(TLVReadingError::InvalidEncoding(_))));
}

#[test]
fn payload_as_ipv4() {
    let t = TypeLengthValue::new([0x00, 0x06], vec![192, 168, 0, 239]);
    assert_eq!(t.to_ipv4().unwrap(), [192, 168, 0, 239]);
    let short = TypeLengthValue::new([0x00, 0x06], vec![192, 168, 0]);
    assert!(matches!(short.to_ipv4(), Err(TLVReadingError::InvalidType(_))));
}

#[test]
fn record_matches_command_code() {
    let t = TypeLengthValue::from_cmd(Cmd::CMD_Location);
    assert!(t.cmd_equal_to(&Cmd::CMD_Location));
    assert!(!t.cmd_equal_to(&Cmd::CMD_Name));
    assert_eq!(t.code(), [0x00, 0x05]);
    assert_eq!(t.len(), 0);
    let d = TypeLengthValue::default();
    assert_eq!(d.code(), [0, 0]);
    assert!(d.value().is_empty());
}

#[test]
fn protocol_constants() {
    assert_eq!(ProtoConsts::QueryRequest.value(), &[0x01, 0x01]);
    assert_eq!(ProtoConsts::QueryResponse.value(), &[0x01, 0x02]);
    assert_eq!(ProtoConsts::TransmitRequest.value(), &[0x01, 0x03]);
    assert_eq!(ProtoConsts::TransmitResponse.value(), &[0x10, 0x04]);
    assert_eq!(ProtoConsts::NDSP.value(), b"NSDP");
    assert_eq!(ProtoConsts::EndOfMessage.value(), &[0xFF, 0xFF, 0x00, 0x00]);
    assert_eq!(ProtoConsts::MACBroadcast.value(), &[0u8; 6]);
}

#[test]
fn registry_codes_and_attributes() {
    let all = Cmd::all();
    assert_eq!(all.len(), 32);
    for (i, a) in all.iter().enumerate() {
        for b in all.iter().skip(i + 1) {
            assert_ne!(a.code(), b.code());
        }
    }
    assert_eq!(Cmd::CMD_Model.code(), [0x00, 0x01]);
    assert_eq!(Cmd::CMD_Port_Count.code(), [0x60, 0x00]);
    assert!(Cmd::CMD_Password.is_flag_set(CmdAttributes::WriteOnly));
    assert!(!Cmd::CMD_Password.is_flag_set(CmdAttributes::ReadOnly));
    assert!(Cmd::CMD_Name.is_flag_set(CmdAttributes::ReadOnly));
    assert_eq!(Cmd::CMD_Name.attributes(), CmdAttributes::ReadOnly);
    let ro = Cmd::with_attributes(CmdAttributes::ReadOnly);
    assert_eq!(ro.len(), 31);
    assert!(!ro.contains(&Cmd::CMD_Password));
    assert_eq!(Cmd::with_attributes(CmdAttributes::WriteOnly), vec![Cmd::CMD_Password]);
    assert!(Cmd::with_attributes(CmdAttributes::ReadWrite).is_empty());
}

#[test]
fn header_layout() {
    let req = Request::new([0x01, 0x01], session(), vec![TypeLengthValue::from_cmd(Cmd::CMD_Name)]);
    let bytes = req.format();
    assert_eq!(bytes.len(), 32 + 4 + 4);
    assert_eq!(&bytes[0..2], &[0x01, 0x01]);
    assert_eq!(&bytes[2..8], &[0u8; 6]);
    assert_eq!(&bytes[8..14], &[1, 2, 3, 4, 5, 6]);
    assert_eq!(&bytes[14..20], &[7, 8, 9, 10, 11, 12]);
    assert_eq!(&bytes[20..22], &[0, 0]);
    assert_eq!(&bytes[22..24], &[0x00, 0x2a]);
    assert_eq!(&bytes[24..28], b"NSDP");
    assert_eq!(&bytes[28..32], &[0u8; 4]);
    assert_eq!(&bytes[32..36], &[0x00, 0x03, 0x00, 0x00]);
    assert_eq!(&bytes[36..40], &[0xFF, 0xFF, 0x00, 0x00]);
}

#[test]
fn builder_matches_constructor() {
    let built = Request::builder()
        .ctype([0x01, 0x03])
        .session(session())
        .add_cmd(TypeLengthValue::from_cmd(Cmd::CMD_Model))
        .add_cmd(TypeLengthValue::with_value(Cmd::CMD_Name, b"x".to_vec()))
        .build();
    let direct = Request::new(
        [0x01, 0x03],
        session(),
        vec![TypeLengthValue::from_cmd(Cmd::CMD_Model), TypeLengthValue::with_value(Cmd::CMD_Name, b"x".to_vec())],
    );
    assert_eq!(built.format(), direct.format());
    assert_eq!(built.get_cmds().len(), 2);
    assert_eq!(built.get_ctype(), [0x01, 0x03]);
}

#[test]
fn message_round_trip() {
    for ctype in [[0x01, 0x01], [0x01, 0x02], [0x01, 0x03], [0x10, 0x04]] {
        for records in [
            vec![],
            vec![
                TypeLengthValue::with_value(Cmd::CMD_Name, b"office".to_vec()),
                TypeLengthValue::from_cmd(Cmd::CMD_Model),
                TypeLengthValue::new([0xFF, 0xFF], vec![1]),
            ],
        ] {
            let n = records.len();
            let req = Request::new(ctype, session(), records);
            let bytes = req.format();
            let resp = Response::build(&bytes).unwrap();
            assert_eq!(resp.get_ctype(), ctype);
            assert_eq!(resp.get_session().get_source_mac(), [1, 2, 3, 4, 5, 6]);
            assert_eq!(resp.get_session().get_switch_mac(), [7, 8, 9, 10, 11, 12]);
            assert_eq!(resp.get_session().get_seq(), [0x00, 0x2a]);
            assert_eq!(resp.get_cmds().len(), n);
            for (a, b) in resp.get_cmds().iter().zip(req.get_cmds().iter()) {
                assert_eq!(a.code(), b.code());
                assert_eq!(a.value(), b.value());
            }
        }
    }
}

#[test]
fn parse_rejects_short_and_unterminated() {
    assert!(matches!(Response::build(&[0u8; 10]), Err(TLVReadingError::ArrTooShort(_))));
    assert!(matches!(Response::build(&[0u8; 32]), Err(TLVReadingError::ArrTooShort(_))));
    let mut bytes = Request::new([0x01, 0x02], session(), vec![TypeLengthValue::with_value(Cmd::CMD_Name, b"abc".to_vec())]).format();
    bytes.truncate(bytes.len() - 6);
    assert!(matches!(Response::build(&bytes), Err(TLVReadingError::ArrTooShort(_))));
}

#[test]
fn parse_ignores_bytes_after_terminator() {
    let mut bytes = Request::new([0x01, 0x02], session(), vec![TypeLengthValue::from_cmd(Cmd::CMD_IPv4)]).format();
    bytes.extend_from_slice(&[0x00, 0x03, 0x00, 0x09]);
    let resp = Response::build(&bytes).unwrap();
    assert_eq!(resp.get_cmds().len(), 1);
}

#[test]
fn get_cmd_returns_first_match() {
    let bytes = Request::new(
        [0x01, 0x02],
        session(),
        vec![
            TypeLengthValue::with_value(Cmd::CMD_Name, b"first".to_vec()),
            TypeLengthValue::with_value(Cmd::CMD_Name, b"second".to_vec()),
        ],
    )
    .format();
    let resp = Response::build(&bytes).unwrap();
    assert_eq!(resp.get_cmd(Cmd::CMD_Name).unwrap().value(), b"first");
    assert!(resp.get_cmd(Cmd::CMD_Model).is_err());
}

#[test]
fn random_sequence_has_zero_high_byte() {
    for _ in 0..20 {
        let s = Session::new_random_seq([1; 6], [2; 6]);
        assert_eq!(s.get_seq()[0], 0);
        assert_eq!(s.get_source_mac(), [1; 6]);
        assert_eq!(s.get_switch_mac(), [2; 6]);
    }
}
