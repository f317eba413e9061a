use smpp_server::connection::SmppConnection;
use smpp_server::smpp::{
    BindTransceiver, HeaderValue, PduBody, SmppCommand, SmppCommandStatus, SmppMessage, SubmitSm,
};
use smpp_server::util::ByteStream;

fn header(length: u32, id: u32, status: u32, sequence: u32) -> Vec<u8> {
    let mut v = Vec::new();
    v.extend_from_slice(&length.to_be_bytes());
    v.extend_from_slice(&id.to_be_bytes());
    v.extend_from_slice(&status.to_be_bytes());
    v.extend_from_slice(&sequence.to_be_bytes());
    v
}

fn bind_body() -> BindTransceiver {
    BindTransceiver {
        system_id: String::from("esme"),
        password: String::from("secret"),
        system_type: String::from(""),
        interface_version: 0x34,
        addr_ton: 1,
        addr_npi: 2,
        address_range: String::from("12*"),
    }
}

fn bind_bytes(sequence: u32) -> Vec<u8> {
    let mut v = header(36, 0x0000_0009, 0, sequence);
    v.extend_from_slice(b"esme\0secret\0\0");
    v.extend_from_slice(&[0x34, 1, 2]);
    v.extend_from_slice(b"12*\0");
    v
}

fn submit_body(message: &[u8]) -> SubmitSm {
    SubmitSm {
        service_type: String::from("CMT"),
        source_addr_ton: 1,
        source_addr_npi: 1,
        source_addr: String::from("1000"),
        dest_addr_ton: 2,
        dest_addr_npi: 3,
        destination_addr: String::from("2000"),
        esm_class: 4,
        protocol_id: 5,
        priority_flag: 6,
        schedule_delivery_time: String::from(""),
        validity_period: String::from("000001000000000R"),
        registered_delivery: 7,
        replace_if_present: 8,
        data_coding: 9,
        sm_default_msg_id: 10,
        sm_length: message.len() as u8,
        short_message: message.to_vec(),
    }
}

fn submit_fields(message: &[u8]) -> Vec<u8> {
    let mut v = Vec::new();
    v.extend_from_slice(b"CMT\0");
    v.extend_from_slice(&[1, 1]);
    v.extend_from_slice(b"1000\0");
    v.extend_from_slice(&[2, 3]);
    v.extend_from_slice(b"2000\0");
    v.extend_from_slice(&[4, 5, 6]);
    v.extend_from_slice(b"\0");
    v.extend_from_slice(b"000001000000000R\0");
    v.extend_from_slice(&[7, 8, 9, 10]);
    v.push(message.len() as u8);
    v.extend_from_slice(message);
    v
}

fn submit_bytes(sequence: u32, message: &[u8]) -> Vec<u8> {
    let fields = submit_fields(message);
    let mut v = header(16 + fields.len() as u32, 0x0000_0004, 0, sequence);
    v.extend_from_slice(&fields);
    v
}

#[test]
fn bind_request_is_read_field_by_field() {
    let bytes = bind_bytes(1);
    assert_eq!(bytes.len(), 36);
    let mut r = ByteStream::new(&bytes);
    let m = SmppConnection::read_pdu(&mut r).unwrap();
    assert_eq!(r.remaining(), 0);
    assert_eq!(m.command_length(), 36);
    assert_eq!(*m.command(), SmppCommand::BindTransceiver);
    assert_eq!(m.command_status(), 0);
    assert_eq!(m.sequence_number(), 1);
    assert_eq!(*m.body(), PduBody::BindTransceiver(bind_body()));
}

#[test]
fn enquire_link_and_unbind_have_no_body() {
    let bytes = header(16, 0x0000_0015, 0, 9);
    let m = SmppConnection::read_pdu(&mut ByteStream::new(&bytes)).unwrap();
    assert_eq!(m, SmppMessage::new(16, SmppCommand::EnquireLink, 0, 9, PduBody::EnquireLink));
    let bytes = header(16, 0x0000_0006, 3, 0xFFFF_FFFF);
    let m = SmppConnection::read_pdu(&mut ByteStream::new(&bytes)).unwrap();
    assert_eq!(m, SmppMessage::new(16, SmppCommand::Unbind, 3, 0xFFFF_FFFF, PduBody::Unbind));
}

#[test]
fn submit_sm_reads_exactly_sm_length_bytes() {
    let bytes = submit_bytes(77, b"hello");
    let mut r = ByteStream::new(&bytes);
    let m = SmppConnection::read_pdu(&mut r).unwrap();
    assert_eq!(r.remaining(), 0);
    assert_eq!(m.sequence_number(), 77);
    assert_eq!(*m.body(), PduBody::SubmitSm(submit_body(b"hello")));
    match m.body() {
        PduBody::SubmitSm(b) => {
            assert_eq!(b.sm_length, 5);
            assert_eq!(b.short_message, b"hello".to_vec());
        }
        _ => panic!("not a short message request"),
    }
}

#[test]
fn submit_sm_leaves_what_follows_the_message() {
    let mut bytes = submit_bytes(1, b"hi");
    bytes.extend_from_slice(&[0xAA, 0xBB, 0xCC]);
    let mut r = ByteStream::new(&bytes);
    let m = SmppConnection::read_pdu(&mut r).unwrap();
    assert_eq!(*m.body(), PduBody::SubmitSm(submit_body(b"hi")));
    assert_eq!(r.remaining(), 3);
}

#[test]
fn submit_sm_with_an_empty_and_a_longest_message() {
    let bytes = submit_bytes(1, b"");
    let m = SmppConnection::read_pdu(&mut ByteStream::new(&bytes)).unwrap();
    assert_eq!(*m.body(), PduBody::SubmitSm(submit_body(b"")));
    let long = vec![0u8; 255];
    let bytes = submit_bytes(1, &long);
    let m = SmppConnection::read_pdu(&mut ByteStream::new(&bytes)).unwrap();
    assert_eq!(*m.body(), PduBody::SubmitSm(submit_body(&long)));
}

#[test]
fn declared_length_is_kept_and_not_checked_by_read_pdu() {
    let mut bytes = bind_bytes(1);
    bytes[3] = 99;
    let m = SmppConnection::read_pdu(&mut ByteStream::new(&bytes)).unwrap();
    assert_eq!(m.command_length(), 99);
    assert_eq!(*m.body(), PduBody::BindTransceiver(bind_body()));
}

#[test]
fn two_requests_in_one_stream_are_read_in_turn() {
    let mut bytes = bind_bytes(1);
    bytes.extend_from_slice(&header(16, 0x0000_0015, 0, 2));
    let mut r = ByteStream::new(&bytes);
    let first = SmppConnection::read_pdu(&mut r).unwrap();
    let second = SmppConnection::read_pdu(&mut r).unwrap();
    assert_eq!(*first.command(), SmppCommand::BindTransceiver);
    assert_eq!(second, SmppMessage::new(16, SmppCommand::EnquireLink, 0, 2, PduBody::EnquireLink));
    assert_eq!(
        SmppConnection::read_pdu(&mut r),
        Err(SmppCommandStatus::InvalidMessageLength)
    );
}

#[test]
fn truncated_header_is_a_length_error() {
    let bytes = header(16, 0x0000_0015, 0, 9);
    for k in 0..16 {
        let mut r = ByteStream::new(&bytes[..k]);
        assert_eq!(
            SmppConnection::read_pdu(&mut r),
            Err(SmppCommandStatus::InvalidMessageLength)
        );
        assert_eq!(r.remaining(), 0);
    }
}

#[test]
fn truncated_header_with_unknown_id_is_still_a_length_error() {
    let bytes = header(16, 0x1234_5678, 0, 9);
    let mut r = ByteStream::new(&bytes[..8]);
    assert_eq!(
        SmppConnection::read_pdu(&mut r),
        Err(SmppCommandStatus::InvalidMessageLength)
    );
}

#[test]
fn every_proper_start_of_a_bind_request_is_a_length_error() {
    let bytes = bind_bytes(5);
    for k in 0..bytes.len() {
        let mut r = ByteStream::new(&bytes[..k]);
        assert_eq!(
            SmppConnection::read_pdu(&mut r),
            Err(SmppCommandStatus::InvalidMessageLength)
        );
        assert_eq!(r.remaining(), 0);
    }
}

#[test]
fn every_proper_start_of_a_submit_sm_is_a_length_error() {
    let bytes = submit_bytes(5, b"hello world");
    for k in 0..bytes.len() {
        assert_eq!(
            SmppConnection::read_pdu(&mut ByteStream::new(&bytes[..k])),
            Err(SmppCommandStatus::InvalidMessageLength)
        );
    }
}

#[test]
fn string_without_terminator_is_a_length_error() {
    let mut bytes = header(20, 0x0000_0009, 0, 1);
    bytes.extend_from_slice(b"esme");
    assert_eq!(
        SmppConnection::read_pdu(&mut ByteStream::new(&bytes)),
        Err(SmppCommandStatus::InvalidMessageLength)
    );
}

#[test]
fn short_message_cut_off_is_a_length_error() {
    let full = submit_bytes(1, b"hello");
    let cut = &full[..full.len() - 2];
    assert_eq!(
        SmppConnection::read_pdu(&mut ByteStream::new(cut)),
        Err(SmppCommandStatus::InvalidMessageLength)
    );
}

#[test]
fn unknown_command_id_is_refused_before_the_body() {
    let mut bytes = header(20, 0x1234_5678, 0, 1);
    bytes.extend_from_slice(&[1, 2, 3, 4]);
    let mut r = ByteStream::new(&bytes);
    assert_eq!(
        SmppConnection::read_pdu(&mut r),
        Err(SmppCommandStatus::InvalidCommandId)
    );
    assert_eq!(r.remaining(), 4);
}

#[test]
fn answers_are_refused_as_input() {
    for id in [0x8000_0004u32, 0x8000_0006, 0x8000_0009, 0x8000_0015] {
        let mut bytes = header(17, id, 0, 1);
        bytes.push(0);
        let mut r = ByteStream::new(&bytes);
        assert_eq!(
            SmppConnection::read_pdu(&mut r),
            Err(SmppCommandStatus::InvalidCommandId)
        );
        assert_eq!(r.remaining(), 1);
    }
}

#[test]
fn bind_answer_is_a_header_and_one_zero_byte() {
    let m = SmppMessage::new(
        0,
        SmppCommand::BindTransceiverResp,
        0,
        7,
        PduBody::BindTransceiverResp,
    );
    let mut expected = header(17, 0x8000_0009, 0, 7);
    expected.push(0);
    assert_eq!(SmppConnection::write_pdu(&m), Ok(expected));
}

#[test]
fn answers_without_fields_are_a_header_alone() {
    let m = SmppMessage::new(0, SmppCommand::EnquireLinkResp, 0, 8, PduBody::EnquireLinkResp);
    assert_eq!(SmppConnection::write_pdu(&m), Ok(header(16, 0x8000_0015, 0, 8)));
    let m = SmppMessage::new(0, SmppCommand::UnbindResp, 0, 9, PduBody::UnbindResp);
    assert_eq!(SmppConnection::write_pdu(&m), Ok(header(16, 0x8000_0006, 0, 9)));
}

#[test]
fn submit_answer_carries_its_message_id_only_with_status_zero() {
    let body = PduBody::SubmitSmResp { message_id: String::from("42") };
    let ok = SmppMessage::new(0, SmppCommand::SubmitSmResp, 0, 42, body.clone());
    let mut expected = header(19, 0x8000_0004, 0, 42);
    expected.extend_from_slice(b"42\0");
    assert_eq!(SmppConnection::write_pdu(&ok), Ok(expected));
    let failed = SmppMessage::new(0, SmppCommand::SubmitSmResp, 0x45, 42, body);
    assert_eq!(SmppConnection::write_pdu(&failed), Ok(header(16, 0x8000_0004, 0x45, 42)));
}

#[test]
fn requests_are_written_too() {
    let m = SmppMessage::new(
        0,
        SmppCommand::BindTransceiver,
        0,
        1,
        PduBody::BindTransceiver(bind_body()),
    );
    assert_eq!(SmppConnection::write_pdu(&m), Ok(bind_bytes(1)));
    let m = SmppMessage::new(
        0,
        SmppCommand::SubmitSm,
        0,
        3,
        PduBody::SubmitSm(submit_body(b"hello")),
    );
    assert_eq!(SmppConnection::write_pdu(&m), Ok(submit_bytes(3, b"hello")));
    let m = SmppMessage::new(0, SmppCommand::EnquireLink, 0, 4, PduBody::EnquireLink);
    assert_eq!(SmppConnection::write_pdu(&m), Ok(header(16, 0x0000_0015, 0, 4)));
    let m = SmppMessage::new(0, SmppCommand::Unbind, 0, 5, PduBody::Unbind);
    assert_eq!(SmppConnection::write_pdu(&m), Ok(header(16, 0x0000_0006, 0, 5)));
}

#[test]
fn length_field_is_the_length_of_the_whole_message() {
    let messages = vec![
        SmppMessage::new(0, SmppCommand::BindTransceiverResp, 0, 1, PduBody::BindTransceiverResp),
        SmppMessage::new(5, SmppCommand::EnquireLinkResp, 0, 2, PduBody::EnquireLinkResp),
        SmppMessage::new(
            0,
            SmppCommand::SubmitSmResp,
            0,
            3,
            PduBody::SubmitSmResp { message_id: String::from("4294967295") },
        ),
        SmppMessage::new(0, SmppCommand::SubmitSm, 0, 4, PduBody::SubmitSm(submit_body(&[1; 200]))),
        SmppMessage::new(
            0,
            SmppCommand::BindTransceiver,
            9,
            5,
            PduBody::BindTransceiver(bind_body()),
        ),
    ];
    for m in messages {
        let bytes = SmppConnection::write_pdu(&m).unwrap();
        let declared = u32::from_be_bytes([bytes[0], bytes[1], bytes[2], bytes[3]]);
        assert_eq!(declared as usize, bytes.len());
    }
}

#[test]
fn written_requests_are_read_back_unchanged() {
    let bodies = vec![
        (SmppCommand::BindTransceiver, PduBody::BindTransceiver(bind_body())),
        (SmppCommand::EnquireLink, PduBody::EnquireLink),
        (SmppCommand::SubmitSm, PduBody::SubmitSm(submit_body(b"round trip"))),
        (SmppCommand::SubmitSm, PduBody::SubmitSm(submit_body(b""))),
        (SmppCommand::Unbind, PduBody::Unbind),
    ];
    for (command, body) in bodies {
        let draft = SmppMessage::new(0, command, 0x0102_0304, 0xA0B0_C0D0, body.clone());
        let bytes = SmppConnection::write_pdu(&draft).unwrap();
        let m = SmppMessage::new(bytes.len() as u32, command, 0x0102_0304, 0xA0B0_C0D0, body);
        assert_eq!(SmppConnection::write_pdu(&m), Ok(bytes.clone()));
        let mut r = ByteStream::new(&bytes);
        assert_eq!(SmppConnection::read_pdu(&mut r), Ok(m.clone()));
        assert_eq!(r.remaining(), 0);
        assert_eq!(SmppConnection::read_frame(&bytes), Ok(m));
    }
}

#[test]
fn text_beyond_ascii_does_not_come_back_unchanged() {
    let mut body = bind_body();
    body.system_id = String::from("\u{e9}");
    let m = SmppMessage::new(0, SmppCommand::BindTransceiver, 0, 1, PduBody::BindTransceiver(body));
    let bytes = SmppConnection::write_pdu(&m).unwrap();
    let back = SmppConnection::read_pdu(&mut ByteStream::new(&bytes)).unwrap();
    assert_eq!(back.get_str("system_id"), "\u{c3}\u{a9}");
}

#[test]
fn read_frame_holds_the_declared_length_against_the_frame() {
    let good = bind_bytes(1);
    assert!(SmppConnection::read_frame(&good).is_ok());
    let mut wrong = bind_bytes(1);
    wrong[3] = 37;
    assert_eq!(
        SmppConnection::read_frame(&wrong),
        Err(SmppCommandStatus::InvalidMessageLength)
    );
    let mut long = bind_bytes(1);
    long.push(0);
    assert_eq!(
        SmppConnection::read_frame(&long),
        Err(SmppCommandStatus::InvalidMessageLength)
    );
    long[3] = 37;
    assert_eq!(
        SmppConnection::read_frame(&long),
        Err(SmppCommandStatus::InvalidMessageLength)
    );
    assert_eq!(
        SmppConnection::read_frame(&good[..20]),
        Err(SmppCommandStatus::InvalidMessageLength)
    );
    assert_eq!(
        SmppConnection::read_frame(&header(16, 0x1234_5678, 0, 1)),
        Err(SmppCommandStatus::InvalidCommandId)
    );
    assert_eq!(
        SmppConnection::read_frame(&header(16, 0x8000_0015, 0, 1)),
        Err(SmppCommandStatus::InvalidCommandId)
    );
}

#[test]
fn fields_are_found_by_name() {
    let m = SmppMessage::new(
        0,
        SmppCommand::SubmitSm,
        0,
        1,
        PduBody::SubmitSm(submit_body(b"hey")),
    );
    assert_eq!(m.get_str("service_type"), "CMT");
    assert_eq!(m.get_str("source_addr"), "1000");
    assert_eq!(m.get_str("destination_addr"), "2000");
    assert_eq!(m.get_str("schedule_delivery_time"), "");
    assert_eq!(m.get_str("validity_period"), "000001000000000R");
    assert_eq!(m.header("source_addr_ton"), Some(HeaderValue::Byte(1)));
    assert_eq!(m.header("source_addr_npi"), Some(HeaderValue::Byte(1)));
    assert_eq!(m.header("dest_addr_ton"), Some(HeaderValue::Byte(2)));
    assert_eq!(m.header("dest_addr_npi"), Some(HeaderValue::Byte(3)));
    assert_eq!(m.header("esm_class"), Some(HeaderValue::Byte(4)));
    assert_eq!(m.header("protocol_id"), Some(HeaderValue::Byte(5)));
    assert_eq!(m.header("priority_flag"), Some(HeaderValue::Byte(6)));
    assert_eq!(m.header("registered_delivery"), Some(HeaderValue::Byte(7)));
    assert_eq!(m.header("replace_if_present"), Some(HeaderValue::Byte(8)));
    assert_eq!(m.header("data_coding"), Some(HeaderValue::Byte(9)));
    assert_eq!(m.header("sm_default_msg_id"), Some(HeaderValue::Byte(10)));
    assert_eq!(m.header("sm_length"), Some(HeaderValue::Byte(3)));
    assert_eq!(m.header("short_message"), Some(HeaderValue::ByteArray(b"hey".to_vec())));
    assert_eq!(m.header("service_type"), Some(HeaderValue::Str(String::from("CMT"))));
    assert_eq!(m.header("system_id"), None);
    assert_eq!(m.header(""), None);

    let m = SmppMessage::new(
        0,
        SmppCommand::BindTransceiver,
        0,
        1,
        PduBody::BindTransceiver(bind_body()),
    );
    assert_eq!(m.get_str("system_id"), "esme");
    assert_eq!(m.get_str("password"), "secret");
    assert_eq!(m.get_str("system_type"), "");
    assert_eq!(m.get_str("address_range"), "12*");
    assert_eq!(m.header("interface_version"), Some(HeaderValue::Byte(0x34)));
    assert_eq!(m.header("addr_ton"), Some(HeaderValue::Byte(1)));
    assert_eq!(m.header("addr_npi"), Some(HeaderValue::Byte(2)));
    assert_eq!(m.header("message_id"), None);

    let m = SmppMessage::new(0, SmppCommand::Unbind, 0, 1, PduBody::Unbind);
    assert_eq!(m.header("system_id"), None);
}

#[test]
fn set_str_replaces_a_text_field_and_nothing_else() {
    let mut m = SmppMessage::new(
        0,
        SmppCommand::SubmitSmResp,
        0,
        1,
        PduBody::SubmitSmResp { message_id: String::new() },
    );
    m.set_str("message_id", String::from("abc"));
    assert_eq!(m.get_str("message_id"), "abc");
    assert_eq!(*m.body(), PduBody::SubmitSmResp { message_id: String::from("abc") });
    m.set_str("system_id", String::from("x"));
    assert_eq!(*m.body(), PduBody::SubmitSmResp { message_id: String::from("abc") });

    let mut m = SmppMessage::new(
        7,
        SmppCommand::BindTransceiver,
        8,
        9,
        PduBody::BindTransceiver(bind_body()),
    );
    m.set_str("password", String::from("other"));
    let mut expected = bind_body();
    expected.password = String::from("other");
    assert_eq!(m, SmppMessage::new(
        7,
        SmppCommand::BindTransceiver,
        8,
        9,
        PduBody::BindTransceiver(expected.clone()),
    ));
    m.set_str("addr_ton", String::from("x"));
    m.set_str("nothing", String::from("x"));
    assert_eq!(*m.body(), PduBody::BindTransceiver(expected));

    let mut m = SmppMessage::new(0, SmppCommand::EnquireLink, 0, 1, PduBody::EnquireLink);
    m.set_str("message_id", String::from("x"));
    assert_eq!(*m.body(), PduBody::EnquireLink);
}

#[test]
fn make_resp_answers_requests_only() {
    let request = SmppMessage::new(16, SmppCommand::EnquireLink, 0, 66, PduBody::EnquireLink);
    assert_eq!(
        request.make_resp(5),
        Ok(SmppMessage::new(0, SmppCommand::EnquireLinkResp, 5, 66, PduBody::EnquireLinkResp))
    );
    let request = SmppMessage::new(16, SmppCommand::Unbind, 0, 67, PduBody::Unbind);
    assert_eq!(
        request.make_resp(0),
        Ok(SmppMessage::new(0, SmppCommand::UnbindResp, 0, 67, PduBody::UnbindResp))
    );
    let request = SmppMessage::new(
        0,
        SmppCommand::BindTransceiver,
        0,
        68,
        PduBody::BindTransceiver(bind_body()),
    );
    assert_eq!(
        request.make_resp(0),
        Ok(SmppMessage::new(
            0,
            SmppCommand::BindTransceiverResp,
            0,
            68,
            PduBody::BindTransceiverResp,
        ))
    );
    let request = SmppMessage::new(
        0,
        SmppCommand::SubmitSm,
        0,
        69,
        PduBody::SubmitSm(submit_body(b"x")),
    );
    assert_eq!(
        request.make_resp(0),
        Ok(SmppMessage::new(
            0,
            SmppCommand::SubmitSmResp,
            0,
            69,
            PduBody::SubmitSmResp { message_id: String::new() }
        ))
    );
    for (command, body) in [
        (SmppCommand::EnquireLinkResp, PduBody::EnquireLinkResp),
        (SmppCommand::UnbindResp, PduBody::UnbindResp),
        (SmppCommand::BindTransceiverResp, PduBody::BindTransceiverResp),
        (SmppCommand::SubmitSmResp, PduBody::SubmitSmResp { message_id: String::new() }),
    ] {
        let answer = SmppMessage::new(16, command, 0, 1, body);
        assert_eq!(answer.make_resp(0), Err(SmppCommandStatus::InvalidCommandId));
    }
}

#[test]
fn body_knows_its_command() {
    assert_eq!(PduBody::EnquireLink.command(), SmppCommand::EnquireLink);
    assert_eq!(PduBody::UnbindResp.command(), SmppCommand::UnbindResp);
    assert_eq!(PduBody::SubmitSm(submit_body(b"")).command(), SmppCommand::SubmitSm);
    assert_eq!(
        PduBody::SubmitSmResp { message_id: String::new() }.command(),
        SmppCommand::SubmitSmResp
    );
}

#[test]
fn frame_rest_is_the_declared_length_less_the_length_field() {
    assert_eq!(SmppConnection::frame_rest(&[0, 0, 0, 16]), Ok(12));
    assert_eq!(SmppConnection::frame_rest(&[0, 0, 0, 36, 9, 9]), Ok(32));
    assert_eq!(SmppConnection::frame_rest(&[0xFF, 0xFF, 0xFF, 0xFF]), Ok(0xFFFF_FFFB));
    assert_eq!(
        SmppConnection::frame_rest(&[0, 0, 0, 15]),
        Err(SmppCommandStatus::InvalidMessageLength)
    );
    assert_eq!(
        SmppConnection::frame_rest(&[0, 0, 0, 0]),
        Err(SmppCommandStatus::InvalidMessageLength)
    );
    assert_eq!(
        SmppConnection::frame_rest(&[0, 0, 16]),
        Err(SmppCommandStatus::InvalidMessageLength)
    );
    assert_eq!(SmppConnection::frame_rest(&[]), Err(SmppCommandStatus::InvalidMessageLength));
    let frame = bind_bytes(1);
    assert_eq!(SmppConnection::frame_rest(&frame[..4]), Ok(frame.len() as u32 - 4));
}

#[test]
fn written_answers_are_refused_when_read() {
    let answers = vec![
        SmppMessage::new(0, SmppCommand::EnquireLinkResp, 0, 1, PduBody::EnquireLinkResp),
        SmppMessage::new(0, SmppCommand::UnbindResp, 0, 1, PduBody::UnbindResp),
        SmppMessage::new(0, SmppCommand::BindTransceiverResp, 0, 1, PduBody::BindTransceiverResp),
        SmppMessage::new(
            0,
            SmppCommand::SubmitSmResp,
            0,
            1,
            PduBody::SubmitSmResp { message_id: String::from("1") },
        ),
    ];
    for m in answers {
        let bytes = SmppConnection::write_pdu(&m).unwrap();
        let mut r = ByteStream::new(&bytes);
        assert_eq!(
            SmppConnection::read_pdu(&mut r),
            Err(SmppCommandStatus::InvalidCommandId)
        );
        assert_eq!(r.remaining(), bytes.len() - 16);
    }
}

#[test]
fn bodies_answer_for_their_fields_by_name() {
    let mut bind = bind_body();
    assert_eq!(bind.header("addr_npi"), Some(HeaderValue::Byte(2)));
    assert_eq!(bind.header("short_message"), None);
    assert_eq!(bind.str_header("system_id"), Some(&String::from("esme")));
    assert_eq!(bind.str_header("addr_npi"), None);
    assert_eq!(bind.str_header("unknown"), None);
    bind.set_str("address_range", String::from("9*"));
    assert_eq!(bind.address_range, "9*");
    bind.set_str("addr_npi", String::from("9"));
    assert_eq!(bind.addr_npi, 2);

    let mut submit = submit_body(b"abc");
    assert_eq!(
        submit.header("short_message"),
        Some(HeaderValue::ByteArray(vec![b'a', b'b', b'c']))
    );
    assert_eq!(submit.str_header("validity_period"), Some(&String::from("000001000000000R")));
    assert_eq!(submit.str_header("sm_length"), None);
    submit.set_str("destination_addr", String::from("3000"));
    assert_eq!(submit.destination_addr, "3000");
    submit.set_str("short_message", String::from("zzz"));
    assert_eq!(submit.short_message, b"abc".to_vec());

    let mut body = PduBody::SubmitSmResp { message_id: String::from("5") };
    assert_eq!(body.header("message_id"), Some(HeaderValue::Str(String::from("5"))));
    assert_eq!(body.str_header("message_id"), Some(&String::from("5")));
    assert_eq!(body.str_header("system_id"), None);
    body.set_str("message_id", String::from("6"));
    assert_eq!(body, PduBody::SubmitSmResp { message_id: String::from("6") });
    let mut body = PduBody::BindTransceiverResp;
    body.set_str("system_id", String::from("x"));
    assert_eq!(body, PduBody::BindTransceiverResp);
    assert_eq!(body.header("system_id"), None);
}
