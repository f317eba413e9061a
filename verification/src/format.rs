use crate::smpp::{
    lemma_command_ids, BindTransceiverView, PduBodyView, SmppCommand, SmppCommandStatus,
    SmppMessageView, SubmitSmView,
};
use crate::util::{
    after_bytes, after_text, be_u32, cstring_bytes, has_terminator, lemma_be_u32_of_bytes,
    lemma_text_len, lemma_text_len_is, text_len, text_of, u32_bytes,
};
use vstd::prelude::*;
use vstd::utf8::{encode_utf8, is_ascii_chars, is_ascii_chars_encode_utf8};

verus! {

/// The bytes of a bind request's body: its fields in their fixed order.
pub open spec fn bind_transceiver_bytes(b: BindTransceiverView) -> Seq<u8> {
    cstring_bytes(b.system_id) + cstring_bytes(b.password) + cstring_bytes(b.system_type)
        + seq![b.interface_version] + seq![b.addr_ton] + seq![b.addr_npi] + cstring_bytes(
        b.address_range,
    )
}

/// The bytes of a short message request's body: its fields in their fixed
/// order, the message itself last.
pub open spec fn submit_sm_bytes(b: SubmitSmView) -> Seq<u8> {
    cstring_bytes(b.service_type) + seq![b.source_addr_ton] + seq![b.source_addr_npi]
        + cstring_bytes(b.source_addr) + seq![b.dest_addr_ton] + seq![b.dest_addr_npi]
        + cstring_bytes(b.destination_addr) + seq![b.esm_class] + seq![b.protocol_id]
        + seq![b.priority_flag] + cstring_bytes(b.schedule_delivery_time) + cstring_bytes(
        b.validity_period,
    ) + seq![b.registered_delivery] + seq![b.replace_if_present] + seq![b.data_coding]
        + seq![b.sm_default_msg_id] + seq![b.sm_length] + b.short_message
}

/// The bytes of a body in a message with the given status. The answer to a
/// bind is one zero byte; the answer to a short message carries its message
/// id only where the status is zero.
pub open spec fn body_bytes(body: PduBodyView, command_status: u32) -> Seq<u8> {
    match body {
        PduBodyView::BindTransceiver(b) => bind_transceiver_bytes(b),
        PduBodyView::BindTransceiverResp => seq![0u8],
        PduBodyView::SubmitSm(b) => submit_sm_bytes(b),
        PduBodyView::SubmitSmResp { message_id } => if command_status == 0 {
            cstring_bytes(message_id)
        } else {
            Seq::empty()
        },
        _ => Seq::empty(),
    }
}

/// How many bytes a message takes on the wire, its length field included.
pub open spec fn wire_len(m: SmppMessageView) -> nat {
    16 + body_bytes(m.body, m.command_status).len()
}

/// The bytes of a message: the total length, the command id, the status, the
/// sequence number, then the body.
pub open spec fn message_bytes(m: SmppMessageView) -> Seq<u8> {
    u32_bytes(wire_len(m) as u32) + u32_bytes(m.command.id()) + u32_bytes(m.command_status)
        + u32_bytes(m.sequence_number) + body_bytes(m.body, m.command_status)
}

/// What reading a bind request's body from `b` gives: the body and what is
/// left behind it, or nothing where `b` ends before the body does.
pub open spec fn parse_bind_transceiver(b: Seq<u8>) -> Option<(BindTransceiverView, Seq<u8>)> {
    let r1 = after_text(b);
    let r2 = after_text(r1);
    let r3 = after_text(r2);
    let r4 = after_bytes(r3, 1);
    let r5 = after_bytes(r4, 1);
    let r6 = after_bytes(r5, 1);
    let r7 = after_text(r6);
    if has_terminator(b) && has_terminator(r1) && has_terminator(r2) && r3.len() >= 1 && r4.len()
        >= 1 && r5.len() >= 1 && has_terminator(r6) {
        Some(
            (
                BindTransceiverView {
                    system_id: text_of(b),
                    password: text_of(r1),
                    system_type: text_of(r2),
                    interface_version: r3[0],
                    addr_ton: r4[0],
                    addr_npi: r5[0],
                    address_range: text_of(r6),
                },
                r7,
            ),
        )
    } else {
        None
    }
}

/// What reading a short message request's body from `b` gives: the body and
/// what is left behind it, or nothing where `b` ends before the body does.
/// The message itself is as long as the length byte before it says.
pub open spec fn parse_submit_sm(b: Seq<u8>) -> Option<(SubmitSmView, Seq<u8>)> {
    let r1 = after_text(b);
    let r2 = after_bytes(r1, 1);
    let r3 = after_bytes(r2, 1);
    let r4 = after_text(r3);
    let r5 = after_bytes(r4, 1);
    let r6 = after_bytes(r5, 1);
    let r7 = after_text(r6);
    let r8 = after_bytes(r7, 1);
    let r9 = after_bytes(r8, 1);
    let r10 = after_bytes(r9, 1);
    let r11 = after_text(r10);
    let r12 = after_text(r11);
    let r13 = after_bytes(r12, 1);
    let r14 = after_bytes(r13, 1);
    let r15 = after_bytes(r14, 1);
    let r16 = after_bytes(r15, 1);
    let r17 = after_bytes(r16, 1);
    let r18 = after_bytes(r17, r16[0] as nat);
    if has_terminator(b) && r1.len() >= 1 && r2.len() >= 1 && has_terminator(r3) && r4.len() >= 1
        && r5.len() >= 1 && has_terminator(r6) && r7.len() >= 1 && r8.len() >= 1 && r9.len() >= 1
        && has_terminator(r10) && has_terminator(r11) && r12.len() >= 1 && r13.len() >= 1
        && r14.len() >= 1 && r15.len() >= 1 && r16.len() >= 1 && r17.len() >= r16[0] {
        Some(
            (
                SubmitSmView {
                    service_type: text_of(b),
                    source_addr_ton: r1[0],
                    source_addr_npi: r2[0],
                    source_addr: text_of(r3),
                    dest_addr_ton: r4[0],
                    dest_addr_npi: r5[0],
                    destination_addr: text_of(r6),
                    esm_class: r7[0],
                    protocol_id: r8[0],
                    priority_flag: r9[0],
                    schedule_delivery_time: text_of(r10),
                    validity_period: text_of(r11),
                    registered_delivery: r12[0],
                    replace_if_present: r13[0],
                    data_coding: r14[0],
                    sm_default_msg_id: r15[0],
                    sm_length: r16[0],
                    short_message: r17.take(r16[0] as int),
                },
                r18,
            ),
        )
    } else {
        None
    }
}

/// What reading the body of a message with command `c` from `b` gives,
/// together with what is left of `b`. Only a request has a body that can be
/// read: for an answer nothing is read. Where `b` ends before the body does,
/// nothing is left.
pub open spec fn parse_body(c: SmppCommand, b: Seq<u8>) -> (
    Result<PduBodyView, SmppCommandStatus>,
    Seq<u8>,
) {
    match c {
        SmppCommand::BindTransceiver => match parse_bind_transceiver(b) {
            Some((body, rest)) => (Ok(PduBodyView::BindTransceiver(body)), rest),
            None => (Err(SmppCommandStatus::InvalidMessageLength), Seq::empty()),
        },
        SmppCommand::SubmitSm => match parse_submit_sm(b) {
            Some((body, rest)) => (Ok(PduBodyView::SubmitSm(body)), rest),
            None => (Err(SmppCommandStatus::InvalidMessageLength), Seq::empty()),
        },
        SmppCommand::EnquireLink => (Ok(PduBodyView::EnquireLink), b),
        SmppCommand::Unbind => (Ok(PduBodyView::Unbind), b),
        _ => (Err(SmppCommandStatus::InvalidCommandId), b),
    }
}

/// What reading one message from `b` gives, together with what is left of
/// `b`. The four header fields are read first; a header that is cut short is
/// a length error and leaves nothing. An id that names no command, or names
/// an answer, is refused with the sixteen header bytes read and no more. The
/// declared length is kept as it was read and not held against the body.
pub open spec fn parse_message(b: Seq<u8>) -> (
    Result<SmppMessageView, SmppCommandStatus>,
    Seq<u8>,
) {
    if b.len() < 16 {
        (Err(SmppCommandStatus::InvalidMessageLength), Seq::empty())
    } else {
        match SmppCommand::of_id(be_u32(b.skip(4))) {
            None => (Err(SmppCommandStatus::InvalidCommandId), b.skip(16)),
            Some(c) => match parse_body(c, b.skip(16)) {
                (Ok(body), rest) => (
                    Ok(
                        SmppMessageView {
                            command_length: be_u32(b),
                            command: c,
                            command_status: be_u32(b.skip(8)),
                            sequence_number: be_u32(b.skip(12)),
                            body,
                        },
                    ),
                    rest,
                ),
                (Err(e), rest) => (Err(e), rest),
            },
        }
    }
}

/// What reading a frame gives: the message that `b` holds from its first
/// byte to its last. The declared length must be the length of `b`, and the
/// body must end where `b` ends.
pub open spec fn parse_frame(b: Seq<u8>) -> Result<SmppMessageView, SmppCommandStatus> {
    match parse_message(b) {
        (Ok(m), rest) => if rest.len() == 0 && m.command_length == b.len() {
            Ok(m)
        } else {
            Err(SmppCommandStatus::InvalidMessageLength)
        },
        (Err(e), _) => Err(e),
    }
}

/// Whether `s` can stand on the wire as it is: every character is ASCII and
/// none is the terminator.
pub open spec fn wire_text(s: Seq<char>) -> bool {
    forall|i: int| 0 <= i < s.len() ==> 0 < #[trigger] s[i] as int <= 0x7f
}

/// Whether every text field of a bind request can stand on the wire.
pub open spec fn bind_transceiver_well_formed(b: BindTransceiverView) -> bool {
    &&& wire_text(b.system_id)
    &&& wire_text(b.password)
    &&& wire_text(b.system_type)
    &&& wire_text(b.address_range)
}

/// Whether every text field of a short message request can stand on the
/// wire and the length byte gives the length of the message.
pub open spec fn submit_sm_well_formed(b: SubmitSmView) -> bool {
    &&& wire_text(b.service_type)
    &&& wire_text(b.source_addr)
    &&& wire_text(b.destination_addr)
    &&& wire_text(b.schedule_delivery_time)
    &&& wire_text(b.validity_period)
    &&& b.sm_length == b.short_message.len()
}

/// Whether `m` is a request whose fields can be read back: the command is a
/// request, the body has the command's shape and its fields can stand on
/// the wire.
pub open spec fn well_formed_request(m: SmppMessageView) -> bool {
    &&& m.command.is_request()
    &&& m.body.command() == m.command
    &&& match m.body {
        PduBodyView::BindTransceiver(b) => bind_transceiver_well_formed(b),
        PduBodyView::SubmitSm(b) => submit_sm_well_formed(b),
        _ => true,
    }
}

/// Whether `m` is a request as it stands on the wire: it is well formed and
/// the length it declares is its length on the wire.
pub open spec fn valid_request(m: SmppMessageView) -> bool {
    well_formed_request(m) && m.command_length == wire_len(m)
}

/// A text that can stand on the wire is read back from its bytes, whatever
/// follows them, and what follows is left.
pub proof fn lemma_text_round_trip(s: Seq<char>, tail: Seq<u8>)
    requires
        wire_text(s),
    ensures
        has_terminator(cstring_bytes(s) + tail),
        text_of(cstring_bytes(s) + tail) == s,
        after_text(cstring_bytes(s) + tail) == tail,
        cstring_bytes(s).len() == s.len() + 1,
{
    reveal(has_terminator);
    reveal(text_of);
    reveal(after_text);
    let b = cstring_bytes(s) + tail;
    assert(is_ascii_chars(s)) by {
        assert forall|i: int| 0 <= i < s.len() implies '\0' <= #[trigger] s[i] <= '\u{7f}' by {
            assert(0 < s[i] as int <= 0x7f);
        }
    }
    is_ascii_chars_encode_utf8(s);
    let e = encode_utf8(s);
    assert forall|i: int| 0 <= i < s.len() implies b[i] != 0 by {
        assert(b[i] == e[i]);
        assert(0 < s[i] as int <= 0x7f);
    }
    assert(b[s.len() as int] == 0);
    lemma_text_len_is(b, s.len() as int);
    assert(text_of(b) =~= s) by {
        assert forall|i: int| 0 <= i < s.len() implies text_of(b)[i] == s[i] by {
            assert(b[i] == e[i]);
            assert(0 < s[i] as int <= 0x7f);
        }
    }
    assert(after_text(b) =~= tail);
}

/// One byte is read back from in front of whatever follows it.
proof fn lemma_byte_round_trip(x: u8, tail: Seq<u8>)
    ensures
        (seq![x] + tail).len() >= 1,
        (seq![x] + tail)[0] == x,
        after_bytes(seq![x] + tail, 1) == tail,
{
    reveal(after_bytes);
    assert(after_bytes(seq![x] + tail, 1) =~= tail);
}

/// Bytes are read back from in front of whatever follows them.
proof fn lemma_bytes_round_trip(m: Seq<u8>, tail: Seq<u8>)
    ensures
        (m + tail).len() >= m.len(),
        (m + tail).take(m.len() as int) == m,
        after_bytes(m + tail, m.len()) == tail,
{
    reveal(after_bytes);
    assert(after_bytes(m + tail, m.len()) =~= tail);
    assert((m + tail).take(m.len() as int) =~= m);
}

/// Putting sequences together does not depend on where one starts.
proof fn lemma_concat_assoc(a: Seq<u8>, b: Seq<u8>, c: Seq<u8>)
    ensures
        (a + b) + c == a + (b + c),
{
    assert((a + b) + c =~= a + (b + c));
}

/// A well-formed bind request is read back from its bytes, whatever follows
/// them, and what follows is left.
pub proof fn lemma_bind_transceiver_round_trip(v: BindTransceiverView, tail: Seq<u8>)
    requires
        bind_transceiver_well_formed(v),
    ensures
        parse_bind_transceiver(bind_transceiver_bytes(v) + tail) == Some((v, tail)),
{
    let t7 = tail;
    let t6 = cstring_bytes(v.address_range) + t7;
    let t5 = seq![v.addr_npi] + t6;
    let t4 = seq![v.addr_ton] + t5;
    let t3 = seq![v.interface_version] + t4;
    let t2 = cstring_bytes(v.system_type) + t3;
    let t1 = cstring_bytes(v.password) + t2;
    let t0 = cstring_bytes(v.system_id) + t1;
    let p1 = cstring_bytes(v.system_id);
    let p2 = p1 + cstring_bytes(v.password);
    let p3 = p2 + cstring_bytes(v.system_type);
    let p4 = p3 + seq![v.interface_version];
    let p5 = p4 + seq![v.addr_ton];
    let p6 = p5 + seq![v.addr_npi];
    let p7 = p6 + cstring_bytes(v.address_range);
    lemma_concat_assoc(p6, cstring_bytes(v.address_range), t7);
    lemma_concat_assoc(p5, seq![v.addr_npi], t6);
    lemma_concat_assoc(p4, seq![v.addr_ton], t5);
    lemma_concat_assoc(p3, seq![v.interface_version], t4);
    lemma_concat_assoc(p2, cstring_bytes(v.system_type), t3);
    lemma_concat_assoc(p1, cstring_bytes(v.password), t2);
    lemma_text_round_trip(v.system_id, t1);
    lemma_text_round_trip(v.password, t2);
    lemma_text_round_trip(v.system_type, t3);
    lemma_byte_round_trip(v.interface_version, t4);
    lemma_byte_round_trip(v.addr_ton, t5);
    lemma_byte_round_trip(v.addr_npi, t6);
    lemma_text_round_trip(v.address_range, t7);
}

/// The bytes of a short message request followed by `tail`, put together
/// from the last field to the first.
spec fn submit_sm_nested(v: SubmitSmView, tail: Seq<u8>) -> Seq<u8> {
    let t17 = v.short_message + tail;
    let t16 = seq![v.sm_length] + t17;
    let t15 = seq![v.sm_default_msg_id] + t16;
    let t14 = seq![v.data_coding] + t15;
    let t13 = seq![v.replace_if_present] + t14;
    let t12 = seq![v.registered_delivery] + t13;
    let t11 = cstring_bytes(v.validity_period) + t12;
    let t10 = cstring_bytes(v.schedule_delivery_time) + t11;
    let t9 = seq![v.priority_flag] + t10;
    let t8 = seq![v.protocol_id] + t9;
    let t7 = seq![v.esm_class] + t8;
    let t6 = cstring_bytes(v.destination_addr) + t7;
    let t5 = seq![v.dest_addr_npi] + t6;
    let t4 = seq![v.dest_addr_ton] + t5;
    let t3 = cstring_bytes(v.source_addr) + t4;
    let t2 = seq![v.source_addr_npi] + t3;
    let t1 = seq![v.source_addr_ton] + t2;
    let t0 = cstring_bytes(v.service_type) + t1;
    t0
}

/// Putting the fields together from the last to the first gives the same
/// bytes as putting them together from the first to the last.
proof fn lemma_submit_sm_nested(v: SubmitSmView, tail: Seq<u8>)
    ensures
        submit_sm_bytes(v) + tail == submit_sm_nested(v, tail),
{
    let t17 = v.short_message + tail;
    let t16 = seq![v.sm_length] + t17;
    let t15 = seq![v.sm_default_msg_id] + t16;
    let t14 = seq![v.data_coding] + t15;
    let t13 = seq![v.replace_if_present] + t14;
    let t12 = seq![v.registered_delivery] + t13;
    let t11 = cstring_bytes(v.validity_period) + t12;
    let t10 = cstring_bytes(v.schedule_delivery_time) + t11;
    let t9 = seq![v.priority_flag] + t10;
    let t8 = seq![v.protocol_id] + t9;
    let t7 = seq![v.esm_class] + t8;
    let t6 = cstring_bytes(v.destination_addr) + t7;
    let t5 = seq![v.dest_addr_npi] + t6;
    let t4 = seq![v.dest_addr_ton] + t5;
    let t3 = cstring_bytes(v.source_addr) + t4;
    let t2 = seq![v.source_addr_npi] + t3;
    let t1 = seq![v.source_addr_ton] + t2;
    let t0 = cstring_bytes(v.service_type) + t1;
    let p1 = cstring_bytes(v.service_type);
    let p2 = p1 + seq![v.source_addr_ton];
    let p3 = p2 + seq![v.source_addr_npi];
    let p4 = p3 + cstring_bytes(v.source_addr);
    let p5 = p4 + seq![v.dest_addr_ton];
    let p6 = p5 + seq![v.dest_addr_npi];
    let p7 = p6 + cstring_bytes(v.destination_addr);
    let p8 = p7 + seq![v.esm_class];
    let p9 = p8 + seq![v.protocol_id];
    let p10 = p9 + seq![v.priority_flag];
    let p11 = p10 + cstring_bytes(v.schedule_delivery_time);
    let p12 = p11 + cstring_bytes(v.validity_period);
    let p13 = p12 + seq![v.registered_delivery];
    let p14 = p13 + seq![v.replace_if_present];
    let p15 = p14 + seq![v.data_coding];
    let p16 = p15 + seq![v.sm_default_msg_id];
    let p17 = p16 + seq![v.sm_length];
    lemma_concat_assoc(p17, v.short_message, tail);
    lemma_concat_assoc(p16, seq![v.sm_length], t17);
    lemma_concat_assoc(p15, seq![v.sm_default_msg_id], t16);
    lemma_concat_assoc(p14, seq![v.data_coding], t15);
    lemma_concat_assoc(p13, seq![v.replace_if_present], t14);
    lemma_concat_assoc(p12, seq![v.registered_delivery], t13);
    lemma_concat_assoc(p11, cstring_bytes(v.validity_period), t12);
    lemma_concat_assoc(p10, cstring_bytes(v.schedule_delivery_time), t11);
    lemma_concat_assoc(p9, seq![v.priority_flag], t10);
    lemma_concat_assoc(p8, seq![v.protocol_id], t9);
    lemma_concat_assoc(p7, seq![v.esm_class], t8);
    lemma_concat_assoc(p6, cstring_bytes(v.destination_addr), t7);
    lemma_concat_assoc(p5, seq![v.dest_addr_npi], t6);
    lemma_concat_assoc(p4, seq![v.dest_addr_ton], t5);
    lemma_concat_assoc(p3, cstring_bytes(v.source_addr), t4);
    lemma_concat_assoc(p2, seq![v.source_addr_npi], t3);
    lemma_concat_assoc(p1, seq![v.source_addr_ton], t2);
}

/// A well-formed short message request is read back, field by field, from
/// its bytes put together from the last field to the first.
proof fn lemma_submit_sm_nested_parse(v: SubmitSmView, tail: Seq<u8>)
    requires
        submit_sm_well_formed(v),
    ensures
        parse_submit_sm(submit_sm_nested(v, tail)) == Some((v, tail)),
{
    let t17 = v.short_message + tail;
    let t16 = seq![v.sm_length] + t17;
    let t15 = seq![v.sm_default_msg_id] + t16;
    let t14 = seq![v.data_coding] + t15;
    let t13 = seq![v.replace_if_present] + t14;
    let t12 = seq![v.registered_delivery] + t13;
    let t11 = cstring_bytes(v.validity_period) + t12;
    let t10 = cstring_bytes(v.schedule_delivery_time) + t11;
    let t9 = seq![v.priority_flag] + t10;
    let t8 = seq![v.protocol_id] + t9;
    let t7 = seq![v.esm_class] + t8;
    let t6 = cstring_bytes(v.destination_addr) + t7;
    let t5 = seq![v.dest_addr_npi] + t6;
    let t4 = seq![v.dest_addr_ton] + t5;
    let t3 = cstring_bytes(v.source_addr) + t4;
    let t2 = seq![v.source_addr_npi] + t3;
    let t1 = seq![v.source_addr_ton] + t2;
    let t0 = cstring_bytes(v.service_type) + t1;
    lemma_text_round_trip(v.service_type, t1);
    lemma_byte_round_trip(v.source_addr_ton, t2);
    lemma_byte_round_trip(v.source_addr_npi, t3);
    lemma_text_round_trip(v.source_addr, t4);
    lemma_byte_round_trip(v.dest_addr_ton, t5);
    lemma_byte_round_trip(v.dest_addr_npi, t6);
    lemma_text_round_trip(v.destination_addr, t7);
    lemma_byte_round_trip(v.esm_class, t8);
    lemma_byte_round_trip(v.protocol_id, t9);
    lemma_byte_round_trip(v.priority_flag, t10);
    lemma_text_round_trip(v.schedule_delivery_time, t11);
    lemma_text_round_trip(v.validity_period, t12);
    lemma_byte_round_trip(v.registered_delivery, t13);
    lemma_byte_round_trip(v.replace_if_present, t14);
    lemma_byte_round_trip(v.data_coding, t15);
    lemma_byte_round_trip(v.sm_default_msg_id, t16);
    lemma_byte_round_trip(v.sm_length, t17);
    lemma_bytes_round_trip(v.short_message, tail);
}

/// A well-formed short message request is read back from its bytes, whatever
/// follows them, and what follows is left.
pub proof fn lemma_submit_sm_round_trip(v: SubmitSmView, tail: Seq<u8>)
    requires
        submit_sm_well_formed(v),
    ensures
        parse_submit_sm(submit_sm_bytes(v) + tail) == Some((v, tail)),
{
    lemma_submit_sm_nested(v, tail);
    lemma_submit_sm_nested_parse(v, tail);
}

/// Whether `p` is the start of `x`.
spec fn starts(x: Seq<u8>, p: Seq<u8>) -> bool {
    p.len() <= x.len() && p == x.take(p.len() as int)
}

/// A text that is read to its terminator from the start of `x` is read the
/// same from `x`, and what is left grows by what `x` has more.
proof fn lemma_text_extends(p: Seq<u8>, x: Seq<u8>)
    requires
        starts(x, p),
        has_terminator(p),
    ensures
        has_terminator(x),
        text_of(x) == text_of(p),
        starts(after_text(x), after_text(p)),
        after_text(x).len() - after_text(p).len() == x.len() - p.len(),
{
    reveal(has_terminator);
    reveal(text_of);
    reveal(after_text);
    lemma_text_len(p);
    let n = text_len(p) as int;
    assert forall|i: int| 0 <= i < n implies x[i] != 0 by {
        assert(x[i] == p[i]);
    }
    assert(x[n] == p[n]);
    lemma_text_len_is(x, n);
    assert(text_of(x) =~= text_of(p)) by {
        assert forall|i: int| 0 <= i < n implies text_of(x)[i] == text_of(p)[i] by {
            assert(x[i] == p[i]);
        }
    }
    assert(after_text(p) =~= after_text(x).take(after_text(p).len() as int)) by {
        assert forall|i: int| 0 <= i < after_text(p).len() implies after_text(p)[i] == after_text(
            x,
        )[i] by {
            assert(p[n + 1 + i] == x[n + 1 + i]);
        }
    }
}

/// Bytes that are read in full from the start of `x` are read the same from
/// `x`, and what is left grows by what `x` has more.
proof fn lemma_bytes_extends(p: Seq<u8>, x: Seq<u8>, n: nat)
    requires
        starts(x, p),
        n <= p.len(),
    ensures
        n <= x.len(),
        x.take(n as int) == p.take(n as int),
        n >= 1 ==> x[0] == p[0],
        starts(after_bytes(x, n), after_bytes(p, n)),
        after_bytes(x, n).len() - after_bytes(p, n).len() == x.len() - p.len(),
{
    reveal(after_bytes);
    assert(x.take(n as int) =~= p.take(n as int)) by {
        assert forall|i: int| 0 <= i < n implies x[i] == p[i] by {
            assert(x[i] == x.take(p.len() as int)[i]);
        }
    }
    if n >= 1 {
        assert(x[0] == x.take(p.len() as int)[0]);
    }
    assert(after_bytes(p, n) =~= after_bytes(x, n).take(after_bytes(p, n).len() as int)) by {
        assert forall|i: int| 0 <= i < after_bytes(p, n).len() implies after_bytes(p, n)[i]
            == after_bytes(x, n)[i] by {
            assert(p[n + i] == x.take(p.len() as int)[n + i]);
        }
    }
}

/// A bind request that is read from the start of `x` is read the same from
/// `x`, and what is left grows by what `x` has more.
proof fn lemma_bind_transceiver_extends(p: Seq<u8>, x: Seq<u8>)
    requires
        starts(x, p),
        parse_bind_transceiver(p) is Some,
    ensures
        match (parse_bind_transceiver(p), parse_bind_transceiver(x)) {
            (Some((vp, rp)), Some((vx, rx))) => vx == vp && starts(rx, rp) && rx.len() - rp.len()
                == x.len() - p.len(),
            _ => false,
        },
{
    let p0 = p;
    let x0 = x;
    lemma_text_extends(p0, x0);
    let p1 = after_text(p0);
    let x1 = after_text(x0);
    lemma_text_extends(p1, x1);
    let p2 = after_text(p1);
    let x2 = after_text(x1);
    lemma_text_extends(p2, x2);
    let p3 = after_text(p2);
    let x3 = after_text(x2);
    lemma_bytes_extends(p3, x3, 1);
    let p4 = after_bytes(p3, 1);
    let x4 = after_bytes(x3, 1);
    lemma_bytes_extends(p4, x4, 1);
    let p5 = after_bytes(p4, 1);
    let x5 = after_bytes(x4, 1);
    lemma_bytes_extends(p5, x5, 1);
    let p6 = after_bytes(p5, 1);
    let x6 = after_bytes(x5, 1);
    lemma_text_extends(p6, x6);
    let p7 = after_text(p6);
    let x7 = after_text(x6);
}

/// A short message request that is read from the start of `x` is read the
/// same from `x`, and what is left grows by what `x` has more.
proof fn lemma_submit_sm_extends(p: Seq<u8>, x: Seq<u8>)
    requires
        starts(x, p),
        parse_submit_sm(p) is Some,
    ensures
        match (parse_submit_sm(p), parse_submit_sm(x)) {
            (Some((vp, rp)), Some((vx, rx))) => vx == vp && starts(rx, rp) && rx.len() - rp.len()
                == x.len() - p.len(),
            _ => false,
        },
{
    let p0 = p;
    let x0 = x;
    lemma_text_extends(p0, x0);
    let p1 = after_text(p0);
    let x1 = after_text(x0);
    lemma_bytes_extends(p1, x1, 1);
    let p2 = after_bytes(p1, 1);
    let x2 = after_bytes(x1, 1);
    lemma_bytes_extends(p2, x2, 1);
    let p3 = after_bytes(p2, 1);
    let x3 = after_bytes(x2, 1);
    lemma_text_extends(p3, x3);
    let p4 = after_text(p3);
    let x4 = after_text(x3);
    lemma_bytes_extends(p4, x4, 1);
    let p5 = after_bytes(p4, 1);
    let x5 = after_bytes(x4, 1);
    lemma_bytes_extends(p5, x5, 1);
    let p6 = after_bytes(p5, 1);
    let x6 = after_bytes(x5, 1);
    lemma_text_extends(p6, x6);
    let p7 = after_text(p6);
    let x7 = after_text(x6);
    lemma_bytes_extends(p7, x7, 1);
    let p8 = after_bytes(p7, 1);
    let x8 = after_bytes(x7, 1);
    lemma_bytes_extends(p8, x8, 1);
    let p9 = after_bytes(p8, 1);
    let x9 = after_bytes(x8, 1);
    lemma_bytes_extends(p9, x9, 1);
    let p10 = after_bytes(p9, 1);
    let x10 = after_bytes(x9, 1);
    lemma_text_extends(p10, x10);
    let p11 = after_text(p10);
    let x11 = after_text(x10);
    lemma_text_extends(p11, x11);
    let p12 = after_text(p11);
    let x12 = after_text(x11);
    lemma_bytes_extends(p12, x12, 1);
    let p13 = after_bytes(p12, 1);
    let x13 = after_bytes(x12, 1);
    lemma_bytes_extends(p13, x13, 1);
    let p14 = after_bytes(p13, 1);
    let x14 = after_bytes(x13, 1);
    lemma_bytes_extends(p14, x14, 1);
    let p15 = after_bytes(p14, 1);
    let x15 = after_bytes(x14, 1);
    lemma_bytes_extends(p15, x15, 1);
    let p16 = after_bytes(p15, 1);
    let x16 = after_bytes(x15, 1);
    lemma_bytes_extends(p16, x16, 1);
    let p17 = after_bytes(p16, 1);
    let x17 = after_bytes(x16, 1);
    lemma_bytes_extends(p17, x17, p16[0] as nat);
}

/// The four header fields are read back from the bytes of a header, and
/// what follows the header is left.
proof fn lemma_header_round_trip(a: u32, b: u32, c: u32, d: u32, tail: Seq<u8>)
    ensures
        ({
            let x = u32_bytes(a) + u32_bytes(b) + u32_bytes(c) + u32_bytes(d) + tail;
            &&& x.len() == 16 + tail.len()
            &&& be_u32(x) == a
            &&& be_u32(x.skip(4)) == b
            &&& be_u32(x.skip(8)) == c
            &&& be_u32(x.skip(12)) == d
            &&& x.skip(16) == tail
        }),
{
    let x = u32_bytes(a) + u32_bytes(b) + u32_bytes(c) + u32_bytes(d) + tail;
    let t3 = u32_bytes(d) + tail;
    let t2 = u32_bytes(c) + t3;
    let t1 = u32_bytes(b) + t2;
    assert(x =~= u32_bytes(a) + t1);
    lemma_be_u32_of_bytes(a, t1);
    lemma_be_u32_of_bytes(b, t2);
    lemma_be_u32_of_bytes(c, t3);
    lemma_be_u32_of_bytes(d, tail);
    assert(x.skip(8) =~= x.skip(4).skip(4));
    assert(x.skip(12) =~= x.skip(8).skip(4));
    assert(x.skip(16) =~= x.skip(12).skip(4));
}

/// The length field of a message gives the length of the whole message:
/// the first four bytes of its bytes, read as a number, are how many bytes
/// there are.
pub proof fn lemma_length_field(m: SmppMessageView)
    requires
        wire_len(m) <= u32::MAX,
    ensures
        message_bytes(m).len() == wire_len(m),
        be_u32(message_bytes(m)) == message_bytes(m).len(),
{
    lemma_header_round_trip(
        wire_len(m) as u32,
        m.command.id(),
        m.command_status,
        m.sequence_number,
        body_bytes(m.body, m.command_status),
    );
}

/// Reading is the inverse of writing: a well-formed request is read back
/// from its bytes, whatever follows them, and what follows is left. The
/// length that is read is the one that was written, so a request that
/// declares its own length on the wire is read back unchanged.
pub proof fn lemma_round_trip(m: SmppMessageView, tail: Seq<u8>)
    requires
        well_formed_request(m),
    ensures
        parse_message(message_bytes(m) + tail) == (
            Ok::<SmppMessageView, SmppCommandStatus>(
                SmppMessageView { command_length: wire_len(m) as u32, ..m },
            ),
            tail,
        ),
        valid_request(m) ==> parse_message(message_bytes(m) + tail) == (
            Ok::<SmppMessageView, SmppCommandStatus>(m),
            tail,
        ),
{
    let body = body_bytes(m.body, m.command_status);
    lemma_concat_assoc(
        u32_bytes(wire_len(m) as u32) + u32_bytes(m.command.id()) + u32_bytes(m.command_status)
            + u32_bytes(m.sequence_number),
        body,
        tail,
    );
    lemma_header_round_trip(
        wire_len(m) as u32,
        m.command.id(),
        m.command_status,
        m.sequence_number,
        body + tail,
    );
    lemma_command_ids(m.command, m.command.id());
    match m.body {
        PduBodyView::BindTransceiver(b) => lemma_bind_transceiver_round_trip(b, tail),
        PduBodyView::SubmitSm(b) => lemma_submit_sm_round_trip(b, tail),
        _ => {
            assert(body + tail =~= tail);
        },
    }
}

/// Answers are not read: the bytes of a message whose command is an answer
/// are refused for their command id once the header is read, and the body
/// is left unread.
pub proof fn lemma_answer_refused(m: SmppMessageView, tail: Seq<u8>)
    requires
        !m.command.is_request(),
    ensures
        parse_message(message_bytes(m) + tail) == (
            Err::<SmppMessageView, SmppCommandStatus>(SmppCommandStatus::InvalidCommandId),
            body_bytes(m.body, m.command_status) + tail,
        ),
{
    let body = body_bytes(m.body, m.command_status);
    lemma_concat_assoc(
        u32_bytes(wire_len(m) as u32) + u32_bytes(m.command.id()) + u32_bytes(m.command_status)
            + u32_bytes(m.sequence_number),
        body,
        tail,
    );
    lemma_header_round_trip(
        wire_len(m) as u32,
        m.command.id(),
        m.command_status,
        m.sequence_number,
        body + tail,
    );
    lemma_command_ids(m.command, m.command.id());
}

/// A request that is cut short is a length error: reading any proper start
/// of the bytes of a well-formed request fails, and leaves nothing.
pub proof fn lemma_truncated(m: SmppMessageView, k: int)
    requires
        well_formed_request(m),
        0 <= k < message_bytes(m).len(),
    ensures
        parse_message(message_bytes(m).take(k)) == (
            Err::<SmppMessageView, SmppCommandStatus>(SmppCommandStatus::InvalidMessageLength),
            Seq::<u8>::empty(),
        ),
{
    let x = message_bytes(m);
    let p = x.take(k);
    let body = body_bytes(m.body, m.command_status);
    lemma_round_trip(m, Seq::empty());
    assert(x + Seq::<u8>::empty() =~= x);
    lemma_header_round_trip(
        wire_len(m) as u32,
        m.command.id(),
        m.command_status,
        m.sequence_number,
        body,
    );
    if k >= 16 {
        assert(be_u32(p.skip(4)) == be_u32(x.skip(4))) by {
            assert(p.skip(4)[0] == x.skip(4)[0]);
            assert(p.skip(4)[1] == x.skip(4)[1]);
            assert(p.skip(4)[2] == x.skip(4)[2]);
            assert(p.skip(4)[3] == x.skip(4)[3]);
        }
        let pb = p.skip(16);
        assert(pb =~= body.take(pb.len() as int));
        assert(body.len() - pb.len() == x.len() - k);
        match m.body {
            PduBodyView::BindTransceiver(b) => {
                if parse_bind_transceiver(pb) is Some {
                    lemma_bind_transceiver_extends(pb, body);
                }
            },
            PduBodyView::SubmitSm(b) => {
                if parse_submit_sm(pb) is Some {
                    lemma_submit_sm_extends(pb, body);
                }
            },
            _ => {},
        }
    }
}

/// The bytes of a valid request are a frame that holds that request.
pub proof fn lemma_frame_round_trip(m: SmppMessageView)
    requires
        valid_request(m),
    ensures
        parse_frame(message_bytes(m)) == Ok::<SmppMessageView, SmppCommandStatus>(m),
        message_bytes(m).len() == wire_len(m),
        be_u32(message_bytes(m)) == message_bytes(m).len(),
{
    lemma_round_trip(m, Seq::empty());
    assert(message_bytes(m) + Seq::<u8>::empty() =~= message_bytes(m));
    lemma_header_round_trip(
        wire_len(m) as u32,
        m.command.id(),
        m.command_status,
        m.sequence_number,
        body_bytes(m.body, m.command_status),
    );
}

} // verus!
