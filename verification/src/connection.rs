use crate::format::{
    bind_transceiver_bytes, body_bytes, lemma_length_field, lemma_text_round_trip, message_bytes,
    parse_bind_transceiver, parse_body, parse_frame, parse_message, parse_submit_sm,
    submit_sm_bytes, wire_len,
};
use crate::smpp::{
    BindTransceiver, PduBody, PduBodyView, SmppCommand, SmppCommandStatus, SmppMessage,
    SmppMessageView, SubmitSm, ESME_RALYBND, ESME_ROK,
};
use crate::util::{
    after_bytes, after_text, be_u32, decimal, lemma_decimal, read_exact, read_terminated_cstring,
    read_u32, read_u8, ten_to, u32_to_string, write_bytes, write_cstring, write_u32, ByteStream,
};
use vstd::prelude::*;

verus! {

/// Reads the fields of a bind request in their fixed order.
fn read_bind_transceiver(r: &mut ByteStream) -> (res: Result<BindTransceiver, SmppCommandStatus>)
    ensures
        match parse_bind_transceiver(old(r)@) {
            Some((body, rest)) => res matches Ok(b) && b@ == body && final(r)@ == rest,
            None => res == Err::<BindTransceiver, SmppCommandStatus>(
                SmppCommandStatus::InvalidMessageLength,
            ) && final(r)@ == Seq::<u8>::empty(),
        },
{
    proof {
        reveal(after_text);
        reveal(after_bytes);
    }
    let system_id = read_terminated_cstring(r)?;
    let password = read_terminated_cstring(r)?;
    let system_type = read_terminated_cstring(r)?;
    let interface_version = read_u8(r)?;
    let addr_ton = read_u8(r)?;
    let addr_npi = read_u8(r)?;
    let address_range = read_terminated_cstring(r)?;
    Ok(
        BindTransceiver {
            system_id,
            password,
            system_type,
            interface_version,
            addr_ton,
            addr_npi,
            address_range,
        },
    )
}

/// Reads the fields of a short message request in their fixed order, the
/// message itself as long as the length byte before it says.
fn read_submit_sm(r: &mut ByteStream) -> (res: Result<SubmitSm, SmppCommandStatus>)
    ensures
        match parse_submit_sm(old(r)@) {
            Some((body, rest)) => res matches Ok(b) && b@ == body && final(r)@ == rest,
            None => res == Err::<SubmitSm, SmppCommandStatus>(
                SmppCommandStatus::InvalidMessageLength,
            ) && final(r)@ == Seq::<u8>::empty(),
        },
{
    proof {
        reveal(after_text);
        reveal(after_bytes);
    }
    let service_type = read_terminated_cstring(r)?;
    let source_addr_ton = read_u8(r)?;
    let source_addr_npi = read_u8(r)?;
    let source_addr = read_terminated_cstring(r)?;
    let dest_addr_ton = read_u8(r)?;
    let dest_addr_npi = read_u8(r)?;
    let destination_addr = read_terminated_cstring(r)?;
    let esm_class = read_u8(r)?;
    let protocol_id = read_u8(r)?;
    let priority_flag = read_u8(r)?;
    let schedule_delivery_time = read_terminated_cstring(r)?;
    let validity_period = read_terminated_cstring(r)?;
    let registered_delivery = read_u8(r)?;
    let replace_if_present = read_u8(r)?;
    let data_coding = read_u8(r)?;
    let sm_default_msg_id = read_u8(r)?;
    let sm_length = read_u8(r)?;
    let short_message = read_exact(r, sm_length as usize)?;
    Ok(
        SubmitSm {
            service_type,
            source_addr_ton,
            source_addr_npi,
            source_addr,
            dest_addr_ton,
            dest_addr_npi,
            destination_addr,
            esm_class,
            protocol_id,
            priority_flag,
            schedule_delivery_time,
            validity_period,
            registered_delivery,
            replace_if_present,
            data_coding,
            sm_default_msg_id,
            sm_length,
            short_message,
        },
    )
}

/// Appends the fields of a bind request in their fixed order.
fn write_bind_transceiver(w: &mut Vec<u8>, b: &BindTransceiver)
    ensures
        final(w)@ == old(w)@ + bind_transceiver_bytes(b@),
{
    write_cstring(w, b.system_id.as_str());
    write_cstring(w, b.password.as_str());
    write_cstring(w, b.system_type.as_str());
    w.push(b.interface_version);
    w.push(b.addr_ton);
    w.push(b.addr_npi);
    write_cstring(w, b.address_range.as_str());
    assert(w@ =~= old(w)@ + bind_transceiver_bytes(b@));
}

/// Appends the fields of a short message request in their fixed order.
fn write_submit_sm(w: &mut Vec<u8>, b: &SubmitSm)
    ensures
        final(w)@ == old(w)@ + submit_sm_bytes(b@),
{
    write_cstring(w, b.service_type.as_str());
    w.push(b.source_addr_ton);
    w.push(b.source_addr_npi);
    write_cstring(w, b.source_addr.as_str());
    w.push(b.dest_addr_ton);
    w.push(b.dest_addr_npi);
    write_cstring(w, b.destination_addr.as_str());
    w.push(b.esm_class);
    w.push(b.protocol_id);
    w.push(b.priority_flag);
    write_cstring(w, b.schedule_delivery_time.as_str());
    write_cstring(w, b.validity_period.as_str());
    w.push(b.registered_delivery);
    w.push(b.replace_if_present);
    w.push(b.data_coding);
    w.push(b.sm_default_msg_id);
    w.push(b.sm_length);
    write_bytes(w, b.short_message.as_slice());
    assert(w@ =~= old(w)@ + submit_sm_bytes(b@));
}

/// Appends the body of a message with the given status.
fn write_body(w: &mut Vec<u8>, body: &PduBody, command_status: u32)
    ensures
        final(w)@ == old(w)@ + body_bytes(body@, command_status),
{
    match body {
        PduBody::BindTransceiver(b) => write_bind_transceiver(w, b),
        PduBody::BindTransceiverResp => {
            w.push(0u8);
        },
        PduBody::SubmitSm(b) => write_submit_sm(w, b),
        PduBody::SubmitSmResp { message_id } => {
            if command_status == 0 {
                write_cstring(w, message_id.as_str());
            }
        },
        _ => {},
    }
    assert(w@ =~= old(w)@ + body_bytes(body@, command_status));
}

/// Reads the body of a request with command `c`. Nothing is read for a
/// command that is an answer.
fn read_body(r: &mut ByteStream, c: SmppCommand) -> (res: Result<PduBody, SmppCommandStatus>)
    ensures
        final(r)@ == parse_body(c, old(r)@).1,
        match parse_body(c, old(r)@).0 {
            Ok(body) => res matches Ok(b) && b@ == body,
            Err(e) => res matches Err(x) && x == e,
        },
{
    match c {
        SmppCommand::BindTransceiver => Ok(PduBody::BindTransceiver(read_bind_transceiver(r)?)),
        SmppCommand::EnquireLink => Ok(PduBody::EnquireLink),
        SmppCommand::SubmitSm => Ok(PduBody::SubmitSm(read_submit_sm(r)?)),
        SmppCommand::Unbind => Ok(PduBody::Unbind),
        _ => Err(SmppCommandStatus::InvalidCommandId),
    }
}

/// Whether a connection has been bound.
#[derive(Debug, Clone, Copy, PartialEq, Eq, Structural)]
pub enum SmppConnectionStatus {
    NotYetBound,
    Bound,
}

impl SmppConnectionStatus {
    /// The state after a message with command `c` has been handled: a bind
    /// request leaves the connection bound, nothing else changes the state.
    pub open spec fn after(self, c: SmppCommand) -> SmppConnectionStatus {
        if c == SmppCommand::BindTransceiver {
            SmppConnectionStatus::Bound
        } else {
            self
        }
    }

    /// The status of the answer to a request with command `c` in this state:
    /// a bind request on a bound connection is answered "already bound", any
    /// other request is accepted.
    pub open spec fn answer_status(self, c: SmppCommand) -> u32 {
        if c == SmppCommand::BindTransceiver && self == SmppConnectionStatus::Bound {
            ESME_RALYBND
        } else {
            ESME_ROK
        }
    }

    /// The answer to the message `m` in this state; none where `m` is itself
    /// an answer. It carries the answering command, `m`'s sequence number
    /// and, where it answers a short message, that number in decimal digits
    /// as the message id.
    pub open spec fn answer(self, m: SmppMessageView) -> Option<SmppMessageView> {
        match m.command.response() {
            Some(c) => Some(
                SmppMessageView {
                    command_length: 0,
                    command: c,
                    command_status: self.answer_status(m.command),
                    sequence_number: m.sequence_number,
                    body: if c == SmppCommand::SubmitSmResp {
                        PduBodyView::SubmitSmResp { message_id: decimal(m.sequence_number as nat) }
                    } else {
                        PduBodyView::blank_response(c)
                    },
                },
            ),
            None => None,
        }
    }
}

/// An answer is short: it always fits the length field.
pub proof fn lemma_answer_fits(status: SmppConnectionStatus, m: SmppMessageView)
    ensures
        status.answer(m) matches Some(a) ==> wire_len(a) <= 27,
{
    if let Some(a) = status.answer(m) {
        if a.command == SmppCommand::SubmitSmResp {
            let id = decimal(m.sequence_number as nat);
            assert(ten_to(10) == 10_000_000_000nat) by {
                reveal_with_fuel(ten_to, 11);
            }
            lemma_decimal(m.sequence_number as nat, 10);
            lemma_text_round_trip(id, Seq::empty());
        }
    }
}

/// The legal order of commands: the first bind request on a connection is
/// accepted and binds it; a bind request on a bound connection is answered
/// "already bound" and leaves it bound; no other command changes the state,
/// and every other request is accepted in either state.
pub proof fn lemma_transitions(status: SmppConnectionStatus, c: SmppCommand)
    ensures
        SmppConnectionStatus::NotYetBound.after(SmppCommand::BindTransceiver)
            == SmppConnectionStatus::Bound,
        SmppConnectionStatus::NotYetBound.answer_status(SmppCommand::BindTransceiver) == 0,
        SmppConnectionStatus::Bound.after(SmppCommand::BindTransceiver)
            == SmppConnectionStatus::Bound,
        SmppConnectionStatus::Bound.answer_status(SmppCommand::BindTransceiver) == ESME_RALYBND,
        SmppConnectionStatus::NotYetBound.after(SmppCommand::BindTransceiver).answer_status(
            SmppCommand::BindTransceiver,
        ) == ESME_RALYBND,
        ESME_RALYBND != 0,
        c != SmppCommand::BindTransceiver ==> status.after(c) == status && status.answer_status(c)
            == 0,
{
}

/// An answer belongs to its request: it carries the answering command and
/// the request's sequence number, and every request has one. The answer to
/// a short message carries the sequence number in decimal digits as its
/// message id; the answer to an unbind request is accepted.
pub proof fn lemma_answer(status: SmppConnectionStatus, m: SmppMessageView)
    ensures
        status.answer(m) is Some <==> m.command.is_request(),
        status.answer(m) matches Some(a) ==> {
            &&& a.sequence_number == m.sequence_number
            &&& Some(a.command) == m.command.response()
            &&& a.body.command() == a.command
            &&& a.command_status == status.answer_status(m.command)
        },
        m.command == SmppCommand::SubmitSm ==> (status.answer(m) matches Some(a) && a.body == (
            PduBodyView::SubmitSmResp { message_id: decimal(m.sequence_number as nat) }
        ) && a.command_status == 0),
        m.command == SmppCommand::Unbind ==> (status.answer(m) matches Some(a) && a.command
            == SmppCommand::UnbindResp && a.command_status == 0),
{
}

/// What handling one request asks of the transport: send the answer, and
/// close the connection after it or go on reading.
#[derive(Debug, Clone, PartialEq, Eq)]
pub struct Reply {
    pub response: SmppMessage,
    pub close: bool,
}

/// The state of one connection.
#[derive(Debug, Clone, Copy, PartialEq, Eq, Structural)]
pub struct SmppConnection {
    pub status: SmppConnectionStatus,
}

impl SmppConnection {
    /// The state of a connection that was just accepted: not yet bound.
    pub fn new() -> (c: SmppConnection)
        ensures
            c.status == SmppConnectionStatus::NotYetBound,
    {
        SmppConnection { status: SmppConnectionStatus::NotYetBound }
    }

    /// Handles one message: moves the state on and gives the answer to send.
    /// The connection is to be closed after the answer to an unbind request.
    /// A message that is itself an answer gets none and changes nothing.
    pub fn handle_pdu(&mut self, pdu: &SmppMessage) -> (res: Option<Reply>)
        ensures
            final(self).status == old(self).status.after(pdu@.command),
            match old(self).status.answer(pdu@) {
                Some(answer) => res matches Some(reply) && reply.response@ == answer && (reply.close
                    <==> pdu@.command == SmppCommand::Unbind),
                None => res is None,
            },
    {
        match *pdu.command() {
            SmppCommand::BindTransceiver => {
                let status = match self.status {
                    SmppConnectionStatus::NotYetBound => ESME_ROK,
                    SmppConnectionStatus::Bound => ESME_RALYBND,
                };
                self.status = SmppConnectionStatus::Bound;
                match pdu.make_resp(status) {
                    Ok(response) => Some(Reply { response, close: false }),
                    Err(_) => None,
                }
            },
            SmppCommand::EnquireLink => match pdu.make_resp(ESME_ROK) {
                Ok(response) => Some(Reply { response, close: false }),
                Err(_) => None,
            },
            SmppCommand::SubmitSm => match pdu.make_resp(ESME_ROK) {
                Ok(response) => {
                    let mut response = response;
                    response.set_str("message_id", u32_to_string(pdu.sequence_number()));
                    Some(Reply { response, close: false })
                },
                Err(_) => None,
            },
            SmppCommand::Unbind => match pdu.make_resp(ESME_ROK) {
                Ok(response) => Some(Reply { response, close: true }),
                Err(_) => None,
            },
            _ => None,
        }
    }

    /// Reads one request from the stream, field by field. The declared
    /// length is kept in the message and not held against what is read.
    pub fn read_pdu(r: &mut ByteStream) -> (res: Result<SmppMessage, SmppCommandStatus>)
        ensures
            final(r)@ == parse_message(old(r)@).1,
            match parse_message(old(r)@).0 {
                Ok(m) => res matches Ok(x) && x@ == m,
                Err(e) => res matches Err(x) && x == e,
            },
    {
        let ghost b = r@;
        proof {
            reveal(after_bytes);
        }
        let command_length = read_u32(r)?;
        let ghost b4 = r@;
        let id = read_u32(r)?;
        let ghost b8 = r@;
        let command_status = read_u32(r)?;
        let ghost b12 = r@;
        let sequence_number = read_u32(r)?;
        proof {
            assert(b4 == b.skip(4));
            assert(b8 =~= b.skip(8));
            assert(b12 =~= b.skip(12));
            assert(r@ =~= b.skip(16));
        }
        let command = match SmppCommand::from_id(id) {
            Some(c) => c,
            None => {
                return Err(SmppCommandStatus::InvalidCommandId);
            },
        };
        let body = read_body(r, command)?;
        Ok(SmppMessage::new(command_length, command, command_status, sequence_number, body))
    }

    /// How many bytes of a frame are still to come behind the four bytes of
    /// its length field, which `prefix` starts with. A length field that is
    /// cut short, or declares less than a header, is refused.
    pub fn frame_rest(prefix: &[u8]) -> (res: Result<u32, SmppCommandStatus>)
        ensures
            prefix@.len() >= 4 && be_u32(prefix@) >= 16 ==> res == Ok::<u32, SmppCommandStatus>(
                (be_u32(prefix@) - 4) as u32,
            ),
            prefix@.len() < 4 || be_u32(prefix@) < 16 ==> res == Err::<u32, SmppCommandStatus>(
                SmppCommandStatus::InvalidMessageLength,
            ),
    {
        let mut r = ByteStream::new(prefix);
        let declared = read_u32(&mut r)?;
        if declared < 16 {
            return Err(SmppCommandStatus::InvalidMessageLength);
        }
        Ok(declared - 4)
    }

    /// Reads the one request that `frame` holds from its first byte to its
    /// last. A frame whose declared length is not its own, or whose body
    /// ends before or behind its end, is refused.
    pub fn read_frame(frame: &[u8]) -> (res: Result<SmppMessage, SmppCommandStatus>)
        ensures
            match parse_frame(frame@) {
                Ok(m) => res matches Ok(x) && x@ == m,
                Err(e) => res matches Err(x) && x == e,
            },
    {
        let mut r = ByteStream::new(frame);
        let msg = SmppConnection::read_pdu(&mut r)?;
        if r.remaining() != 0 || msg.command_length() as u64 != frame.len() as u64 {
            return Err(SmppCommandStatus::InvalidMessageLength);
        }
        Ok(msg)
    }

    /// Handles the request that `frame` holds: reads it, moves the state on
    /// and gives the bytes of the answer, and whether the connection is to
    /// be closed after they are sent. A frame that cannot be read leaves the
    /// state as it is.
    pub fn handle_frame(&mut self, frame: &[u8]) -> (res: Result<
        (Vec<u8>, bool),
        SmppCommandStatus,
    >)
        ensures
            match parse_frame(frame@) {
                Ok(m) => {
                    &&& final(self).status == old(self).status.after(m.command)
                    &&& old(self).status.answer(m) matches Some(answer)
                    &&& res matches Ok((bytes, close))
                    &&& bytes@ == message_bytes(answer)
                    &&& close <==> m.command == SmppCommand::Unbind
                },
                Err(e) => {
                    &&& final(self).status == old(self).status
                    &&& res matches Err(x)
                    &&& x == e
                },
            },
    {
        let pdu = SmppConnection::read_frame(frame)?;
        let reply = match self.handle_pdu(&pdu) {
            Some(reply) => reply,
            None => {
                return Err(SmppCommandStatus::InvalidCommandId);
            },
        };
        proof {
            lemma_answer_fits(old(self).status, pdu@);
        }
        let bytes = SmppConnection::write_pdu(&reply.response)?;
        Ok((bytes, reply.close))
    }

    /// The bytes of a message, its length field filled in. A message that
    /// would take more bytes than the length field can hold is refused.
    pub fn write_pdu(msg: &SmppMessage) -> (res: Result<Vec<u8>, SmppCommandStatus>)
        ensures
            wire_len(msg@) <= u32::MAX ==> (res matches Ok(v) && v@ == message_bytes(msg@)
                && v@.len() == wire_len(msg@) && be_u32(v@) == v@.len()),
            wire_len(msg@) > u32::MAX ==> res == Err::<Vec<u8>, SmppCommandStatus>(
                SmppCommandStatus::InvalidMessageLength,
            ),
    {
        let mut buf: Vec<u8> = Vec::new();
        write_u32(&mut buf, msg.command().to_id());
        write_u32(&mut buf, msg.command_status());
        write_u32(&mut buf, msg.sequence_number());
        write_body(&mut buf, msg.body(), msg.command_status());
        if buf.len() > 0xFFFF_FFFB {
            return Err(SmppCommandStatus::InvalidMessageLength);
        }
        let len: u32 = (buf.len() + 4) as u32;
        let mut out: Vec<u8> = Vec::new();
        write_u32(&mut out, len);
        write_bytes(&mut out, buf.as_slice());
        proof {
            assert(out@ =~= message_bytes(msg@));
            lemma_length_field(msg@);
        }
        Ok(out)
    }
}

} // verus!
