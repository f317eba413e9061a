use crate::util::same_text;
use vstd::prelude::*;
use vstd::slice::slice_to_vec;

verus! {

/// The status of an answer to a request that was accepted.
pub const ESME_ROK: u32 = 0x0000_0000;

/// The status that stands for `SmppCommandStatus::InvalidMessageLength`.
pub const ESME_RINVMSGLEN: u32 = 0x0000_0001;

/// The status that stands for `SmppCommandStatus::InvalidCommandId`.
pub const ESME_RINVCMDID: u32 = 0x0000_0003;

/// The status of the answer to a bind request on a connection that is bound
/// already.
pub const ESME_RALYBND: u32 = 0x0000_0005;

/// Why an operation of the codec was refused.
#[derive(Debug, Clone, Copy, PartialEq, Eq, Structural)]
pub enum SmppCommandStatus {
    /// The input ended before a required field could be read, or a declared
    /// length does not agree with the bytes that are there.
    InvalidMessageLength,
    /// The command id is not one of the eight known ids, or it names a command
    /// that is not legal in the direction it was met in.
    InvalidCommandId,
}

impl SmppCommandStatus {
    /// The number that stands for this status in the status field of a
    /// message. It is not zero, and the two differ from each other and from
    /// "already bound".
    pub fn code(&self) -> (n: u32)
        ensures
            n == match *self {
                SmppCommandStatus::InvalidMessageLength => ESME_RINVMSGLEN,
                SmppCommandStatus::InvalidCommandId => ESME_RINVCMDID,
            },
            n != ESME_ROK,
            n != ESME_RALYBND,
    {
        match *self {
            SmppCommandStatus::InvalidMessageLength => ESME_RINVMSGLEN,
            SmppCommandStatus::InvalidCommandId => ESME_RINVCMDID,
        }
    }
}

/// The closed set of commands. A response id is its request id with the top
/// bit set.
#[derive(Debug, Clone, Copy, PartialEq, Eq, Structural)]
pub enum SmppCommand {
    SubmitSm,
    SubmitSmResp,
    Unbind,
    UnbindResp,
    BindTransceiver,
    BindTransceiverResp,
    EnquireLink,
    EnquireLinkResp,
}

impl SmppCommand {
    /// The 32-bit id that stands for this command on the wire.
    pub open spec fn id(self) -> u32 {
        match self {
            SmppCommand::SubmitSm => 0x0000_0004u32,
            SmppCommand::SubmitSmResp => 0x8000_0004u32,
            SmppCommand::Unbind => 0x0000_0006u32,
            SmppCommand::UnbindResp => 0x8000_0006u32,
            SmppCommand::BindTransceiver => 0x0000_0009u32,
            SmppCommand::BindTransceiverResp => 0x8000_0009u32,
            SmppCommand::EnquireLink => 0x0000_0015u32,
            SmppCommand::EnquireLinkResp => 0x8000_0015u32,
        }
    }

    /// The command whose id is `id`; none for a number that is no command's id.
    pub open spec fn of_id(id: u32) -> Option<SmppCommand> {
        if id == 0x0000_0004u32 {
            Some(SmppCommand::SubmitSm)
        } else if id == 0x8000_0004u32 {
            Some(SmppCommand::SubmitSmResp)
        } else if id == 0x0000_0006u32 {
            Some(SmppCommand::Unbind)
        } else if id == 0x8000_0006u32 {
            Some(SmppCommand::UnbindResp)
        } else if id == 0x0000_0009u32 {
            Some(SmppCommand::BindTransceiver)
        } else if id == 0x8000_0009u32 {
            Some(SmppCommand::BindTransceiverResp)
        } else if id == 0x0000_0015u32 {
            Some(SmppCommand::EnquireLink)
        } else if id == 0x8000_0015u32 {
            Some(SmppCommand::EnquireLinkResp)
        } else {
            None
        }
    }

    /// Whether this command is one that a client sends.
    pub open spec fn is_request(self) -> bool {
        self.response() is Some
    }

    /// The command that answers this one; none for a command that is itself
    /// an answer.
    pub open spec fn response(self) -> Option<SmppCommand> {
        match self {
            SmppCommand::SubmitSm => Some(SmppCommand::SubmitSmResp),
            SmppCommand::Unbind => Some(SmppCommand::UnbindResp),
            SmppCommand::BindTransceiver => Some(SmppCommand::BindTransceiverResp),
            SmppCommand::EnquireLink => Some(SmppCommand::EnquireLinkResp),
            _ => None,
        }
    }

    /// The command that `id` stands for, if any.
    pub fn from_id(id: u32) -> (res: Option<SmppCommand>)
        ensures
            res == SmppCommand::of_id(id),
    {
        match id {
            0x0000_0004 => Some(SmppCommand::SubmitSm),
            0x8000_0004 => Some(SmppCommand::SubmitSmResp),
            0x0000_0006 => Some(SmppCommand::Unbind),
            0x8000_0006 => Some(SmppCommand::UnbindResp),
            0x0000_0009 => Some(SmppCommand::BindTransceiver),
            0x8000_0009 => Some(SmppCommand::BindTransceiverResp),
            0x0000_0015 => Some(SmppCommand::EnquireLink),
            0x8000_0015 => Some(SmppCommand::EnquireLinkResp),
            _ => None,
        }
    }

    /// The id of this command.
    pub fn to_id(&self) -> (id: u32)
        ensures
            id == self.id(),
    {
        match *self {
            SmppCommand::SubmitSm => 0x0000_0004,
            SmppCommand::SubmitSmResp => 0x8000_0004,
            SmppCommand::Unbind => 0x0000_0006,
            SmppCommand::UnbindResp => 0x8000_0006,
            SmppCommand::BindTransceiver => 0x0000_0009,
            SmppCommand::BindTransceiverResp => 0x8000_0009,
            SmppCommand::EnquireLink => 0x0000_0015,
            SmppCommand::EnquireLinkResp => 0x8000_0015,
        }
    }
}

/// The ids and the commands stand one for one: each command comes back from
/// its id, each id that names a command comes back from that command, and
/// an answer's id is its request's id with the top bit set.
pub proof fn lemma_command_ids(c: SmppCommand, id: u32)
    ensures
        SmppCommand::of_id(c.id()) == Some(c),
        SmppCommand::of_id(id) matches Some(d) ==> d.id() == id,
        c.is_request() <==> c.id() < 0x8000_0000u32,
        c.response() matches Some(r) ==> r.id() == c.id() + 0x8000_0000u32,
{
}

/// The body of a bind request.
#[derive(Debug, Clone, PartialEq, Eq)]
pub struct BindTransceiver {
    pub system_id: String,
    pub password: String,
    pub system_type: String,
    pub interface_version: u8,
    pub addr_ton: u8,
    pub addr_npi: u8,
    pub address_range: String,
}

/// What a bind request holds.
pub struct BindTransceiverView {
    pub system_id: Seq<char>,
    pub password: Seq<char>,
    pub system_type: Seq<char>,
    pub interface_version: u8,
    pub addr_ton: u8,
    pub addr_npi: u8,
    pub address_range: Seq<char>,
}

impl View for BindTransceiver {
    type V = BindTransceiverView;

    open spec fn view(&self) -> BindTransceiverView {
        BindTransceiverView {
            system_id: self.system_id@,
            password: self.password@,
            system_type: self.system_type@,
            interface_version: self.interface_version,
            addr_ton: self.addr_ton,
            addr_npi: self.addr_npi,
            address_range: self.address_range@,
        }
    }
}

/// The body of a request to accept a short message.
#[derive(Debug, Clone, PartialEq, Eq)]
pub struct SubmitSm {
    pub service_type: String,
    pub source_addr_ton: u8,
    pub source_addr_npi: u8,
    pub source_addr: String,
    pub dest_addr_ton: u8,
    pub dest_addr_npi: u8,
    pub destination_addr: String,
    pub esm_class: u8,
    pub protocol_id: u8,
    pub priority_flag: u8,
    pub schedule_delivery_time: String,
    pub validity_period: String,
    pub registered_delivery: u8,
    pub replace_if_present: u8,
    pub data_coding: u8,
    pub sm_default_msg_id: u8,
    pub sm_length: u8,
    pub short_message: Vec<u8>,
}

/// What a request to accept a short message holds.
pub struct SubmitSmView {
    pub service_type: Seq<char>,
    pub source_addr_ton: u8,
    pub source_addr_npi: u8,
    pub source_addr: Seq<char>,
    pub dest_addr_ton: u8,
    pub dest_addr_npi: u8,
    pub destination_addr: Seq<char>,
    pub esm_class: u8,
    pub protocol_id: u8,
    pub priority_flag: u8,
    pub schedule_delivery_time: Seq<char>,
    pub validity_period: Seq<char>,
    pub registered_delivery: u8,
    pub replace_if_present: u8,
    pub data_coding: u8,
    pub sm_default_msg_id: u8,
    pub sm_length: u8,
    pub short_message: Seq<u8>,
}

impl View for SubmitSm {
    type V = SubmitSmView;

    open spec fn view(&self) -> SubmitSmView {
        SubmitSmView {
            service_type: self.service_type@,
            source_addr_ton: self.source_addr_ton,
            source_addr_npi: self.source_addr_npi,
            source_addr: self.source_addr@,
            dest_addr_ton: self.dest_addr_ton,
            dest_addr_npi: self.dest_addr_npi,
            destination_addr: self.destination_addr@,
            esm_class: self.esm_class,
            protocol_id: self.protocol_id,
            priority_flag: self.priority_flag,
            schedule_delivery_time: self.schedule_delivery_time@,
            validity_period: self.validity_period@,
            registered_delivery: self.registered_delivery,
            replace_if_present: self.replace_if_present,
            data_coding: self.data_coding,
            sm_default_msg_id: self.sm_default_msg_id,
            sm_length: self.sm_length,
            short_message: self.short_message@,
        }
    }
}

/// The value of one field of a body, whatever its type.
#[derive(Debug, Clone, PartialEq, Eq)]
pub enum HeaderValue {
    Str(String),
    Byte(u8),
    ByteArray(Vec<u8>),
}

/// What the value of a field holds.
pub enum HeaderValueView {
    Str(Seq<char>),
    Byte(u8),
    ByteArray(Seq<u8>),
}

impl View for HeaderValue {
    type V = HeaderValueView;

    open spec fn view(&self) -> HeaderValueView {
        match self {
            HeaderValue::Str(s) => HeaderValueView::Str(s@),
            HeaderValue::Byte(b) => HeaderValueView::Byte(*b),
            HeaderValue::ByteArray(a) => HeaderValueView::ByteArray(a@),
        }
    }
}

impl BindTransceiverView {
    /// The field called `name`, if a bind request has one.
    pub open spec fn field(self, name: Seq<char>) -> Option<HeaderValueView> {
        if name == "system_id"@ {
            Some(HeaderValueView::Str(self.system_id))
        } else if name == "password"@ {
            Some(HeaderValueView::Str(self.password))
        } else if name == "system_type"@ {
            Some(HeaderValueView::Str(self.system_type))
        } else if name == "interface_version"@ {
            Some(HeaderValueView::Byte(self.interface_version))
        } else if name == "addr_ton"@ {
            Some(HeaderValueView::Byte(self.addr_ton))
        } else if name == "addr_npi"@ {
            Some(HeaderValueView::Byte(self.addr_npi))
        } else if name == "address_range"@ {
            Some(HeaderValueView::Str(self.address_range))
        } else {
            None
        }
    }

    /// This body with `v` in the place of the text field called `name`; this
    /// body itself if it has no such field.
    pub open spec fn with_str(self, name: Seq<char>, v: Seq<char>) -> BindTransceiverView {
        if name == "system_id"@ {
            BindTransceiverView { system_id: v, ..self }
        } else if name == "password"@ {
            BindTransceiverView { password: v, ..self }
        } else if name == "system_type"@ {
            BindTransceiverView { system_type: v, ..self }
        } else if name == "address_range"@ {
            BindTransceiverView { address_range: v, ..self }
        } else {
            self
        }
    }
}

impl BindTransceiver {
    /// The field called `k`, if a bind request has one.
    pub fn header(&self, k: &str) -> (res: Option<HeaderValue>)
        ensures
            match self@.field(k@) {
                Some(v) => res matches Some(h) && h@ == v,
                None => res is None,
            },
    {
        if same_text(k, "system_id") {
            Some(HeaderValue::Str(self.system_id.clone()))
        } else if same_text(k, "password") {
            Some(HeaderValue::Str(self.password.clone()))
        } else if same_text(k, "system_type") {
            Some(HeaderValue::Str(self.system_type.clone()))
        } else if same_text(k, "interface_version") {
            Some(HeaderValue::Byte(self.interface_version))
        } else if same_text(k, "addr_ton") {
            Some(HeaderValue::Byte(self.addr_ton))
        } else if same_text(k, "addr_npi") {
            Some(HeaderValue::Byte(self.addr_npi))
        } else if same_text(k, "address_range") {
            Some(HeaderValue::Str(self.address_range.clone()))
        } else {
            None
        }
    }

    /// The text field called `k`, if a bind request has one.
    pub fn str_header(&self, k: &str) -> (res: Option<&String>)
        ensures
            match self@.field(k@) {
                Some(HeaderValueView::Str(t)) => res matches Some(s) && s@ == t,
                _ => res is None,
            },
    {
        if same_text(k, "system_id") {
            Some(&self.system_id)
        } else if same_text(k, "password") {
            Some(&self.password)
        } else if same_text(k, "system_type") {
            Some(&self.system_type)
        } else if same_text(k, "interface_version") {
            None
        } else if same_text(k, "addr_ton") {
            None
        } else if same_text(k, "addr_npi") {
            None
        } else if same_text(k, "address_range") {
            Some(&self.address_range)
        } else {
            None
        }
    }

    /// Puts `v` in the place of the text field called `k`, if a bind request has one.
    pub fn set_str(&mut self, k: &str, v: String)
        ensures
            final(self)@ == old(self)@.with_str(k@, v@),
    {
        if same_text(k, "system_id") {
            self.system_id = v;
        } else if same_text(k, "password") {
            self.password = v;
        } else if same_text(k, "system_type") {
            self.system_type = v;
        } else if same_text(k, "address_range") {
            self.address_range = v;
        }
    }
}

impl SubmitSmView {
    /// The field called `name`, if a short message request has one.
    pub open spec fn field(self, name: Seq<char>) -> Option<HeaderValueView> {
        if name == "service_type"@ {
            Some(HeaderValueView::Str(self.service_type))
        } else if name == "source_addr_ton"@ {
            Some(HeaderValueView::Byte(self.source_addr_ton))
        } else if name == "source_addr_npi"@ {
            Some(HeaderValueView::Byte(self.source_addr_npi))
        } else if name == "source_addr"@ {
            Some(HeaderValueView::Str(self.source_addr))
        } else if name == "dest_addr_ton"@ {
            Some(HeaderValueView::Byte(self.dest_addr_ton))
        } else if name == "dest_addr_npi"@ {
            Some(HeaderValueView::Byte(self.dest_addr_npi))
        } else if name == "destination_addr"@ {
            Some(HeaderValueView::Str(self.destination_addr))
        } else if name == "esm_class"@ {
            Some(HeaderValueView::Byte(self.esm_class))
        } else if name == "protocol_id"@ {
            Some(HeaderValueView::Byte(self.protocol_id))
        } else if name == "priority_flag"@ {
            Some(HeaderValueView::Byte(self.priority_flag))
        } else if name == "schedule_delivery_time"@ {
            Some(HeaderValueView::Str(self.schedule_delivery_time))
        } else if name == "validity_period"@ {
            Some(HeaderValueView::Str(self.validity_period))
        } else if name == "registered_delivery"@ {
            Some(HeaderValueView::Byte(self.registered_delivery))
        } else if name == "replace_if_present"@ {
            Some(HeaderValueView::Byte(self.replace_if_present))
        } else if name == "data_coding"@ {
            Some(HeaderValueView::Byte(self.data_coding))
        } else if name == "sm_default_msg_id"@ {
            Some(HeaderValueView::Byte(self.sm_default_msg_id))
        } else if name == "sm_length"@ {
            Some(HeaderValueView::Byte(self.sm_length))
        } else if name == "short_message"@ {
            Some(HeaderValueView::ByteArray(self.short_message))
        } else {
            None
        }
    }

    /// This body with `v` in the place of the text field called `name`; this
    /// body itself if it has no such field.
    pub open spec fn with_str(self, name: Seq<char>, v: Seq<char>) -> SubmitSmView {
        if name == "service_type"@ {
            SubmitSmView { service_type: v, ..self }
        } else if name == "source_addr"@ {
            SubmitSmView { source_addr: v, ..self }
        } else if name == "destination_addr"@ {
            SubmitSmView { destination_addr: v, ..self }
        } else if name == "schedule_delivery_time"@ {
            SubmitSmView { schedule_delivery_time: v, ..self }
        } else if name == "validity_period"@ {
            SubmitSmView { validity_period: v, ..self }
        } else {
            self
        }
    }
}

impl SubmitSm {
    /// The field called `k`, if a short message request has one.
    pub fn header(&self, k: &str) -> (res: Option<HeaderValue>)
        ensures
            match self@.field(k@) {
                Some(v) => res matches Some(h) && h@ == v,
                None => res is None,
            },
    {
        if same_text(k, "service_type") {
            Some(HeaderValue::Str(self.service_type.clone()))
        } else if same_text(k, "source_addr_ton") {
            Some(HeaderValue::Byte(self.source_addr_ton))
        } else if same_text(k, "source_addr_npi") {
            Some(HeaderValue::Byte(self.source_addr_npi))
        } else if same_text(k, "source_addr") {
            Some(HeaderValue::Str(self.source_addr.clone()))
        } else if same_text(k, "dest_addr_ton") {
            Some(HeaderValue::Byte(self.dest_addr_ton))
        } else if same_text(k, "dest_addr_npi") {
            Some(HeaderValue::Byte(self.dest_addr_npi))
        } else if same_text(k, "destination_addr") {
            Some(HeaderValue::Str(self.destination_addr.clone()))
        } else if same_text(k, "esm_class") {
            Some(HeaderValue::Byte(self.esm_class))
        } else if same_text(k, "protocol_id") {
            Some(HeaderValue::Byte(self.protocol_id))
        } else if same_text(k, "priority_flag") {
            Some(HeaderValue::Byte(self.priority_flag))
        } else if same_text(k, "schedule_delivery_time") {
            Some(HeaderValue::Str(self.schedule_delivery_time.clone()))
        } else if same_text(k, "validity_period") {
            Some(HeaderValue::Str(self.validity_period.clone()))
        } else if same_text(k, "registered_delivery") {
            Some(HeaderValue::Byte(self.registered_delivery))
        } else if same_text(k, "replace_if_present") {
            Some(HeaderValue::Byte(self.replace_if_present))
        } else if same_text(k, "data_coding") {
            Some(HeaderValue::Byte(self.data_coding))
        } else if same_text(k, "sm_default_msg_id") {
            Some(HeaderValue::Byte(self.sm_default_msg_id))
        } else if same_text(k, "sm_length") {
            Some(HeaderValue::Byte(self.sm_length))
        } else if same_text(k, "short_message") {
            Some(HeaderValue::ByteArray(slice_to_vec(self.short_message.as_slice())))
        } else {
            None
        }
    }

    /// The text field called `k`, if a short message request has one.
    pub fn str_header(&self, k: &str) -> (res: Option<&String>)
        ensures
            match self@.field(k@) {
                Some(HeaderValueView::Str(t)) => res matches Some(s) && s@ == t,
                _ => res is None,
            },
    {
        if same_text(k, "service_type") {
            Some(&self.service_type)
        } else if same_text(k, "source_addr_ton") {
            None
        } else if same_text(k, "source_addr_npi") {
            None
        } else if same_text(k, "source_addr") {
            Some(&self.source_addr)
        } else if same_text(k, "dest_addr_ton") {
            None
        } else if same_text(k, "dest_addr_npi") {
            None
        } else if same_text(k, "destination_addr") {
            Some(&self.destination_addr)
        } else if same_text(k, "esm_class") {
            None
        } else if same_text(k, "protocol_id") {
            None
        } else if same_text(k, "priority_flag") {
            None
        } else if same_text(k, "schedule_delivery_time") {
            Some(&self.schedule_delivery_time)
        } else if same_text(k, "validity_period") {
            Some(&self.validity_period)
        } else if same_text(k, "registered_delivery") {
            None
        } else if same_text(k, "replace_if_present") {
            None
        } else if same_text(k, "data_coding") {
            None
        } else if same_text(k, "sm_default_msg_id") {
            None
        } else if same_text(k, "sm_length") {
            None
        } else if same_text(k, "short_message") {
            None
        } else {
            None
        }
    }

    /// Puts `v` in the place of the text field called `k`, if a short message request has one.
    pub fn set_str(&mut self, k: &str, v: String)
        ensures
            final(self)@ == old(self)@.with_str(k@, v@),
    {
        if same_text(k, "service_type") {
            self.service_type = v;
        } else if same_text(k, "source_addr") {
            self.source_addr = v;
        } else if same_text(k, "destination_addr") {
            self.destination_addr = v;
        } else if same_text(k, "schedule_delivery_time") {
            self.schedule_delivery_time = v;
        } else if same_text(k, "validity_period") {
            self.validity_period = v;
        }
    }
}

/// The body of a message: one shape for each command.
#[derive(Debug, Clone, PartialEq, Eq)]
pub enum PduBody {
    BindTransceiver(BindTransceiver),
    BindTransceiverResp,
    EnquireLink,
    EnquireLinkResp,
    SubmitSm(SubmitSm),
    SubmitSmResp { message_id: String },
    Unbind,
    UnbindResp,
}

/// What a body holds.
pub enum PduBodyView {
    BindTransceiver(BindTransceiverView),
    BindTransceiverResp,
    EnquireLink,
    EnquireLinkResp,
    SubmitSm(SubmitSmView),
    SubmitSmResp { message_id: Seq<char> },
    Unbind,
    UnbindResp,
}

impl View for PduBody {
    type V = PduBodyView;

    open spec fn view(&self) -> PduBodyView {
        match self {
            PduBody::BindTransceiver(b) => PduBodyView::BindTransceiver(b@),
            PduBody::BindTransceiverResp => PduBodyView::BindTransceiverResp,
            PduBody::EnquireLink => PduBodyView::EnquireLink,
            PduBody::EnquireLinkResp => PduBodyView::EnquireLinkResp,
            PduBody::SubmitSm(b) => PduBodyView::SubmitSm(b@),
            PduBody::SubmitSmResp { message_id } => PduBodyView::SubmitSmResp {
                message_id: message_id@,
            },
            PduBody::Unbind => PduBodyView::Unbind,
            PduBody::UnbindResp => PduBodyView::UnbindResp,
        }
    }
}

impl PduBodyView {
    /// The command that a body of this shape belongs to.
    pub open spec fn command(self) -> SmppCommand {
        match self {
            PduBodyView::BindTransceiver(_) => SmppCommand::BindTransceiver,
            PduBodyView::BindTransceiverResp => SmppCommand::BindTransceiverResp,
            PduBodyView::EnquireLink => SmppCommand::EnquireLink,
            PduBodyView::EnquireLinkResp => SmppCommand::EnquireLinkResp,
            PduBodyView::SubmitSm(_) => SmppCommand::SubmitSm,
            PduBodyView::SubmitSmResp { .. } => SmppCommand::SubmitSmResp,
            PduBodyView::Unbind => SmppCommand::Unbind,
            PduBodyView::UnbindResp => SmppCommand::UnbindResp,
        }
    }

    /// The field called `name`, if a body of this shape has one.
    pub open spec fn field(self, name: Seq<char>) -> Option<HeaderValueView> {
        match self {
            PduBodyView::BindTransceiver(b) => b.field(name),
            PduBodyView::SubmitSm(b) => b.field(name),
            PduBodyView::SubmitSmResp { message_id } => if name == "message_id"@ {
                Some(HeaderValueView::Str(message_id))
            } else {
                None
            },
            _ => None,
        }
    }

    /// This body with `v` in the place of the text field called `name`; this
    /// body itself if it has no such field.
    pub open spec fn with_str(self, name: Seq<char>, v: Seq<char>) -> PduBodyView {
        match self {
            PduBodyView::BindTransceiver(b) => PduBodyView::BindTransceiver(b.with_str(name, v)),
            PduBodyView::SubmitSm(b) => PduBodyView::SubmitSm(b.with_str(name, v)),
            PduBodyView::SubmitSmResp { message_id } => if name == "message_id"@ {
                PduBodyView::SubmitSmResp { message_id: v }
            } else {
                self
            },
            _ => self,
        }
    }

    /// The body of a fresh answer with command `c`: no fields, or an empty
    /// message id.
    pub open spec fn blank_response(c: SmppCommand) -> PduBodyView {
        match c {
            SmppCommand::BindTransceiverResp => PduBodyView::BindTransceiverResp,
            SmppCommand::EnquireLinkResp => PduBodyView::EnquireLinkResp,
            SmppCommand::SubmitSmResp => PduBodyView::SubmitSmResp { message_id: Seq::empty() },
            _ => PduBodyView::UnbindResp,
        }
    }
}

impl PduBody {
    /// The command that a body of this shape belongs to.
    pub fn command(&self) -> (c: SmppCommand)
        ensures
            c == self@.command(),
    {
        match self {
            PduBody::BindTransceiver(_) => SmppCommand::BindTransceiver,
            PduBody::BindTransceiverResp => SmppCommand::BindTransceiverResp,
            PduBody::EnquireLink => SmppCommand::EnquireLink,
            PduBody::EnquireLinkResp => SmppCommand::EnquireLinkResp,
            PduBody::SubmitSm(_) => SmppCommand::SubmitSm,
            PduBody::SubmitSmResp { .. } => SmppCommand::SubmitSmResp,
            PduBody::Unbind => SmppCommand::Unbind,
            PduBody::UnbindResp => SmppCommand::UnbindResp,
        }
    }

    /// The field called `k`, if the body has one.
    pub fn header(&self, k: &str) -> (res: Option<HeaderValue>)
        ensures
            match self@.field(k@) {
                Some(v) => res matches Some(h) && h@ == v,
                None => res is None,
            },
    {
        match self {
            PduBody::BindTransceiver(b) => b.header(k),
            PduBody::SubmitSm(b) => b.header(k),
            PduBody::SubmitSmResp { message_id } => if same_text(k, "message_id") {
                Some(HeaderValue::Str(message_id.clone()))
            } else {
                None
            },
            _ => None,
        }
    }

    /// The text field called `k`, if the body has one.
    pub fn str_header(&self, k: &str) -> (res: Option<&String>)
        ensures
            match self@.field(k@) {
                Some(HeaderValueView::Str(t)) => res matches Some(s) && s@ == t,
                _ => res is None,
            },
    {
        match self {
            PduBody::BindTransceiver(b) => b.str_header(k),
            PduBody::SubmitSm(b) => b.str_header(k),
            PduBody::SubmitSmResp { message_id } => if same_text(k, "message_id") {
                Some(message_id)
            } else {
                None
            },
            _ => None,
        }
    }

    /// Puts `v` in the place of the text field called `k`, if the body has
    /// one.
    pub fn set_str(&mut self, k: &str, v: String)
        ensures
            final(self)@ == old(self)@.with_str(k@, v@),
    {
        match self {
            PduBody::BindTransceiver(b) => b.set_str(k, v),
            PduBody::SubmitSm(b) => b.set_str(k, v),
            PduBody::SubmitSmResp { message_id } => if same_text(k, "message_id") {
                *message_id = v;
            },
            _ => {},
        }
    }
}

/// One message: the four header fields and the body.
#[derive(Debug, Clone, PartialEq, Eq)]
pub struct SmppMessage {
    command_length: u32,
    command: SmppCommand,
    command_status: u32,
    sequence_number: u32,
    body: PduBody,
}

/// What a message holds.
pub struct SmppMessageView {
    pub command_length: u32,
    pub command: SmppCommand,
    pub command_status: u32,
    pub sequence_number: u32,
    pub body: PduBodyView,
}

impl View for SmppMessage {
    type V = SmppMessageView;

    closed spec fn view(&self) -> SmppMessageView {
        SmppMessageView {
            command_length: self.command_length,
            command: self.command,
            command_status: self.command_status,
            sequence_number: self.sequence_number,
            body: self.body@,
        }
    }
}

impl SmppMessage {
    /// A message of the given parts.
    pub fn new(
        command_length: u32,
        command: SmppCommand,
        command_status: u32,
        sequence_number: u32,
        body: PduBody,
    ) -> (m: SmppMessage)
        ensures
            m@ == (SmppMessageView {
                command_length,
                command,
                command_status,
                sequence_number,
                body: body@,
            }),
    {
        SmppMessage { command_length, command, command_status, sequence_number, body }
    }

    /// The length that the message declares for itself.
    pub fn command_length(&self) -> (n: u32)
        ensures
            n == self@.command_length,
    {
        self.command_length
    }

    /// The command of the message.
    pub fn command(&self) -> (c: &SmppCommand)
        ensures
            *c == self@.command,
    {
        &self.command
    }

    /// The status of the message.
    pub fn command_status(&self) -> (n: u32)
        ensures
            n == self@.command_status,
    {
        self.command_status
    }

    /// The number by which a request and its answer are told to belong
    /// together.
    pub fn sequence_number(&self) -> (n: u32)
        ensures
            n == self@.sequence_number,
    {
        self.sequence_number
    }

    /// The body of the message.
    pub fn body(&self) -> (b: &PduBody)
        ensures
            b@ == self@.body,
    {
        &self.body
    }

    /// The field of the body called `k`, if there is one.
    pub fn header(&self, k: &str) -> (res: Option<HeaderValue>)
        ensures
            match self@.body.field(k@) {
                Some(v) => res matches Some(h) && h@ == v,
                None => res is None,
            },
    {
        self.body.header(k)
    }

    /// The text field of the body called `k`. The body must have one.
    pub fn get_str(&self, k: &str) -> (s: &String)
        requires
            self@.body.field(k@) matches Some(HeaderValueView::Str(_)),
        ensures
            self@.body.field(k@) == Some(HeaderValueView::Str(s@)),
    {
        match self.body.str_header(k) {
            Some(s) => s,
            None => unreached(),
        }
    }

    /// Puts `v` in the place of the text field of the body called `k`. A
    /// message whose body has no such field stays as it is.
    pub fn set_str(&mut self, k: &str, v: String)
        ensures
            final(self)@ == (SmppMessageView {
                body: old(self)@.body.with_str(k@, v@),
                ..old(self)@
            }),
    {
        self.body.set_str(k, v);
    }

    /// The answer to this message: the answering command, the given status,
    /// this message's sequence number and a blank body. A message that is
    /// itself an answer has none.
    pub fn make_resp(&self, command_status: u32) -> (res: Result<SmppMessage, SmppCommandStatus>)
        ensures
            match self@.command.response() {
                Some(c) => res matches Ok(m) && m@ == (SmppMessageView {
                    command_length: 0,
                    command: c,
                    command_status,
                    sequence_number: self@.sequence_number,
                    body: PduBodyView::blank_response(c),
                }),
                None => res matches Err(e) && e == SmppCommandStatus::InvalidCommandId,
            },
    {
        let (command, body) = match self.command {
            SmppCommand::BindTransceiver => (
                SmppCommand::BindTransceiverResp,
                PduBody::BindTransceiverResp,
            ),
            SmppCommand::EnquireLink => (SmppCommand::EnquireLinkResp, PduBody::EnquireLinkResp),
            SmppCommand::SubmitSm => (
                SmppCommand::SubmitSmResp,
                PduBody::SubmitSmResp { message_id: String::new() },
            ),
            SmppCommand::Unbind => (SmppCommand::UnbindResp, PduBody::UnbindResp),
            _ => return Err(SmppCommandStatus::InvalidCommandId),
        };
        Ok(
            SmppMessage {
                command_length: 0,
                command,
                command_status,
                sequence_number: self.sequence_number,
                body,
            },
        )
    }
}

} // verus!
