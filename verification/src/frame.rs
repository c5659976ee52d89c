//! Frames: a fixed header plus one typed control packet, with the
//! serialization entry points for whole frames.
use crate::definitions::FixHeader;
use crate::packet::{
    AuthControlPacket, AuthControlPacketView, ConnAckControlPacket, ConnAckControlPacketView,
    ConnectControlPacket, ConnectControlPacketView, DisconnectControlPacket,
    DisconnectControlPacketView, PubAckControlPacket, PubAckControlPacketView, PubCompControlPacket,
    PubCompControlPacketView, PubRecControlPacket, PubRecControlPacketView, PubRelControlPacket,
    PubRelControlPacketView, PublishControlPacket, PublishControlPacketView, SubAckControlPacket,
    SubAckControlPacketView, SubscribeControlPacket, SubscribeControlPacketView,
    UnsubAckControlPacket, UnsubAckControlPacketView, UnsubscribeControlPacket,
    UnsubscribeControlPacketView,
};
use vstd::prelude::*;

pub mod decoder;
pub mod encoder;
pub mod roundtrip;

verus! {

/// Codec failure taxonomy.
///
/// `Incomplete` is not an error visible to the peer: it tells the frame
/// reader that more bytes are needed. `MalformedPacket` covers every
/// structural failure (bad UTF-8, truncated field, unknown property
/// identifier, reserved-flag violation). `ProtocolError` covers reserved
/// flag combinations such as a PUBLISH QoS of 3.
#[derive(Debug, Clone, Copy, PartialEq, Eq, Structural)]
pub enum Error {
    /// Not enough data is available to parse a message.
    Incomplete,
    /// Structurally invalid message encoding.
    MalformedPacket,
    /// A reserved combination, such as QoS > 2.
    ProtocolError,
}

/// One typed MQTT control packet.
#[derive(Debug, Clone, PartialEq)]
pub enum ControlPacket {
    Connect(ConnectControlPacket),
    ConnAck(ConnAckControlPacket),
    Publish(PublishControlPacket),
    PubAck(PubAckControlPacket),
    PubRec(PubRecControlPacket),
    PubRel(PubRelControlPacket),
    PubComp(PubCompControlPacket),
    Subscribe(SubscribeControlPacket),
    SubAck(SubAckControlPacket),
    Unsubscribe(UnsubscribeControlPacket),
    UnsubAck(UnsubAckControlPacket),
    PingReq,
    PingResp,
    Disconnect(DisconnectControlPacket),
    Auth(AuthControlPacket),
}

pub enum ControlPacketView {
    Connect(ConnectControlPacketView),
    ConnAck(ConnAckControlPacketView),
    Publish(PublishControlPacketView),
    PubAck(PubAckControlPacketView),
    PubRec(PubRecControlPacketView),
    PubRel(PubRelControlPacketView),
    PubComp(PubCompControlPacketView),
    Subscribe(SubscribeControlPacketView),
    SubAck(SubAckControlPacketView),
    Unsubscribe(UnsubscribeControlPacketView),
    UnsubAck(UnsubAckControlPacketView),
    PingReq,
    PingResp,
    Disconnect(DisconnectControlPacketView),
    Auth(AuthControlPacketView),
}

impl View for ControlPacket {
    type V = ControlPacketView;

    open spec fn view(&self) -> ControlPacketView {
        match self {
            ControlPacket::Connect(p) => ControlPacketView::Connect(p@),
            ControlPacket::ConnAck(p) => ControlPacketView::ConnAck(p@),
            ControlPacket::Publish(p) => ControlPacketView::Publish(p@),
            ControlPacket::PubAck(p) => ControlPacketView::PubAck(p@),
            ControlPacket::PubRec(p) => ControlPacketView::PubRec(p@),
            ControlPacket::PubRel(p) => ControlPacketView::PubRel(p@),
            ControlPacket::PubComp(p) => ControlPacketView::PubComp(p@),
            ControlPacket::Subscribe(p) => ControlPacketView::Subscribe(p@),
            ControlPacket::SubAck(p) => ControlPacketView::SubAck(p@),
            ControlPacket::Unsubscribe(p) => ControlPacketView::Unsubscribe(p@),
            ControlPacket::UnsubAck(p) => ControlPacketView::UnsubAck(p@),
            ControlPacket::PingReq => ControlPacketView::PingReq,
            ControlPacket::PingResp => ControlPacketView::PingResp,
            ControlPacket::Disconnect(p) => ControlPacketView::Disconnect(p@),
            ControlPacket::Auth(p) => ControlPacketView::Auth(p@),
        }
    }
}

/// A whole frame: the fixed header and its control packet. Immutable once
/// constructed, serialisable and deserialisable.
#[derive(Debug, Clone, PartialEq)]
pub struct Frame {
    pub control_packet: ControlPacket,
    pub fix_header: FixHeader,
}

pub struct FrameView {
    pub control_packet: ControlPacketView,
    pub fix_header: FixHeader,
}

impl View for Frame {
    type V = FrameView;

    open spec fn view(&self) -> FrameView {
        FrameView { control_packet: self.control_packet@, fix_header: self.fix_header }
    }
}

/// The packet type a control packet value belongs under.
pub fn control_packet_type_of(cp: &ControlPacket) -> (t: crate::definitions::ControlPacketType)
    ensures
        t == crate::frame::encoder::spec_packet_type_of(cp@),
{
    match cp {
        ControlPacket::Connect(_) => crate::definitions::ControlPacketType::CONNECT,
        ControlPacket::ConnAck(_) => crate::definitions::ControlPacketType::CONNACK,
        ControlPacket::Publish(_) => crate::definitions::ControlPacketType::PUBLISH,
        ControlPacket::PubAck(_) => crate::definitions::ControlPacketType::PUBACK,
        ControlPacket::PubRec(_) => crate::definitions::ControlPacketType::PUBREC,
        ControlPacket::PubRel(_) => crate::definitions::ControlPacketType::PUBREL,
        ControlPacket::PubComp(_) => crate::definitions::ControlPacketType::PUBCOMP,
        ControlPacket::Subscribe(_) => crate::definitions::ControlPacketType::SUBSCRIBE,
        ControlPacket::SubAck(_) => crate::definitions::ControlPacketType::SUBACK,
        ControlPacket::Unsubscribe(_) => crate::definitions::ControlPacketType::UNSUBSCRIBE,
        ControlPacket::UnsubAck(_) => crate::definitions::ControlPacketType::UNSUBACK,
        ControlPacket::PingReq => crate::definitions::ControlPacketType::PINGREQ,
        ControlPacket::PingResp => crate::definitions::ControlPacketType::PINGRESP,
        ControlPacket::Disconnect(_) => crate::definitions::ControlPacketType::DISCONNECT,
        ControlPacket::Auth(_) => crate::definitions::ControlPacketType::AUTH,
    }
}

impl Frame {
    /// A default frame of the given type, with zeroed flags, empty
    /// properties and success reason codes. Only the packet types the
    /// broker builds replies from are provided.
    pub fn new(control_packet_type: crate::definitions::ControlPacketType) -> (r: Frame)
        requires
            control_packet_type == crate::definitions::ControlPacketType::CONNECT
                || control_packet_type == crate::definitions::ControlPacketType::CONNACK
                || control_packet_type == crate::definitions::ControlPacketType::PUBACK
                || control_packet_type == crate::definitions::ControlPacketType::PUBREC
                || control_packet_type == crate::definitions::ControlPacketType::PINGRESP,
        ensures
            r.fix_header.control_packet_type == control_packet_type,
            r.fix_header.flags == crate::definitions::Flags(0, 0, 0, 0),
            crate::frame::encoder::spec_packet_type_of(r.control_packet@) == control_packet_type,
            control_packet_type == crate::definitions::ControlPacketType::CONNACK ==> (
            r.control_packet@ matches ControlPacketView::ConnAck(p)
                && !(p.conn_ack_flag.session_present_flag) && p.reason_code
                == crate::definitions::ConnAckReasonCode::Success && p.properties.len() == 0),
            control_packet_type == crate::definitions::ControlPacketType::PUBACK ==> (
            r.control_packet@ matches ControlPacketView::PubAck(p) && p.packet_identifier == 0
                && p.reason_code == crate::definitions::PubAckReasonCode::Success
                && p.properties.len() == 0),
            control_packet_type == crate::definitions::ControlPacketType::PUBREC ==> (
            r.control_packet@ matches ControlPacketView::PubRec(p) && p.packet_identifier == 0
                && p.reason_code == crate::definitions::PubRecReasonCode::Success
                && p.properties.len() == 0),
            control_packet_type == crate::definitions::ControlPacketType::PINGRESP
                ==> r.control_packet@ is PingResp,
    {
        let fix_header = FixHeader {
            control_packet_type,
            flags: crate::definitions::Flags(0, 0, 0, 0),
        };
        let control_packet = match control_packet_type {
            crate::definitions::ControlPacketType::CONNECT => ControlPacket::Connect(
                ConnectControlPacket {
                    variable_header: crate::packet::ConnectVariableHeader {
                        protocol_name: Vec::new(),
                        protocol_version: 0,
                        connect_flag: crate::packet::ConnectFlags::new(0),
                        keep_alive: 0,
                        properties: Vec::new(),
                    },
                    payload: crate::packet::ConnectPayload {
                        client_identifier: Vec::new(),
                        will_properties: Vec::new(),
                        will_topic: None,
                        will_payload: None,
                        user_name: None,
                        password: None,
                    },
                },
            ),
            crate::definitions::ControlPacketType::CONNACK => ControlPacket::ConnAck(
                ConnAckControlPacket {
                    conn_ack_flag: crate::packet::ConnAckFlags { session_present_flag: false },
                    reason_code: crate::definitions::ConnAckReasonCode::Success,
                    properties: Vec::new(),
                },
            ),
            crate::definitions::ControlPacketType::PUBACK => ControlPacket::PubAck(
                PubAckControlPacket {
                    packet_identifier: 0,
                    reason_code: crate::definitions::PubAckReasonCode::Success,
                    properties: Vec::new(),
                },
            ),
            crate::definitions::ControlPacketType::PUBREC => ControlPacket::PubRec(
                PubRecControlPacket {
                    packet_identifier: 0,
                    reason_code: crate::definitions::PubRecReasonCode::Success,
                    properties: Vec::new(),
                },
            ),
            _ => ControlPacket::PingResp,
        };
        Frame { control_packet, fix_header }
    }

    /// Reads one frame from the front of the buffer, returning it with its
    /// total byte length. `Incomplete` means the buffer holds a proper
    /// prefix of a frame and nothing has been consumed.
    pub fn deserialize(buf: &Vec<u8>) -> (r: Result<(Frame, usize), Error>)
        ensures
            (match r {
                Ok((f, n)) => crate::frame::decoder::spec_parse_frame(buf@)
                    == crate::frame::decoder::FrameParse::Parsed(f@, n as int) && 0 < n
                    <= buf@.len(),
                Err(Error::Incomplete) => crate::frame::decoder::spec_parse_frame(buf@)
                    is NeedMore,
                Err(e) => crate::frame::decoder::spec_parse_frame(buf@)
                    == crate::frame::decoder::FrameParse::Bad(e),
            }),
    {
        if buf.len() < 2 {
            return Err(Error::Incomplete);
        }
        let (fix_header, p1) = match crate::frame::decoder::decode_fix_header(buf, 0) {
            Ok(x) => x,
            Err(e) => {
                return Err(e);
            },
        };
        match crate::frame::decoder::check_flags(fix_header) {
            Some(e) => {
                return Err(e);
            },
            None => (),
        }
        let (len, n) = match crate::varint::VariableByteInteger::decode(buf, p1) {
            Ok(x) => x,
            Err(e) => {
                return Err(e);
            },
        };
        let bodystart = p1 + n;
        if (len as usize) > buf.len() - bodystart {
            return Err(Error::Incomplete);
        }
        let total = bodystart + len as usize;
        let (control_packet, np) = match crate::frame::decoder::decode_packet_body(
            buf,
            fix_header.control_packet_type,
            fix_header.flags.1,
            bodystart,
            total,
        ) {
            Ok(x) => x,
            Err(e) => {
                return Err(e);
            },
        };
        if np != total {
            return Err(Error::MalformedPacket);
        }
        Ok((Frame { control_packet, fix_header }, total))
    }

    /// Serializes a whole frame: fixed-header byte, remaining-length
    /// varint, then the packet body. Succeeds exactly on well-formed
    /// frames and never touches the wire representation otherwise.
    pub fn serialize(frame: Frame) -> (r: Result<Vec<u8>, Error>)
        ensures
            (match r {
                Ok(v) => crate::frame::encoder::wf_frame(frame@) && v@
                    == crate::frame::encoder::spec_encode_frame(frame@),
                Err(e) => e == Error::MalformedPacket && !crate::frame::encoder::wf_frame(frame@),
            }),
    {
        if control_packet_type_of(&frame.control_packet) != frame.fix_header.control_packet_type {
            return Err(Error::MalformedPacket);
        }
        match &frame.control_packet {
            ControlPacket::Publish(p) => {
                if p.packet_identifier.is_some() != (frame.fix_header.flags.1 > 0) {
                    return Err(Error::MalformedPacket);
                }
            },
            _ => (),
        }
        let mut data: Vec<u8> = Vec::new();
        match crate::frame::encoder::encode_fix_header(frame.fix_header, &mut data) {
            Ok(()) => (),
            Err(e) => {
                return Err(e);
            },
        }
        let mut body: Vec<u8> = Vec::new();
        match crate::frame::encoder::encode_packet(&frame.control_packet, &mut body) {
            Ok(()) => (),
            Err(e) => {
                return Err(e);
            },
        }
        if body.len() > crate::varint::VARINT_MAX as usize {
            return Err(Error::MalformedPacket);
        }
        let mut len_bytes = crate::varint::VariableByteInteger::encode_u32(body.len() as u32);
        data.append(&mut len_bytes);
        data.append(&mut body);
        proof {
            assert(data@ =~= crate::frame::encoder::spec_encode_frame(frame@));
        }
        Ok(data)
    }
}

} // verus!
