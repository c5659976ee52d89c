//! Control packet types, reason codes, fixed headers and quality-of-service
//! levels, with their one-byte wire representations.
use vstd::prelude::*;

verus! {

/// The 4-bit control packet type carried in the high nibble of the first
/// byte of every frame.
#[derive(Debug, Clone, Copy, PartialEq, Eq, Structural)]
#[allow(non_camel_case_types)]
pub enum ControlPacketType {
    CONNECT,
    CONNACK,
    PUBLISH,
    PUBACK,
    PUBREC,
    PUBREL,
    PUBCOMP,
    SUBSCRIBE,
    SUBACK,
    UNSUBSCRIBE,
    UNSUBACK,
    PINGREQ,
    PINGRESP,
    DISCONNECT,
    AUTH,
}

pub open spec fn spec_packet_type_u8(t: ControlPacketType) -> u8 {
    match t {
        ControlPacketType::CONNECT => 1,
        ControlPacketType::CONNACK => 2,
        ControlPacketType::PUBLISH => 3,
        ControlPacketType::PUBACK => 4,
        ControlPacketType::PUBREC => 5,
        ControlPacketType::PUBREL => 6,
        ControlPacketType::PUBCOMP => 7,
        ControlPacketType::SUBSCRIBE => 8,
        ControlPacketType::SUBACK => 9,
        ControlPacketType::UNSUBSCRIBE => 10,
        ControlPacketType::UNSUBACK => 11,
        ControlPacketType::PINGREQ => 12,
        ControlPacketType::PINGRESP => 13,
        ControlPacketType::DISCONNECT => 14,
        ControlPacketType::AUTH => 15,
    }
}

pub open spec fn spec_packet_type_from_u8(b: u8) -> Option<ControlPacketType> {
    match b {
        1u8 => Some(ControlPacketType::CONNECT),
        2u8 => Some(ControlPacketType::CONNACK),
        3u8 => Some(ControlPacketType::PUBLISH),
        4u8 => Some(ControlPacketType::PUBACK),
        5u8 => Some(ControlPacketType::PUBREC),
        6u8 => Some(ControlPacketType::PUBREL),
        7u8 => Some(ControlPacketType::PUBCOMP),
        8u8 => Some(ControlPacketType::SUBSCRIBE),
        9u8 => Some(ControlPacketType::SUBACK),
        10u8 => Some(ControlPacketType::UNSUBSCRIBE),
        11u8 => Some(ControlPacketType::UNSUBACK),
        12u8 => Some(ControlPacketType::PINGREQ),
        13u8 => Some(ControlPacketType::PINGRESP),
        14u8 => Some(ControlPacketType::DISCONNECT),
        15u8 => Some(ControlPacketType::AUTH),
        _ => None,
    }
}

impl ControlPacketType {
    pub fn to_u8(self) -> (r: u8)
        ensures
            r == spec_packet_type_u8(self),
            1 <= r <= 15,
    {
        match self {
            ControlPacketType::CONNECT => 1,
            ControlPacketType::CONNACK => 2,
            ControlPacketType::PUBLISH => 3,
            ControlPacketType::PUBACK => 4,
            ControlPacketType::PUBREC => 5,
            ControlPacketType::PUBREL => 6,
            ControlPacketType::PUBCOMP => 7,
            ControlPacketType::SUBSCRIBE => 8,
            ControlPacketType::SUBACK => 9,
            ControlPacketType::UNSUBSCRIBE => 10,
            ControlPacketType::UNSUBACK => 11,
            ControlPacketType::PINGREQ => 12,
            ControlPacketType::PINGRESP => 13,
            ControlPacketType::DISCONNECT => 14,
            ControlPacketType::AUTH => 15,
        }
    }

    pub fn from_u8(b: u8) -> (r: Option<ControlPacketType>)
        ensures
            r == spec_packet_type_from_u8(b),
    {
        match b {
            1u8 => Some(ControlPacketType::CONNECT),
            2u8 => Some(ControlPacketType::CONNACK),
            3u8 => Some(ControlPacketType::PUBLISH),
            4u8 => Some(ControlPacketType::PUBACK),
            5u8 => Some(ControlPacketType::PUBREC),
            6u8 => Some(ControlPacketType::PUBREL),
            7u8 => Some(ControlPacketType::PUBCOMP),
            8u8 => Some(ControlPacketType::SUBSCRIBE),
            9u8 => Some(ControlPacketType::SUBACK),
            10u8 => Some(ControlPacketType::UNSUBSCRIBE),
            11u8 => Some(ControlPacketType::UNSUBACK),
            12u8 => Some(ControlPacketType::PINGREQ),
            13u8 => Some(ControlPacketType::PINGRESP),
            14u8 => Some(ControlPacketType::DISCONNECT),
            15u8 => Some(ControlPacketType::AUTH),
            _ => None,
        }
    }
}

/// Each packet type's one-byte code maps back to the type itself.
pub proof fn lemma_packet_type_round_trip()
    ensures
        forall|t: ControlPacketType| #[trigger] spec_packet_type_from_u8(spec_packet_type_u8(t))
            == Some(t),
{
}

/// Quality-of-service delivery level: at most once, at least once, or
/// exactly once.
#[derive(Debug, Clone, Copy, PartialEq, Eq, Structural)]
pub enum Qos {
    AtMostOnce,
    AtleastOnce,
    ExactlyOnce,
}

pub open spec fn spec_qos_u8(q: Qos) -> u8 {
    match q {
        Qos::AtMostOnce => 0,
        Qos::AtleastOnce => 1,
        Qos::ExactlyOnce => 2,
    }
}

pub open spec fn spec_qos_from_u8(b: u8) -> Option<Qos> {
    match b {
        0u8 => Some(Qos::AtMostOnce),
        1u8 => Some(Qos::AtleastOnce),
        2u8 => Some(Qos::ExactlyOnce),
        _ => None,
    }
}

impl Qos {
    pub fn to_u8(self) -> (r: u8)
        ensures
            r == spec_qos_u8(self),
            r <= 2,
    {
        match self {
            Qos::AtMostOnce => 0,
            Qos::AtleastOnce => 1,
            Qos::ExactlyOnce => 2,
        }
    }

    pub fn from_u8(b: u8) -> (r: Option<Qos>)
        ensures
            r == spec_qos_from_u8(b),
    {
        match b {
            0u8 => Some(Qos::AtMostOnce),
            1u8 => Some(Qos::AtleastOnce),
            2u8 => Some(Qos::ExactlyOnce),
            _ => None,
        }
    }
}

/// The four flag bits of the fixed header, lowest bit first. For PUBLISH
/// the second field carries the whole 2-bit QoS and the third is unused.
#[derive(Debug, Clone, Copy, PartialEq, Eq, Structural)]
pub struct Flags(pub u8, pub u8, pub u8, pub u8);

/// First byte of every control packet: the packet type and its four
/// type-specific flag bits.
#[derive(Debug, Clone, Copy, PartialEq, Eq, Structural)]
pub struct FixHeader {
    pub control_packet_type: ControlPacketType,
    pub flags: Flags,
}

impl FixHeader {
    pub fn new(control_packet_type: ControlPacketType, flags: Flags) -> (r: FixHeader)
        ensures
            r.control_packet_type == control_packet_type,
            r.flags == flags,
    {
        FixHeader { control_packet_type, flags }
    }
}

/// Whether a packet of this type carries a packet identifier; for PUBLISH
/// that holds exactly when the QoS bits of the fixed header are non-zero.
pub open spec fn spec_have_packet_identifier(fix_header: FixHeader) -> bool {
    match fix_header.control_packet_type {
        ControlPacketType::CONNECT
        | ControlPacketType::CONNACK
        | ControlPacketType::PINGREQ
        | ControlPacketType::PINGRESP
        | ControlPacketType::DISCONNECT
        | ControlPacketType::AUTH => false,
        ControlPacketType::PUBACK
        | ControlPacketType::PUBREC
        | ControlPacketType::PUBREL
        | ControlPacketType::PUBCOMP
        | ControlPacketType::SUBSCRIBE
        | ControlPacketType::SUBACK
        | ControlPacketType::UNSUBSCRIBE
        | ControlPacketType::UNSUBACK => true,
        ControlPacketType::PUBLISH => fix_header.flags.1 > 0,
    }
}

pub fn have_packet_identifier(fix_header: FixHeader) -> (r: bool)
    ensures
        r == spec_have_packet_identifier(fix_header),
{
    match fix_header.control_packet_type {
        ControlPacketType::CONNECT
        | ControlPacketType::CONNACK
        | ControlPacketType::PINGREQ
        | ControlPacketType::PINGRESP
        | ControlPacketType::DISCONNECT
        | ControlPacketType::AUTH => false,
        ControlPacketType::PUBACK
        | ControlPacketType::PUBREC
        | ControlPacketType::PUBREL
        | ControlPacketType::PUBCOMP
        | ControlPacketType::SUBSCRIBE
        | ControlPacketType::SUBACK
        | ControlPacketType::UNSUBSCRIBE
        | ControlPacketType::UNSUBACK => true,
        ControlPacketType::PUBLISH => fix_header.flags.1 > 0,
    }
}

/// Reason codes carried by ConnAck packets.
#[derive(Debug, Clone, Copy, PartialEq, Eq, Structural)]
pub enum ConnAckReasonCode {
    Success,
    UnspecifiedError,
    MalformedPacket,
    ProtocolError,
    ImplementationSpecificError,
    UnsupportedProtocolVersion,
    ClientIdentifierNotValid,
    BadUserNameOrPassword,
    NotAuthorized,
    ServerUnavailable,
    ServerBusy,
    Banned,
    BadAuthenticationMethod,
    TopicNameInvalid,
    PacketTooLarge,
    QuotaExceeded,
    PayloadFormatInvalid,
    RetainNotSupported,
    QoSNotSupported,
    UseAnotherServer,
    ServerMoved,
    ConnectionRateExceeded,
}

pub open spec fn spec_conn_ack_reason_u8(c: ConnAckReasonCode) -> u8 {
    match c {
        ConnAckReasonCode::Success => 0,
        ConnAckReasonCode::UnspecifiedError => 128,
        ConnAckReasonCode::MalformedPacket => 129,
        ConnAckReasonCode::ProtocolError => 130,
        ConnAckReasonCode::ImplementationSpecificError => 131,
        ConnAckReasonCode::UnsupportedProtocolVersion => 132,
        ConnAckReasonCode::ClientIdentifierNotValid => 133,
        ConnAckReasonCode::BadUserNameOrPassword => 134,
        ConnAckReasonCode::NotAuthorized => 135,
        ConnAckReasonCode::ServerUnavailable => 136,
        ConnAckReasonCode::ServerBusy => 137,
        ConnAckReasonCode::Banned => 138,
        ConnAckReasonCode::BadAuthenticationMethod => 140,
        ConnAckReasonCode::TopicNameInvalid => 144,
        ConnAckReasonCode::PacketTooLarge => 149,
        ConnAckReasonCode::QuotaExceeded => 151,
        ConnAckReasonCode::PayloadFormatInvalid => 153,
        ConnAckReasonCode::RetainNotSupported => 154,
        ConnAckReasonCode::QoSNotSupported => 155,
        ConnAckReasonCode::UseAnotherServer => 156,
        ConnAckReasonCode::ServerMoved => 157,
        ConnAckReasonCode::ConnectionRateExceeded => 159,
    }
}

pub open spec fn spec_conn_ack_reason_from_u8(b: u8) -> Option<ConnAckReasonCode> {
    match b {
        0u8 => Some(ConnAckReasonCode::Success),
        128u8 => Some(ConnAckReasonCode::UnspecifiedError),
        129u8 => Some(ConnAckReasonCode::MalformedPacket),
        130u8 => Some(ConnAckReasonCode::ProtocolError),
        131u8 => Some(ConnAckReasonCode::ImplementationSpecificError),
        132u8 => Some(ConnAckReasonCode::UnsupportedProtocolVersion),
        133u8 => Some(ConnAckReasonCode::ClientIdentifierNotValid),
        134u8 => Some(ConnAckReasonCode::BadUserNameOrPassword),
        135u8 => Some(ConnAckReasonCode::NotAuthorized),
        136u8 => Some(ConnAckReasonCode::ServerUnavailable),
        137u8 => Some(ConnAckReasonCode::ServerBusy),
        138u8 => Some(ConnAckReasonCode::Banned),
        140u8 => Some(ConnAckReasonCode::BadAuthenticationMethod),
        144u8 => Some(ConnAckReasonCode::TopicNameInvalid),
        149u8 => Some(ConnAckReasonCode::PacketTooLarge),
        151u8 => Some(ConnAckReasonCode::QuotaExceeded),
        153u8 => Some(ConnAckReasonCode::PayloadFormatInvalid),
        154u8 => Some(ConnAckReasonCode::RetainNotSupported),
        155u8 => Some(ConnAckReasonCode::QoSNotSupported),
        156u8 => Some(ConnAckReasonCode::UseAnotherServer),
        157u8 => Some(ConnAckReasonCode::ServerMoved),
        159u8 => Some(ConnAckReasonCode::ConnectionRateExceeded),
        _ => None,
    }
}

impl ConnAckReasonCode {
    pub fn to_u8(self) -> (r: u8)
        ensures
            r == spec_conn_ack_reason_u8(self),
    {
        match self {
            ConnAckReasonCode::Success => 0,
            ConnAckReasonCode::UnspecifiedError => 128,
            ConnAckReasonCode::MalformedPacket => 129,
            ConnAckReasonCode::ProtocolError => 130,
            ConnAckReasonCode::ImplementationSpecificError => 131,
            ConnAckReasonCode::UnsupportedProtocolVersion => 132,
            ConnAckReasonCode::ClientIdentifierNotValid => 133,
            ConnAckReasonCode::BadUserNameOrPassword => 134,
            ConnAckReasonCode::NotAuthorized => 135,
            ConnAckReasonCode::ServerUnavailable => 136,
            ConnAckReasonCode::ServerBusy => 137,
            ConnAckReasonCode::Banned => 138,
            ConnAckReasonCode::BadAuthenticationMethod => 140,
            ConnAckReasonCode::TopicNameInvalid => 144,
            ConnAckReasonCode::PacketTooLarge => 149,
            ConnAckReasonCode::QuotaExceeded => 151,
            ConnAckReasonCode::PayloadFormatInvalid => 153,
            ConnAckReasonCode::RetainNotSupported => 154,
            ConnAckReasonCode::QoSNotSupported => 155,
            ConnAckReasonCode::UseAnotherServer => 156,
            ConnAckReasonCode::ServerMoved => 157,
            ConnAckReasonCode::ConnectionRateExceeded => 159,
        }
    }

    pub fn from_u8(b: u8) -> (r: Option<ConnAckReasonCode>)
        ensures
            r == spec_conn_ack_reason_from_u8(b),
    {
        match b {
            0u8 => Some(ConnAckReasonCode::Success),
            128u8 => Some(ConnAckReasonCode::UnspecifiedError),
            129u8 => Some(ConnAckReasonCode::MalformedPacket),
            130u8 => Some(ConnAckReasonCode::ProtocolError),
            131u8 => Some(ConnAckReasonCode::ImplementationSpecificError),
            132u8 => Some(ConnAckReasonCode::UnsupportedProtocolVersion),
            133u8 => Some(ConnAckReasonCode::ClientIdentifierNotValid),
            134u8 => Some(ConnAckReasonCode::BadUserNameOrPassword),
            135u8 => Some(ConnAckReasonCode::NotAuthorized),
            136u8 => Some(ConnAckReasonCode::ServerUnavailable),
            137u8 => Some(ConnAckReasonCode::ServerBusy),
            138u8 => Some(ConnAckReasonCode::Banned),
            140u8 => Some(ConnAckReasonCode::BadAuthenticationMethod),
            144u8 => Some(ConnAckReasonCode::TopicNameInvalid),
            149u8 => Some(ConnAckReasonCode::PacketTooLarge),
            151u8 => Some(ConnAckReasonCode::QuotaExceeded),
            153u8 => Some(ConnAckReasonCode::PayloadFormatInvalid),
            154u8 => Some(ConnAckReasonCode::RetainNotSupported),
            155u8 => Some(ConnAckReasonCode::QoSNotSupported),
            156u8 => Some(ConnAckReasonCode::UseAnotherServer),
            157u8 => Some(ConnAckReasonCode::ServerMoved),
            159u8 => Some(ConnAckReasonCode::ConnectionRateExceeded),
        _ => None,
        }
    }
}

/// Each reason code's one-byte value maps back to the code itself.
pub proof fn lemma_conn_ack_reason_round_trip()
    ensures
        forall|c: ConnAckReasonCode| #[trigger] spec_conn_ack_reason_from_u8(spec_conn_ack_reason_u8(c)) == Some(c),
{
}

/// Reason codes carried by PubAck packets.
#[derive(Debug, Clone, Copy, PartialEq, Eq, Structural)]
pub enum PubAckReasonCode {
    Success,
    NoMatchingSubscribers,
    UnspecifiedError,
    ImplementationSpecificError,
    NotAuthorized,
    TopicNameInvalid,
    PacketIdentifierInUse,
    QuotaExceeded,
    PayloadFormatInvalid,
}

pub open spec fn spec_pub_ack_reason_u8(c: PubAckReasonCode) -> u8 {
    match c {
        PubAckReasonCode::Success => 0,
        PubAckReasonCode::NoMatchingSubscribers => 16,
        PubAckReasonCode::UnspecifiedError => 128,
        PubAckReasonCode::ImplementationSpecificError => 131,
        PubAckReasonCode::NotAuthorized => 135,
        PubAckReasonCode::TopicNameInvalid => 144,
        PubAckReasonCode::PacketIdentifierInUse => 145,
        PubAckReasonCode::QuotaExceeded => 151,
        PubAckReasonCode::PayloadFormatInvalid => 153,
    }
}

pub open spec fn spec_pub_ack_reason_from_u8(b: u8) -> Option<PubAckReasonCode> {
    match b {
        0u8 => Some(PubAckReasonCode::Success),
        16u8 => Some(PubAckReasonCode::NoMatchingSubscribers),
        128u8 => Some(PubAckReasonCode::UnspecifiedError),
        131u8 => Some(PubAckReasonCode::ImplementationSpecificError),
        135u8 => Some(PubAckReasonCode::NotAuthorized),
        144u8 => Some(PubAckReasonCode::TopicNameInvalid),
        145u8 => Some(PubAckReasonCode::PacketIdentifierInUse),
        151u8 => Some(PubAckReasonCode::QuotaExceeded),
        153u8 => Some(PubAckReasonCode::PayloadFormatInvalid),
        _ => None,
    }
}

impl PubAckReasonCode {
    pub fn to_u8(self) -> (r: u8)
        ensures
            r == spec_pub_ack_reason_u8(self),
    {
        match self {
            PubAckReasonCode::Success => 0,
            PubAckReasonCode::NoMatchingSubscribers => 16,
            PubAckReasonCode::UnspecifiedError => 128,
            PubAckReasonCode::ImplementationSpecificError => 131,
            PubAckReasonCode::NotAuthorized => 135,
            PubAckReasonCode::TopicNameInvalid => 144,
            PubAckReasonCode::PacketIdentifierInUse => 145,
            PubAckReasonCode::QuotaExceeded => 151,
            PubAckReasonCode::PayloadFormatInvalid => 153,
        }
    }

    pub fn from_u8(b: u8) -> (r: Option<PubAckReasonCode>)
        ensures
            r == spec_pub_ack_reason_from_u8(b),
    {
        match b {
            0u8 => Some(PubAckReasonCode::Success),
            16u8 => Some(PubAckReasonCode::NoMatchingSubscribers),
            128u8 => Some(PubAckReasonCode::UnspecifiedError),
            131u8 => Some(PubAckReasonCode::ImplementationSpecificError),
            135u8 => Some(PubAckReasonCode::NotAuthorized),
            144u8 => Some(PubAckReasonCode::TopicNameInvalid),
            145u8 => Some(PubAckReasonCode::PacketIdentifierInUse),
            151u8 => Some(PubAckReasonCode::QuotaExceeded),
            153u8 => Some(PubAckReasonCode::PayloadFormatInvalid),
        _ => None,
        }
    }
}

/// Each reason code's one-byte value maps back to the code itself.
pub proof fn lemma_pub_ack_reason_round_trip()
    ensures
        forall|c: PubAckReasonCode| #[trigger] spec_pub_ack_reason_from_u8(spec_pub_ack_reason_u8(c)) == Some(c),
{
}

/// Reason codes carried by PubRec packets.
#[derive(Debug, Clone, Copy, PartialEq, Eq, Structural)]
pub enum PubRecReasonCode {
    Success,
    NoMatchingSubscribers,
    UnspecifiedError,
    ImplementationSpecificError,
    NotAuthorized,
    TopicNameInvalid,
    PacketIdentifierInUse,
    QuotaExceeded,
    PayloadFormatInvalid,
}

pub open spec fn spec_pub_rec_reason_u8(c: PubRecReasonCode) -> u8 {
    match c {
        PubRecReasonCode::Success => 0,
        PubRecReasonCode::NoMatchingSubscribers => 16,
        PubRecReasonCode::UnspecifiedError => 128,
        PubRecReasonCode::ImplementationSpecificError => 131,
        PubRecReasonCode::NotAuthorized => 135,
        PubRecReasonCode::TopicNameInvalid => 144,
        PubRecReasonCode::PacketIdentifierInUse => 145,
        PubRecReasonCode::QuotaExceeded => 151,
        PubRecReasonCode::PayloadFormatInvalid => 153,
    }
}

pub open spec fn spec_pub_rec_reason_from_u8(b: u8) -> Option<PubRecReasonCode> {
    match b {
        0u8 => Some(PubRecReasonCode::Success),
        16u8 => Some(PubRecReasonCode::NoMatchingSubscribers),
        128u8 => Some(PubRecReasonCode::UnspecifiedError),
        131u8 => Some(PubRecReasonCode::ImplementationSpecificError),
        135u8 => Some(PubRecReasonCode::NotAuthorized),
        144u8 => Some(PubRecReasonCode::TopicNameInvalid),
        145u8 => Some(PubRecReasonCode::PacketIdentifierInUse),
        151u8 => Some(PubRecReasonCode::QuotaExceeded),
        153u8 => Some(PubRecReasonCode::PayloadFormatInvalid),
        _ => None,
    }
}

impl PubRecReasonCode {
    pub fn to_u8(self) -> (r: u8)
        ensures
            r == spec_pub_rec_reason_u8(self),
    {
        match self {
            PubRecReasonCode::Success => 0,
            PubRecReasonCode::NoMatchingSubscribers => 16,
            PubRecReasonCode::UnspecifiedError => 128,
            PubRecReasonCode::ImplementationSpecificError => 131,
            PubRecReasonCode::NotAuthorized => 135,
            PubRecReasonCode::TopicNameInvalid => 144,
            PubRecReasonCode::PacketIdentifierInUse => 145,
            PubRecReasonCode::QuotaExceeded => 151,
            PubRecReasonCode::PayloadFormatInvalid => 153,
        }
    }

    pub fn from_u8(b: u8) -> (r: Option<PubRecReasonCode>)
        ensures
            r == spec_pub_rec_reason_from_u8(b),
    {
        match b {
            0u8 => Some(PubRecReasonCode::Success),
            16u8 => Some(PubRecReasonCode::NoMatchingSubscribers),
            128u8 => Some(PubRecReasonCode::UnspecifiedError),
            131u8 => Some(PubRecReasonCode::ImplementationSpecificError),
            135u8 => Some(PubRecReasonCode::NotAuthorized),
            144u8 => Some(PubRecReasonCode::TopicNameInvalid),
            145u8 => Some(PubRecReasonCode::PacketIdentifierInUse),
            151u8 => Some(PubRecReasonCode::QuotaExceeded),
            153u8 => Some(PubRecReasonCode::PayloadFormatInvalid),
        _ => None,
        }
    }
}

/// Each reason code's one-byte value maps back to the code itself.
pub proof fn lemma_pub_rec_reason_round_trip()
    ensures
        forall|c: PubRecReasonCode| #[trigger] spec_pub_rec_reason_from_u8(spec_pub_rec_reason_u8(c)) == Some(c),
{
}

/// Reason codes carried by PubRel packets.
#[derive(Debug, Clone, Copy, PartialEq, Eq, Structural)]
pub enum PubRelReasonCode {
    Success,
    PacketIdentifierNotFound,
}

pub open spec fn spec_pub_rel_reason_u8(c: PubRelReasonCode) -> u8 {
    match c {
        PubRelReasonCode::Success => 0,
        PubRelReasonCode::PacketIdentifierNotFound => 146,
    }
}

pub open spec fn spec_pub_rel_reason_from_u8(b: u8) -> Option<PubRelReasonCode> {
    match b {
        0u8 => Some(PubRelReasonCode::Success),
        146u8 => Some(PubRelReasonCode::PacketIdentifierNotFound),
        _ => None,
    }
}

impl PubRelReasonCode {
    pub fn to_u8(self) -> (r: u8)
        ensures
            r == spec_pub_rel_reason_u8(self),
    {
        match self {
            PubRelReasonCode::Success => 0,
            PubRelReasonCode::PacketIdentifierNotFound => 146,
        }
    }

    pub fn from_u8(b: u8) -> (r: Option<PubRelReasonCode>)
        ensures
            r == spec_pub_rel_reason_from_u8(b),
    {
        match b {
            0u8 => Some(PubRelReasonCode::Success),
            146u8 => Some(PubRelReasonCode::PacketIdentifierNotFound),
        _ => None,
        }
    }
}

/// Each reason code's one-byte value maps back to the code itself.
pub proof fn lemma_pub_rel_reason_round_trip()
    ensures
        forall|c: PubRelReasonCode| #[trigger] spec_pub_rel_reason_from_u8(spec_pub_rel_reason_u8(c)) == Some(c),
{
}

/// Reason codes carried by PubComp packets.
#[derive(Debug, Clone, Copy, PartialEq, Eq, Structural)]
pub enum PubCompReasonCode {
    Success,
    PacketIdentifierNotFound,
}

pub open spec fn spec_pub_comp_reason_u8(c: PubCompReasonCode) -> u8 {
    match c {
        PubCompReasonCode::Success => 0,
        PubCompReasonCode::PacketIdentifierNotFound => 146,
    }
}

pub open spec fn spec_pub_comp_reason_from_u8(b: u8) -> Option<PubCompReasonCode> {
    match b {
        0u8 => Some(PubCompReasonCode::Success),
        146u8 => Some(PubCompReasonCode::PacketIdentifierNotFound),
        _ => None,
    }
}

impl PubCompReasonCode {
    pub fn to_u8(self) -> (r: u8)
        ensures
            r == spec_pub_comp_reason_u8(self),
    {
        match self {
            PubCompReasonCode::Success => 0,
            PubCompReasonCode::PacketIdentifierNotFound => 146,
        }
    }

    pub fn from_u8(b: u8) -> (r: Option<PubCompReasonCode>)
        ensures
            r == spec_pub_comp_reason_from_u8(b),
    {
        match b {
            0u8 => Some(PubCompReasonCode::Success),
            146u8 => Some(PubCompReasonCode::PacketIdentifierNotFound),
        _ => None,
        }
    }
}

/// Each reason code's one-byte value maps back to the code itself.
pub proof fn lemma_pub_comp_reason_round_trip()
    ensures
        forall|c: PubCompReasonCode| #[trigger] spec_pub_comp_reason_from_u8(spec_pub_comp_reason_u8(c)) == Some(c),
{
}

/// Reason codes carried by SubAck packets.
#[derive(Debug, Clone, Copy, PartialEq, Eq, Structural)]
pub enum SubAckReasonCode {
    GrantedQoS0,
    GrantedQoS1,
    GrantedQoS2,
    UnspecifiedError,
    ImplementationSpecificError,
    NotAuthorized,
    TopicFilterInvalid,
    PacketIdentifierInUse,
    QuotaExceeded,
    SharedSubscriptionsNotSupported,
    SubscriptionIdentifiersNotSupported,
    WildcardSubscriptionsNotSupported,
}

pub open spec fn spec_sub_ack_reason_u8(c: SubAckReasonCode) -> u8 {
    match c {
        SubAckReasonCode::GrantedQoS0 => 0,
        SubAckReasonCode::GrantedQoS1 => 1,
        SubAckReasonCode::GrantedQoS2 => 2,
        SubAckReasonCode::UnspecifiedError => 128,
        SubAckReasonCode::ImplementationSpecificError => 131,
        SubAckReasonCode::NotAuthorized => 135,
        SubAckReasonCode::TopicFilterInvalid => 143,
        SubAckReasonCode::PacketIdentifierInUse => 145,
        SubAckReasonCode::QuotaExceeded => 151,
        SubAckReasonCode::SharedSubscriptionsNotSupported => 158,
        SubAckReasonCode::SubscriptionIdentifiersNotSupported => 161,
        SubAckReasonCode::WildcardSubscriptionsNotSupported => 162,
    }
}

pub open spec fn spec_sub_ack_reason_from_u8(b: u8) -> Option<SubAckReasonCode> {
    match b {
        0u8 => Some(SubAckReasonCode::GrantedQoS0),
        1u8 => Some(SubAckReasonCode::GrantedQoS1),
        2u8 => Some(SubAckReasonCode::GrantedQoS2),
        128u8 => Some(SubAckReasonCode::UnspecifiedError),
        131u8 => Some(SubAckReasonCode::ImplementationSpecificError),
        135u8 => Some(SubAckReasonCode::NotAuthorized),
        143u8 => Some(SubAckReasonCode::TopicFilterInvalid),
        145u8 => Some(SubAckReasonCode::PacketIdentifierInUse),
        151u8 => Some(SubAckReasonCode::QuotaExceeded),
        158u8 => Some(SubAckReasonCode::SharedSubscriptionsNotSupported),
        161u8 => Some(SubAckReasonCode::SubscriptionIdentifiersNotSupported),
        162u8 => Some(SubAckReasonCode::WildcardSubscriptionsNotSupported),
        _ => None,
    }
}

impl SubAckReasonCode {
    pub fn to_u8(self) -> (r: u8)
        ensures
            r == spec_sub_ack_reason_u8(self),
    {
        match self {
            SubAckReasonCode::GrantedQoS0 => 0,
            SubAckReasonCode::GrantedQoS1 => 1,
            SubAckReasonCode::GrantedQoS2 => 2,
            SubAckReasonCode::UnspecifiedError => 128,
            SubAckReasonCode::ImplementationSpecificError => 131,
            SubAckReasonCode::NotAuthorized => 135,
            SubAckReasonCode::TopicFilterInvalid => 143,
            SubAckReasonCode::PacketIdentifierInUse => 145,
            SubAckReasonCode::QuotaExceeded => 151,
            SubAckReasonCode::SharedSubscriptionsNotSupported => 158,
            SubAckReasonCode::SubscriptionIdentifiersNotSupported => 161,
            SubAckReasonCode::WildcardSubscriptionsNotSupported => 162,
        }
    }

    pub fn from_u8(b: u8) -> (r: Option<SubAckReasonCode>)
        ensures
            r == spec_sub_ack_reason_from_u8(b),
    {
        match b {
            0u8 => Some(SubAckReasonCode::GrantedQoS0),
            1u8 => Some(SubAckReasonCode::GrantedQoS1),
            2u8 => Some(SubAckReasonCode::GrantedQoS2),
            128u8 => Some(SubAckReasonCode::UnspecifiedError),
            131u8 => Some(SubAckReasonCode::ImplementationSpecificError),
            135u8 => Some(SubAckReasonCode::NotAuthorized),
            143u8 => Some(SubAckReasonCode::TopicFilterInvalid),
            145u8 => Some(SubAckReasonCode::PacketIdentifierInUse),
            151u8 => Some(SubAckReasonCode::QuotaExceeded),
            158u8 => Some(SubAckReasonCode::SharedSubscriptionsNotSupported),
            161u8 => Some(SubAckReasonCode::SubscriptionIdentifiersNotSupported),
            162u8 => Some(SubAckReasonCode::WildcardSubscriptionsNotSupported),
        _ => None,
        }
    }
}

/// Each reason code's one-byte value maps back to the code itself.
pub proof fn lemma_sub_ack_reason_round_trip()
    ensures
        forall|c: SubAckReasonCode| #[trigger] spec_sub_ack_reason_from_u8(spec_sub_ack_reason_u8(c)) == Some(c),
{
}

/// Reason codes carried by UnSubAck packets.
#[derive(Debug, Clone, Copy, PartialEq, Eq, Structural)]
pub enum UnSubAckReasonCode {
    Success,
    UnspecifiedError,
    ImplementationSpecificError,
    NotAuthorized,
    TopicFilterInvalid,
    PacketIdentifierInUse,
}

pub open spec fn spec_un_sub_ack_reason_u8(c: UnSubAckReasonCode) -> u8 {
    match c {
        UnSubAckReasonCode::Success => 0,
        UnSubAckReasonCode::UnspecifiedError => 128,
        UnSubAckReasonCode::ImplementationSpecificError => 131,
        UnSubAckReasonCode::NotAuthorized => 135,
        UnSubAckReasonCode::TopicFilterInvalid => 143,
        UnSubAckReasonCode::PacketIdentifierInUse => 145,
    }
}

pub open spec fn spec_un_sub_ack_reason_from_u8(b: u8) -> Option<UnSubAckReasonCode> {
    match b {
        0u8 => Some(UnSubAckReasonCode::Success),
        128u8 => Some(UnSubAckReasonCode::UnspecifiedError),
        131u8 => Some(UnSubAckReasonCode::ImplementationSpecificError),
        135u8 => Some(UnSubAckReasonCode::NotAuthorized),
        143u8 => Some(UnSubAckReasonCode::TopicFilterInvalid),
        145u8 => Some(UnSubAckReasonCode::PacketIdentifierInUse),
        _ => None,
    }
}

impl UnSubAckReasonCode {
    pub fn to_u8(self) -> (r: u8)
        ensures
            r == spec_un_sub_ack_reason_u8(self),
    {
        match self {
            UnSubAckReasonCode::Success => 0,
            UnSubAckReasonCode::UnspecifiedError => 128,
            UnSubAckReasonCode::ImplementationSpecificError => 131,
            UnSubAckReasonCode::NotAuthorized => 135,
            UnSubAckReasonCode::TopicFilterInvalid => 143,
            UnSubAckReasonCode::PacketIdentifierInUse => 145,
        }
    }

    pub fn from_u8(b: u8) -> (r: Option<UnSubAckReasonCode>)
        ensures
            r == spec_un_sub_ack_reason_from_u8(b),
    {
        match b {
            0u8 => Some(UnSubAckReasonCode::Success),
            128u8 => Some(UnSubAckReasonCode::UnspecifiedError),
            131u8 => Some(UnSubAckReasonCode::ImplementationSpecificError),
            135u8 => Some(UnSubAckReasonCode::NotAuthorized),
            143u8 => Some(UnSubAckReasonCode::TopicFilterInvalid),
            145u8 => Some(UnSubAckReasonCode::PacketIdentifierInUse),
        _ => None,
        }
    }
}

/// Each reason code's one-byte value maps back to the code itself.
pub proof fn lemma_un_sub_ack_reason_round_trip()
    ensures
        forall|c: UnSubAckReasonCode| #[trigger] spec_un_sub_ack_reason_from_u8(spec_un_sub_ack_reason_u8(c)) == Some(c),
{
}

/// Reason codes carried by Disconnect packets.
#[derive(Debug, Clone, Copy, PartialEq, Eq, Structural)]
pub enum DisconnectReasonCode {
    NormalDisconnection,
    DisconnectWithWillMessage,
    UnspecifiedError,
    MalformedPacket,
    ProtocolError,
    ImplementationSpecificError,
    NotAuthorized,
    ServerBusy,
    ServerShuttingDown,
    KeepAliveTimeout,
    SessionTakenOver,
    TopicFilterInvalid,
    TopicNameInvalid,
    ReceiveMaximumExceeded,
    TopicAliasInvalid,
    PacketTooLarge,
    MessageRateTooHigh,
    QuotaExceeded,
    AdministrativeAction,
    PayloadFormatInvalid,
    RetainNotSupported,
    QoSNotSupported,
    UseAnotherServer,
    ServerMoved,
    SharedSubscriptionsNotSupported,
    ConnectionRateExceeded,
    MaximumConnectTime,
    SubscriptionIdentifiersNotSupported,
    WildcardSubscriptionsNotSupported,
}

pub open spec fn spec_disconnect_reason_u8(c: DisconnectReasonCode) -> u8 {
    match c {
        DisconnectReasonCode::NormalDisconnection => 0,
        DisconnectReasonCode::DisconnectWithWillMessage => 4,
        DisconnectReasonCode::UnspecifiedError => 128,
        DisconnectReasonCode::MalformedPacket => 129,
        DisconnectReasonCode::ProtocolError => 130,
        DisconnectReasonCode::ImplementationSpecificError => 131,
        DisconnectReasonCode::NotAuthorized => 135,
        DisconnectReasonCode::ServerBusy => 137,
        DisconnectReasonCode::ServerShuttingDown => 139,
        DisconnectReasonCode::KeepAliveTimeout => 141,
        DisconnectReasonCode::SessionTakenOver => 142,
        DisconnectReasonCode::TopicFilterInvalid => 143,
        DisconnectReasonCode::TopicNameInvalid => 144,
        DisconnectReasonCode::ReceiveMaximumExceeded => 147,
        DisconnectReasonCode::TopicAliasInvalid => 148,
        DisconnectReasonCode::PacketTooLarge => 149,
        DisconnectReasonCode::MessageRateTooHigh => 150,
        DisconnectReasonCode::QuotaExceeded => 151,
        DisconnectReasonCode::AdministrativeAction => 152,
        DisconnectReasonCode::PayloadFormatInvalid => 153,
        DisconnectReasonCode::RetainNotSupported => 154,
        DisconnectReasonCode::QoSNotSupported => 155,
        DisconnectReasonCode::UseAnotherServer => 156,
        DisconnectReasonCode::ServerMoved => 157,
        DisconnectReasonCode::SharedSubscriptionsNotSupported => 158,
        DisconnectReasonCode::ConnectionRateExceeded => 159,
        DisconnectReasonCode::MaximumConnectTime => 160,
        DisconnectReasonCode::SubscriptionIdentifiersNotSupported => 161,
        DisconnectReasonCode::WildcardSubscriptionsNotSupported => 162,
    }
}

pub open spec fn spec_disconnect_reason_from_u8(b: u8) -> Option<DisconnectReasonCode> {
    match b {
        0u8 => Some(DisconnectReasonCode::NormalDisconnection),
        4u8 => Some(DisconnectReasonCode::DisconnectWithWillMessage),
        128u8 => Some(DisconnectReasonCode::UnspecifiedError),
        129u8 => Some(DisconnectReasonCode::MalformedPacket),
        130u8 => Some(DisconnectReasonCode::ProtocolError),
        131u8 => Some(DisconnectReasonCode::ImplementationSpecificError),
        135u8 => Some(DisconnectReasonCode::NotAuthorized),
        137u8 => Some(DisconnectReasonCode::ServerBusy),
        139u8 => Some(DisconnectReasonCode::ServerShuttingDown),
        141u8 => Some(DisconnectReasonCode::KeepAliveTimeout),
        142u8 => Some(DisconnectReasonCode::SessionTakenOver),
        143u8 => Some(DisconnectReasonCode::TopicFilterInvalid),
        144u8 => Some(DisconnectReasonCode::TopicNameInvalid),
        147u8 => Some(DisconnectReasonCode::ReceiveMaximumExceeded),
        148u8 => Some(DisconnectReasonCode::TopicAliasInvalid),
        149u8 => Some(DisconnectReasonCode::PacketTooLarge),
        150u8 => Some(DisconnectReasonCode::MessageRateTooHigh),
        151u8 => Some(DisconnectReasonCode::QuotaExceeded),
        152u8 => Some(DisconnectReasonCode::AdministrativeAction),
        153u8 => Some(DisconnectReasonCode::PayloadFormatInvalid),
        154u8 => Some(DisconnectReasonCode::RetainNotSupported),
        155u8 => Some(DisconnectReasonCode::QoSNotSupported),
        156u8 => Some(DisconnectReasonCode::UseAnotherServer),
        157u8 => Some(DisconnectReasonCode::ServerMoved),
        158u8 => Some(DisconnectReasonCode::SharedSubscriptionsNotSupported),
        159u8 => Some(DisconnectReasonCode::ConnectionRateExceeded),
        160u8 => Some(DisconnectReasonCode::MaximumConnectTime),
        161u8 => Some(DisconnectReasonCode::SubscriptionIdentifiersNotSupported),
        162u8 => Some(DisconnectReasonCode::WildcardSubscriptionsNotSupported),
        _ => None,
    }
}

impl DisconnectReasonCode {
    pub fn to_u8(self) -> (r: u8)
        ensures
            r == spec_disconnect_reason_u8(self),
    {
        match self {
            DisconnectReasonCode::NormalDisconnection => 0,
            DisconnectReasonCode::DisconnectWithWillMessage => 4,
            DisconnectReasonCode::UnspecifiedError => 128,
            DisconnectReasonCode::MalformedPacket => 129,
            DisconnectReasonCode::ProtocolError => 130,
            DisconnectReasonCode::ImplementationSpecificError => 131,
            DisconnectReasonCode::NotAuthorized => 135,
            DisconnectReasonCode::ServerBusy => 137,
            DisconnectReasonCode::ServerShuttingDown => 139,
            DisconnectReasonCode::KeepAliveTimeout => 141,
            DisconnectReasonCode::SessionTakenOver => 142,
            DisconnectReasonCode::TopicFilterInvalid => 143,
            DisconnectReasonCode::TopicNameInvalid => 144,
            DisconnectReasonCode::ReceiveMaximumExceeded => 147,
            DisconnectReasonCode::TopicAliasInvalid => 148,
            DisconnectReasonCode::PacketTooLarge => 149,
            DisconnectReasonCode::MessageRateTooHigh => 150,
            DisconnectReasonCode::QuotaExceeded => 151,
            DisconnectReasonCode::AdministrativeAction => 152,
            DisconnectReasonCode::PayloadFormatInvalid => 153,
            DisconnectReasonCode::RetainNotSupported => 154,
            DisconnectReasonCode::QoSNotSupported => 155,
            DisconnectReasonCode::UseAnotherServer => 156,
            DisconnectReasonCode::ServerMoved => 157,
            DisconnectReasonCode::SharedSubscriptionsNotSupported => 158,
            DisconnectReasonCode::ConnectionRateExceeded => 159,
            DisconnectReasonCode::MaximumConnectTime => 160,
            DisconnectReasonCode::SubscriptionIdentifiersNotSupported => 161,
            DisconnectReasonCode::WildcardSubscriptionsNotSupported => 162,
        }
    }

    pub fn from_u8(b: u8) -> (r: Option<DisconnectReasonCode>)
        ensures
            r == spec_disconnect_reason_from_u8(b),
    {
        match b {
            0u8 => Some(DisconnectReasonCode::NormalDisconnection),
            4u8 => Some(DisconnectReasonCode::DisconnectWithWillMessage),
            128u8 => Some(DisconnectReasonCode::UnspecifiedError),
            129u8 => Some(DisconnectReasonCode::MalformedPacket),
            130u8 => Some(DisconnectReasonCode::ProtocolError),
            131u8 => Some(DisconnectReasonCode::ImplementationSpecificError),
            135u8 => Some(DisconnectReasonCode::NotAuthorized),
            137u8 => Some(DisconnectReasonCode::ServerBusy),
            139u8 => Some(DisconnectReasonCode::ServerShuttingDown),
            141u8 => Some(DisconnectReasonCode::KeepAliveTimeout),
            142u8 => Some(DisconnectReasonCode::SessionTakenOver),
            143u8 => Some(DisconnectReasonCode::TopicFilterInvalid),
            144u8 => Some(DisconnectReasonCode::TopicNameInvalid),
            147u8 => Some(DisconnectReasonCode::ReceiveMaximumExceeded),
            148u8 => Some(DisconnectReasonCode::TopicAliasInvalid),
            149u8 => Some(DisconnectReasonCode::PacketTooLarge),
            150u8 => Some(DisconnectReasonCode::MessageRateTooHigh),
            151u8 => Some(DisconnectReasonCode::QuotaExceeded),
            152u8 => Some(DisconnectReasonCode::AdministrativeAction),
            153u8 => Some(DisconnectReasonCode::PayloadFormatInvalid),
            154u8 => Some(DisconnectReasonCode::RetainNotSupported),
            155u8 => Some(DisconnectReasonCode::QoSNotSupported),
            156u8 => Some(DisconnectReasonCode::UseAnotherServer),
            157u8 => Some(DisconnectReasonCode::ServerMoved),
            158u8 => Some(DisconnectReasonCode::SharedSubscriptionsNotSupported),
            159u8 => Some(DisconnectReasonCode::ConnectionRateExceeded),
            160u8 => Some(DisconnectReasonCode::MaximumConnectTime),
            161u8 => Some(DisconnectReasonCode::SubscriptionIdentifiersNotSupported),
            162u8 => Some(DisconnectReasonCode::WildcardSubscriptionsNotSupported),
        _ => None,
        }
    }
}

/// Each reason code's one-byte value maps back to the code itself.
pub proof fn lemma_disconnect_reason_round_trip()
    ensures
        forall|c: DisconnectReasonCode| #[trigger] spec_disconnect_reason_from_u8(spec_disconnect_reason_u8(c)) == Some(c),
{
}

/// Reason codes carried by Auth packets.
#[derive(Debug, Clone, Copy, PartialEq, Eq, Structural)]
pub enum AuthReasonCode {
    Success,
    ContinueAuthentication,
    ReAuthenticate,
}

pub open spec fn spec_auth_reason_u8(c: AuthReasonCode) -> u8 {
    match c {
        AuthReasonCode::Success => 0,
        AuthReasonCode::ContinueAuthentication => 24,
        AuthReasonCode::ReAuthenticate => 25,
    }
}

pub open spec fn spec_auth_reason_from_u8(b: u8) -> Option<AuthReasonCode> {
    match b {
        0u8 => Some(AuthReasonCode::Success),
        24u8 => Some(AuthReasonCode::ContinueAuthentication),
        25u8 => Some(AuthReasonCode::ReAuthenticate),
        _ => None,
    }
}

impl AuthReasonCode {
    pub fn to_u8(self) -> (r: u8)
        ensures
            r == spec_auth_reason_u8(self),
    {
        match self {
            AuthReasonCode::Success => 0,
            AuthReasonCode::ContinueAuthentication => 24,
            AuthReasonCode::ReAuthenticate => 25,
        }
    }

    pub fn from_u8(b: u8) -> (r: Option<AuthReasonCode>)
        ensures
            r == spec_auth_reason_from_u8(b),
    {
        match b {
            0u8 => Some(AuthReasonCode::Success),
            24u8 => Some(AuthReasonCode::ContinueAuthentication),
            25u8 => Some(AuthReasonCode::ReAuthenticate),
        _ => None,
        }
    }
}

/// Each reason code's one-byte value maps back to the code itself.
pub proof fn lemma_auth_reason_round_trip()
    ensures
        forall|c: AuthReasonCode| #[trigger] spec_auth_reason_from_u8(spec_auth_reason_u8(c)) == Some(c),
{
}

/// Whether a packet carries a payload section: required, optional, or none.
#[derive(Debug, Clone, Copy, PartialEq, Eq, Structural)]
pub enum PayloadCondition {
    Required,
    Optional,
    Absent,
}

} // verus!
