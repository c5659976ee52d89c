//! Typed control packets, connect/subscription flag bytes, and the ghost
//! views the codec contracts are stated over.
use crate::definitions::{spec_qos_from_u8, spec_qos_u8, Qos};
use vstd::prelude::*;

verus! {

/// A typed property of a packet's property list, keyed on the wire by a
/// one-byte identifier that fixes the payload type.
#[derive(Debug, Clone, PartialEq)]
pub enum Property {
    PayloadFormatIndicator(u8),
    MessageExpiryInterval(u32),
    ContentType(Vec<u8>),
    ResponseTopic(Vec<u8>),
    CorrelationData(Vec<u8>),
    SubscriptionIdentifier(crate::varint::VariableByteInteger),
    SessionExpiryInterval(u32),
    AssignedClientIdentifier(Vec<u8>),
    ServerKeepAlive(u16),
    AuthenticationMethod(Vec<u8>),
    AuthenticationData(Vec<u8>),
    RequestProblemInformation(u8),
    WillDelayInterval(u32),
    RequestResponseInformation(u8),
    ResponseInformation(Vec<u8>),
    ServerReference(Vec<u8>),
    ReasonString(Vec<u8>),
    ReceiveMaximum(u16),
    TopicAliasMaximum(u16),
    TopicAlias(u16),
    MaximumQoS(Qos),
    RetainAvailable(u8),
    UserProperty(Vec<u8>),
    MaximumPacketSize(u32),
    WildcardSubscriptionAvailable(u8),
    SubscriptionIdentifierAvailable(u8),
    SharedSubscriptionAvailable(u8),
}

/// Ghost counterpart of `Property`, with byte payloads as sequences.
pub enum PropertyView {
    PayloadFormatIndicator(u8),
    MessageExpiryInterval(u32),
    ContentType(Seq<u8>),
    ResponseTopic(Seq<u8>),
    CorrelationData(Seq<u8>),
    SubscriptionIdentifier(crate::varint::VariableByteInteger),
    SessionExpiryInterval(u32),
    AssignedClientIdentifier(Seq<u8>),
    ServerKeepAlive(u16),
    AuthenticationMethod(Seq<u8>),
    AuthenticationData(Seq<u8>),
    RequestProblemInformation(u8),
    WillDelayInterval(u32),
    RequestResponseInformation(u8),
    ResponseInformation(Seq<u8>),
    ServerReference(Seq<u8>),
    ReasonString(Seq<u8>),
    ReceiveMaximum(u16),
    TopicAliasMaximum(u16),
    TopicAlias(u16),
    MaximumQoS(Qos),
    RetainAvailable(u8),
    UserProperty(Seq<u8>),
    MaximumPacketSize(u32),
    WildcardSubscriptionAvailable(u8),
    SubscriptionIdentifierAvailable(u8),
    SharedSubscriptionAvailable(u8),
}

impl View for Property {
    type V = PropertyView;

    open spec fn view(&self) -> PropertyView {
        match self {
            Property::PayloadFormatIndicator(v) => PropertyView::PayloadFormatIndicator(*v),
            Property::MessageExpiryInterval(v) => PropertyView::MessageExpiryInterval(*v),
            Property::ContentType(v) => PropertyView::ContentType(v@),
            Property::ResponseTopic(v) => PropertyView::ResponseTopic(v@),
            Property::CorrelationData(v) => PropertyView::CorrelationData(v@),
            Property::SubscriptionIdentifier(v) => PropertyView::SubscriptionIdentifier(*v),
            Property::SessionExpiryInterval(v) => PropertyView::SessionExpiryInterval(*v),
            Property::AssignedClientIdentifier(v) => PropertyView::AssignedClientIdentifier(v@),
            Property::ServerKeepAlive(v) => PropertyView::ServerKeepAlive(*v),
            Property::AuthenticationMethod(v) => PropertyView::AuthenticationMethod(v@),
            Property::AuthenticationData(v) => PropertyView::AuthenticationData(v@),
            Property::RequestProblemInformation(v) => PropertyView::RequestProblemInformation(*v),
            Property::WillDelayInterval(v) => PropertyView::WillDelayInterval(*v),
            Property::RequestResponseInformation(v) => PropertyView::RequestResponseInformation(*v),
            Property::ResponseInformation(v) => PropertyView::ResponseInformation(v@),
            Property::ServerReference(v) => PropertyView::ServerReference(v@),
            Property::ReasonString(v) => PropertyView::ReasonString(v@),
            Property::ReceiveMaximum(v) => PropertyView::ReceiveMaximum(*v),
            Property::TopicAliasMaximum(v) => PropertyView::TopicAliasMaximum(*v),
            Property::TopicAlias(v) => PropertyView::TopicAlias(*v),
            Property::MaximumQoS(v) => PropertyView::MaximumQoS(*v),
            Property::RetainAvailable(v) => PropertyView::RetainAvailable(*v),
            Property::UserProperty(v) => PropertyView::UserProperty(v@),
            Property::MaximumPacketSize(v) => PropertyView::MaximumPacketSize(*v),
            Property::WildcardSubscriptionAvailable(v) => PropertyView::WildcardSubscriptionAvailable(*v),
            Property::SubscriptionIdentifierAvailable(v) => PropertyView::SubscriptionIdentifierAvailable(*v),
            Property::SharedSubscriptionAvailable(v) => PropertyView::SharedSubscriptionAvailable(*v),
        }
    }
}

/// View of a property list, preserving order.
pub open spec fn props_view(v: Seq<Property>) -> Seq<PropertyView> {
    v.map_values(|p: Property| p@)
}

/// View of an optional byte string.
pub open spec fn opt_bytes_view(v: Option<Vec<u8>>) -> Option<Seq<u8>> {
    match v {
        Some(b) => Some(b@),
        None => None,
    }
}

/// The CONNECT packet's connect-flags byte, unpacked.
#[derive(Debug, Clone, Copy, PartialEq, Eq, Structural)]
pub struct ConnectFlags {
    pub clean_start: bool,
    pub will_flag: bool,
    pub will_qos: u8,
    pub will_retain: bool,
    pub password_flag: bool,
    pub user_name_flag: bool,
}

/// Unpacking of a connect-flags byte: bit 1 clean start, bit 2 will flag,
/// bits 3-4 will QoS, bit 5 will retain, bit 6 password, bit 7 user name.
pub open spec fn spec_connect_flags(byte: u8) -> ConnectFlags {
    ConnectFlags {
        clean_start: (byte / 2) % 2 == 1,
        will_flag: (byte / 4) % 2 == 1,
        will_qos: ((byte / 8) % 4) as u8,
        will_retain: (byte / 32) % 2 == 1,
        password_flag: (byte / 64) % 2 == 1,
        user_name_flag: (byte / 128) % 2 == 1,
    }
}

/// Packing of connect flags into a byte, with the reserved bit 0 clear.
pub open spec fn spec_connect_flags_byte(f: ConnectFlags) -> u8 {
    ((if f.clean_start {
        2int
    } else {
        0int
    }) + (if f.will_flag {
        4int
    } else {
        0int
    }) + (f.will_qos % 4) * 8 + (if f.will_retain {
        32int
    } else {
        0int
    }) + (if f.password_flag {
        64int
    } else {
        0int
    }) + (if f.user_name_flag {
        128int
    } else {
        0int
    })) as u8
}

impl ConnectFlags {
    pub fn new(byte: u8) -> (r: ConnectFlags)
        ensures
            r == spec_connect_flags(byte),
    {
        ConnectFlags {
            clean_start: (byte / 2) % 2 == 1,
            will_flag: (byte / 4) % 2 == 1,
            will_qos: (byte / 8) % 4,
            will_retain: (byte / 32) % 2 == 1,
            password_flag: (byte / 64) % 2 == 1,
            user_name_flag: (byte / 128) % 2 == 1,
        }
    }

    /// Packs the flags back into their wire byte.
    pub fn to_byte(&self) -> (r: u8)
        ensures
            r == spec_connect_flags_byte(*self),
    {
        (if self.clean_start {
            2u8
        } else {
            0u8
        }) + (if self.will_flag {
            4u8
        } else {
            0u8
        }) + (self.will_qos % 4) * 8 + (if self.will_retain {
            32u8
        } else {
            0u8
        }) + (if self.password_flag {
            64u8
        } else {
            0u8
        }) + (if self.user_name_flag {
            128u8
        } else {
            0u8
        })
    }
}

/// A will QoS above 2 is a malformed CONNECT.
pub open spec fn wf_connect_flags(f: ConnectFlags) -> bool {
    f.will_qos <= 2
}

/// Unpacking the packed connect-flags byte gives back the flags.
pub proof fn lemma_connect_flags_round_trip(f: ConnectFlags)
    requires
        wf_connect_flags(f),
    ensures
        spec_connect_flags(spec_connect_flags_byte(f)) == f,
{
}

/// The CONNACK packet's acknowledge-flags byte, unpacked.
#[derive(Debug, Clone, Copy, PartialEq, Eq, Structural)]
pub struct ConnAckFlags {
    pub session_present_flag: bool,
}

pub open spec fn spec_conn_ack_flags(byte: u8) -> ConnAckFlags {
    ConnAckFlags { session_present_flag: byte % 2 == 1 }
}

pub open spec fn spec_conn_ack_flags_byte(f: ConnAckFlags) -> u8 {
    if f.session_present_flag {
        1
    } else {
        0
    }
}

impl ConnAckFlags {
    pub fn new(byte: u8) -> (r: ConnAckFlags)
        ensures
            r == spec_conn_ack_flags(byte),
    {
        ConnAckFlags { session_present_flag: byte % 2 == 1 }
    }

    /// Packs the flags back into their wire byte.
    pub fn to_byte(&self) -> (r: u8)
        ensures
            r == spec_conn_ack_flags_byte(*self),
    {
        if self.session_present_flag {
            1
        } else {
            0
        }
    }
}

/// How retained messages are delivered on a new subscription.
#[derive(Debug, Clone, Copy, PartialEq, Eq, Structural)]
pub enum RetainHandlingOption {
    SendRetainedMessageSubTime,
    SendRetainedMessageSubNotExist,
    NotSendRetainedMessage,
}

pub open spec fn spec_retain_handling_u8(r: RetainHandlingOption) -> u8 {
    match r {
        RetainHandlingOption::SendRetainedMessageSubTime => 0,
        RetainHandlingOption::SendRetainedMessageSubNotExist => 1,
        RetainHandlingOption::NotSendRetainedMessage => 2,
    }
}

pub open spec fn spec_retain_handling_from_u8(b: u8) -> Option<RetainHandlingOption> {
    match b {
        0u8 => Some(RetainHandlingOption::SendRetainedMessageSubTime),
        1u8 => Some(RetainHandlingOption::SendRetainedMessageSubNotExist),
        2u8 => Some(RetainHandlingOption::NotSendRetainedMessage),
        _ => None,
    }
}

impl RetainHandlingOption {
    pub fn to_u8(self) -> (r: u8)
        ensures
            r == spec_retain_handling_u8(self),
            r <= 2,
    {
        match self {
            RetainHandlingOption::SendRetainedMessageSubTime => 0,
            RetainHandlingOption::SendRetainedMessageSubNotExist => 1,
            RetainHandlingOption::NotSendRetainedMessage => 2,
        }
    }

    pub fn from_u8(b: u8) -> (r: Option<RetainHandlingOption>)
        ensures
            r == spec_retain_handling_from_u8(b),
    {
        match b {
            0u8 => Some(RetainHandlingOption::SendRetainedMessageSubTime),
            1u8 => Some(RetainHandlingOption::SendRetainedMessageSubNotExist),
            2u8 => Some(RetainHandlingOption::NotSendRetainedMessage),
            _ => None,
        }
    }
}

/// The subscription-options byte of a SUBSCRIBE entry, unpacked: bits 0-1
/// maximum QoS, bit 2 no-local, bit 3 retain-as-published, bits 4-5 retain
/// handling, bits 6-7 reserved.
#[derive(Debug, Clone, Copy, PartialEq, Eq, Structural)]
pub struct SubscriptionOptions {
    pub maximum_qos: Qos,
    pub no_local_option: bool,
    pub retain_as_published: bool,
    pub retain_handling: RetainHandlingOption,
    pub reserved: u8,
}

/// A subscription-options byte is valid when neither two-bit field holds 3.
pub open spec fn spec_subscription_options_valid(byte: u8) -> bool {
    byte % 4 != 3 && (byte / 16) % 4 != 3
}

pub open spec fn spec_subscription_options(byte: u8) -> SubscriptionOptions
    recommends
        spec_subscription_options_valid(byte),
{
    SubscriptionOptions {
        maximum_qos: spec_qos_from_u8((byte % 4) as u8)->0,
        no_local_option: (byte / 4) % 2 == 1,
        retain_as_published: (byte / 8) % 2 == 1,
        retain_handling: spec_retain_handling_from_u8(((byte / 16) % 4) as u8)->0,
        reserved: ((byte / 64) % 4) as u8,
    }
}

pub open spec fn spec_subscription_options_byte(o: SubscriptionOptions) -> u8 {
    (spec_qos_u8(o.maximum_qos) + (if o.no_local_option {
        4int
    } else {
        0int
    }) + (if o.retain_as_published {
        8int
    } else {
        0int
    }) + spec_retain_handling_u8(o.retain_handling) * 16 + (o.reserved % 4) * 64) as u8
}

impl SubscriptionOptions {
    pub fn new(byte: u8) -> (r: SubscriptionOptions)
        requires
            spec_subscription_options_valid(byte),
        ensures
            r == spec_subscription_options(byte),
    {
        let qos = Qos::from_u8(byte % 4);
        let rh = RetainHandlingOption::from_u8((byte / 16) % 4);
        SubscriptionOptions {
            maximum_qos: qos.unwrap(),
            no_local_option: (byte / 4) % 2 == 1,
            retain_as_published: (byte / 8) % 2 == 1,
            retain_handling: rh.unwrap(),
            reserved: (byte / 64) % 4,
        }
    }

    /// Packs the options back into their wire byte.
    pub fn to_byte(&self) -> (r: u8)
        ensures
            r == spec_subscription_options_byte(*self),
    {
        self.maximum_qos.to_u8() + (if self.no_local_option {
            4u8
        } else {
            0u8
        }) + (if self.retain_as_published {
            8u8
        } else {
            0u8
        }) + self.retain_handling.to_u8() * 16 + (self.reserved % 4) * 64
    }
}

/// The reserved bits must be stored reduced for the byte to round-trip.
pub open spec fn wf_subscription_options(o: SubscriptionOptions) -> bool {
    o.reserved <= 3
}

/// Unpacking the packed subscription-options byte gives back the options.
pub proof fn lemma_subscription_options_round_trip(o: SubscriptionOptions)
    requires
        wf_subscription_options(o),
    ensures
        spec_subscription_options_valid(spec_subscription_options_byte(o)),
        spec_subscription_options(spec_subscription_options_byte(o)) == o,
{
}

/// One entry of a SUBSCRIBE payload: a topic filter and its options.
#[derive(Debug, Clone, PartialEq)]
pub struct SubscribePayload {
    pub subscription_options: SubscriptionOptions,
    pub topic_filter: Vec<u8>,
}

pub struct SubscribePayloadView {
    pub subscription_options: SubscriptionOptions,
    pub topic_filter: Seq<u8>,
}

impl View for SubscribePayload {
    type V = SubscribePayloadView;

    open spec fn view(&self) -> SubscribePayloadView {
        SubscribePayloadView {
            subscription_options: self.subscription_options,
            topic_filter: self.topic_filter@,
        }
    }
}

/// The reason codes of a SUBACK, one per filter of the SUBSCRIBE.
#[derive(Debug, Clone, PartialEq)]
pub struct SubAckPayload {
    pub sub_ack_reason_codes: Vec<crate::definitions::SubAckReasonCode>,
}

/// The CONNECT variable header: protocol name and version, connect flags,
/// keep-alive, and properties.
#[derive(Debug, Clone, PartialEq)]
pub struct ConnectVariableHeader {
    pub protocol_name: Vec<u8>,
    pub protocol_version: u8,
    pub connect_flag: ConnectFlags,
    pub keep_alive: u16,
    pub properties: Vec<Property>,
}

pub struct ConnectVariableHeaderView {
    pub protocol_name: Seq<u8>,
    pub protocol_version: u8,
    pub connect_flag: ConnectFlags,
    pub keep_alive: u16,
    pub properties: Seq<PropertyView>,
}

impl View for ConnectVariableHeader {
    type V = ConnectVariableHeaderView;

    open spec fn view(&self) -> ConnectVariableHeaderView {
        ConnectVariableHeaderView {
            protocol_name: self.protocol_name@,
            protocol_version: self.protocol_version,
            connect_flag: self.connect_flag,
            keep_alive: self.keep_alive,
            properties: props_view(self.properties@),
        }
    }
}

/// The CONNECT payload: client identifier, then will, user name and
/// password fields as the connect flags call for them.
#[derive(Debug, Clone, PartialEq)]
pub struct ConnectPayload {
    pub client_identifier: Vec<u8>,
    pub will_properties: Vec<Property>,
    pub will_topic: Option<Vec<u8>>,
    pub will_payload: Option<Vec<u8>>,
    pub user_name: Option<Vec<u8>>,
    pub password: Option<Vec<u8>>,
}

pub struct ConnectPayloadView {
    pub client_identifier: Seq<u8>,
    pub will_properties: Seq<PropertyView>,
    pub will_topic: Option<Seq<u8>>,
    pub will_payload: Option<Seq<u8>>,
    pub user_name: Option<Seq<u8>>,
    pub password: Option<Seq<u8>>,
}

impl View for ConnectPayload {
    type V = ConnectPayloadView;

    open spec fn view(&self) -> ConnectPayloadView {
        ConnectPayloadView {
            client_identifier: self.client_identifier@,
            will_properties: props_view(self.will_properties@),
            will_topic: opt_bytes_view(self.will_topic),
            will_payload: opt_bytes_view(self.will_payload),
            user_name: opt_bytes_view(self.user_name),
            password: opt_bytes_view(self.password),
        }
    }
}

#[derive(Debug, Clone, PartialEq)]
pub struct ConnectControlPacket {
    pub variable_header: ConnectVariableHeader,
    pub payload: ConnectPayload,
}

pub struct ConnectControlPacketView {
    pub variable_header: ConnectVariableHeaderView,
    pub payload: ConnectPayloadView,
}

impl View for ConnectControlPacket {
    type V = ConnectControlPacketView;

    open spec fn view(&self) -> ConnectControlPacketView {
        ConnectControlPacketView { variable_header: self.variable_header@, payload: self.payload@ }
    }
}

#[derive(Debug, Clone, PartialEq)]
pub struct ConnAckControlPacket {
    pub conn_ack_flag: ConnAckFlags,
    pub reason_code: crate::definitions::ConnAckReasonCode,
    pub properties: Vec<Property>,
}

pub struct ConnAckControlPacketView {
    pub conn_ack_flag: ConnAckFlags,
    pub reason_code: crate::definitions::ConnAckReasonCode,
    pub properties: Seq<PropertyView>,
}

impl View for ConnAckControlPacket {
    type V = ConnAckControlPacketView;

    open spec fn view(&self) -> ConnAckControlPacketView {
        ConnAckControlPacketView {
            conn_ack_flag: self.conn_ack_flag,
            reason_code: self.reason_code,
            properties: props_view(self.properties@),
        }
    }
}

#[derive(Debug, Clone, PartialEq)]
pub struct PublishControlPacket {
    pub topic_name: Vec<u8>,
    pub packet_identifier: Option<u16>,
    pub properties: Vec<Property>,
    pub payload: Vec<u8>,
}

pub struct PublishControlPacketView {
    pub topic_name: Seq<u8>,
    pub packet_identifier: Option<u16>,
    pub properties: Seq<PropertyView>,
    pub payload: Seq<u8>,
}

impl View for PublishControlPacket {
    type V = PublishControlPacketView;

    open spec fn view(&self) -> PublishControlPacketView {
        PublishControlPacketView {
            topic_name: self.topic_name@,
            packet_identifier: self.packet_identifier,
            properties: props_view(self.properties@),
            payload: self.payload@,
        }
    }
}

#[derive(Debug, Clone, PartialEq)]
pub struct PubAckControlPacket {
    pub packet_identifier: u16,
    pub reason_code: crate::definitions::PubAckReasonCode,
    pub properties: Vec<Property>,
}

pub struct PubAckControlPacketView {
    pub packet_identifier: u16,
    pub reason_code: crate::definitions::PubAckReasonCode,
    pub properties: Seq<PropertyView>,
}

impl View for PubAckControlPacket {
    type V = PubAckControlPacketView;

    open spec fn view(&self) -> PubAckControlPacketView {
        PubAckControlPacketView {
            packet_identifier: self.packet_identifier,
            reason_code: self.reason_code,
            properties: props_view(self.properties@),
        }
    }
}

#[derive(Debug, Clone, PartialEq)]
pub struct PubRecControlPacket {
    pub packet_identifier: u16,
    pub reason_code: crate::definitions::PubRecReasonCode,
    pub properties: Vec<Property>,
}

pub struct PubRecControlPacketView {
    pub packet_identifier: u16,
    pub reason_code: crate::definitions::PubRecReasonCode,
    pub properties: Seq<PropertyView>,
}

impl View for PubRecControlPacket {
    type V = PubRecControlPacketView;

    open spec fn view(&self) -> PubRecControlPacketView {
        PubRecControlPacketView {
            packet_identifier: self.packet_identifier,
            reason_code: self.reason_code,
            properties: props_view(self.properties@),
        }
    }
}

#[derive(Debug, Clone, PartialEq)]
pub struct PubRelControlPacket {
    pub packet_identifier: u16,
    pub reason_code: crate::definitions::PubRelReasonCode,
    pub properties: Vec<Property>,
}

pub struct PubRelControlPacketView {
    pub packet_identifier: u16,
    pub reason_code: crate::definitions::PubRelReasonCode,
    pub properties: Seq<PropertyView>,
}

impl View for PubRelControlPacket {
    type V = PubRelControlPacketView;

    open spec fn view(&self) -> PubRelControlPacketView {
        PubRelControlPacketView {
            packet_identifier: self.packet_identifier,
            reason_code: self.reason_code,
            properties: props_view(self.properties@),
        }
    }
}

#[derive(Debug, Clone, PartialEq)]
pub struct PubCompControlPacket {
    pub packet_identifier: u16,
    pub reason_code: crate::definitions::PubCompReasonCode,
    pub properties: Vec<Property>,
}

pub struct PubCompControlPacketView {
    pub packet_identifier: u16,
    pub reason_code: crate::definitions::PubCompReasonCode,
    pub properties: Seq<PropertyView>,
}

impl View for PubCompControlPacket {
    type V = PubCompControlPacketView;

    open spec fn view(&self) -> PubCompControlPacketView {
        PubCompControlPacketView {
            packet_identifier: self.packet_identifier,
            reason_code: self.reason_code,
            properties: props_view(self.properties@),
        }
    }
}

#[derive(Debug, Clone, PartialEq)]
pub struct SubscribeControlPacket {
    pub packet_identifier: u16,
    pub properties: Vec<Property>,
    pub subscribe_payload: Vec<SubscribePayload>,
}

pub struct SubscribeControlPacketView {
    pub packet_identifier: u16,
    pub properties: Seq<PropertyView>,
    pub subscribe_payload: Seq<SubscribePayloadView>,
}

impl View for SubscribeControlPacket {
    type V = SubscribeControlPacketView;

    open spec fn view(&self) -> SubscribeControlPacketView {
        SubscribeControlPacketView {
            packet_identifier: self.packet_identifier,
            properties: props_view(self.properties@),
            subscribe_payload: self.subscribe_payload@.map_values(|p: SubscribePayload| p@),
        }
    }
}

#[derive(Debug, Clone, PartialEq)]
pub struct SubAckControlPacket {
    pub packet_identifier: u16,
    pub properties: Vec<Property>,
    pub sub_ack_payload: SubAckPayload,
}

pub struct SubAckControlPacketView {
    pub packet_identifier: u16,
    pub properties: Seq<PropertyView>,
    pub sub_ack_reason_codes: Seq<crate::definitions::SubAckReasonCode>,
}

impl View for SubAckControlPacket {
    type V = SubAckControlPacketView;

    open spec fn view(&self) -> SubAckControlPacketView {
        SubAckControlPacketView {
            packet_identifier: self.packet_identifier,
            properties: props_view(self.properties@),
            sub_ack_reason_codes: self.sub_ack_payload.sub_ack_reason_codes@,
        }
    }
}

#[derive(Debug, Clone, PartialEq)]
pub struct UnsubscribeControlPacket {
    pub packet_identifier: u16,
    pub properties: Vec<Property>,
    pub topic_filters: Vec<Vec<u8>>,
}

pub struct UnsubscribeControlPacketView {
    pub packet_identifier: u16,
    pub properties: Seq<PropertyView>,
    pub topic_filters: Seq<Seq<u8>>,
}

impl View for UnsubscribeControlPacket {
    type V = UnsubscribeControlPacketView;

    open spec fn view(&self) -> UnsubscribeControlPacketView {
        UnsubscribeControlPacketView {
            packet_identifier: self.packet_identifier,
            properties: props_view(self.properties@),
            topic_filters: self.topic_filters@.map_values(|f: Vec<u8>| f@),
        }
    }
}

#[derive(Debug, Clone, PartialEq)]
pub struct UnsubAckControlPacket {
    pub packet_identifier: u16,
    pub properties: Vec<Property>,
    pub reason_codes: Vec<crate::definitions::UnSubAckReasonCode>,
}

pub struct UnsubAckControlPacketView {
    pub packet_identifier: u16,
    pub properties: Seq<PropertyView>,
    pub reason_codes: Seq<crate::definitions::UnSubAckReasonCode>,
}

impl View for UnsubAckControlPacket {
    type V = UnsubAckControlPacketView;

    open spec fn view(&self) -> UnsubAckControlPacketView {
        UnsubAckControlPacketView {
            packet_identifier: self.packet_identifier,
            properties: props_view(self.properties@),
            reason_codes: self.reason_codes@,
        }
    }
}

#[derive(Debug, Clone, PartialEq)]
pub struct DisconnectControlPacket {
    pub reason_code: crate::definitions::DisconnectReasonCode,
    pub properties: Vec<Property>,
}

pub struct DisconnectControlPacketView {
    pub reason_code: crate::definitions::DisconnectReasonCode,
    pub properties: Seq<PropertyView>,
}

impl View for DisconnectControlPacket {
    type V = DisconnectControlPacketView;

    open spec fn view(&self) -> DisconnectControlPacketView {
        DisconnectControlPacketView {
            reason_code: self.reason_code,
            properties: props_view(self.properties@),
        }
    }
}

#[derive(Debug, Clone, PartialEq)]
pub struct AuthControlPacket {
    pub reason_code: crate::definitions::AuthReasonCode,
    pub properties: Vec<Property>,
}

pub struct AuthControlPacketView {
    pub reason_code: crate::definitions::AuthReasonCode,
    pub properties: Seq<PropertyView>,
}

impl View for AuthControlPacket {
    type V = AuthControlPacketView;

    open spec fn view(&self) -> AuthControlPacketView {
        AuthControlPacketView {
            reason_code: self.reason_code,
            properties: props_view(self.properties@),
        }
    }
}

impl PubAckControlPacket {
    /// A packet with identifier zero, success, and no properties.
    pub fn new() -> (r: PubAckControlPacket)
        ensures
            r.packet_identifier == 0,
            r.reason_code == crate::definitions::PubAckReasonCode::Success,
            r.properties@.len() == 0,
    {
        PubAckControlPacket {
            packet_identifier: 0,
            reason_code: crate::definitions::PubAckReasonCode::Success,
            properties: Vec::new(),
        }
    }

    /// A packet from its parts.
    pub fn from(
        packet_identifier: u16,
        reason_code: crate::definitions::PubAckReasonCode,
        properties: Vec<Property>,
    ) -> (r: PubAckControlPacket)
        ensures
            r.packet_identifier == packet_identifier,
            r.reason_code == reason_code,
            r.properties == properties,
    {
        PubAckControlPacket { packet_identifier, reason_code, properties }
    }
}

impl PubRecControlPacket {
    /// A packet with identifier zero, success, and no properties.
    pub fn new() -> (r: PubRecControlPacket)
        ensures
            r.packet_identifier == 0,
            r.reason_code == crate::definitions::PubRecReasonCode::Success,
            r.properties@.len() == 0,
    {
        PubRecControlPacket {
            packet_identifier: 0,
            reason_code: crate::definitions::PubRecReasonCode::Success,
            properties: Vec::new(),
        }
    }

    /// A packet from its parts.
    pub fn from(
        packet_identifier: u16,
        reason_code: crate::definitions::PubRecReasonCode,
        properties: Vec<Property>,
    ) -> (r: PubRecControlPacket)
        ensures
            r.packet_identifier == packet_identifier,
            r.reason_code == reason_code,
            r.properties == properties,
    {
        PubRecControlPacket { packet_identifier, reason_code, properties }
    }
}

impl PubRelControlPacket {
    /// A packet with identifier zero, success, and no properties.
    pub fn new() -> (r: PubRelControlPacket)
        ensures
            r.packet_identifier == 0,
            r.reason_code == crate::definitions::PubRelReasonCode::Success,
            r.properties@.len() == 0,
    {
        PubRelControlPacket {
            packet_identifier: 0,
            reason_code: crate::definitions::PubRelReasonCode::Success,
            properties: Vec::new(),
        }
    }

    /// A packet from its parts.
    pub fn from(
        packet_identifier: u16,
        reason_code: crate::definitions::PubRelReasonCode,
        properties: Vec<Property>,
    ) -> (r: PubRelControlPacket)
        ensures
            r.packet_identifier == packet_identifier,
            r.reason_code == reason_code,
            r.properties == properties,
    {
        PubRelControlPacket { packet_identifier, reason_code, properties }
    }
}

impl PubCompControlPacket {
    /// A packet with identifier zero, success, and no properties.
    pub fn new() -> (r: PubCompControlPacket)
        ensures
            r.packet_identifier == 0,
            r.reason_code == crate::definitions::PubCompReasonCode::Success,
            r.properties@.len() == 0,
    {
        PubCompControlPacket {
            packet_identifier: 0,
            reason_code: crate::definitions::PubCompReasonCode::Success,
            properties: Vec::new(),
        }
    }

    /// A packet from its parts.
    pub fn from(
        packet_identifier: u16,
        reason_code: crate::definitions::PubCompReasonCode,
        properties: Vec<Property>,
    ) -> (r: PubCompControlPacket)
        ensures
            r.packet_identifier == packet_identifier,
            r.reason_code == reason_code,
            r.properties == properties,
    {
        PubCompControlPacket { packet_identifier, reason_code, properties }
    }
}

impl PublishControlPacket {
    /// A packet with an empty topic, no identifier, no properties and an
    /// empty payload.
    pub fn new() -> (r: PublishControlPacket)
        ensures
            r.topic_name@.len() == 0,
            r.packet_identifier is None,
            r.properties@.len() == 0,
            r.payload@.len() == 0,
    {
        PublishControlPacket {
            topic_name: Vec::new(),
            packet_identifier: None,
            properties: Vec::new(),
            payload: Vec::new(),
        }
    }

    /// A packet from its parts.
    pub fn from(
        topic_name: Vec<u8>,
        packet_identifier: Option<u16>,
        properties: Vec<Property>,
        payload: Vec<u8>,
    ) -> (r: PublishControlPacket)
        ensures
            r.topic_name == topic_name,
            r.packet_identifier == packet_identifier,
            r.properties == properties,
            r.payload == payload,
    {
        PublishControlPacket { topic_name, packet_identifier, properties, payload }
    }
}

impl SubscribeControlPacket {
    /// A packet with identifier zero and no entries.
    pub fn new() -> (r: SubscribeControlPacket)
        ensures
            r.packet_identifier == 0,
            r.properties@.len() == 0,
            r.subscribe_payload@.len() == 0,
    {
        SubscribeControlPacket {
            packet_identifier: 0,
            properties: Vec::new(),
            subscribe_payload: Vec::new(),
        }
    }

    /// A packet from its parts.
    pub fn from(
        packet_identifier: u16,
        subscribe_payload: Vec<SubscribePayload>,
        properties: Vec<Property>,
    ) -> (r: SubscribeControlPacket)
        ensures
            r.packet_identifier == packet_identifier,
            r.subscribe_payload == subscribe_payload,
            r.properties == properties,
    {
        SubscribeControlPacket { packet_identifier, properties, subscribe_payload }
    }
}

impl SubAckControlPacket {
    /// A packet with identifier zero and no reason codes.
    pub fn new() -> (r: SubAckControlPacket)
        ensures
            r.packet_identifier == 0,
            r.properties@.len() == 0,
            r.sub_ack_payload.sub_ack_reason_codes@.len() == 0,
    {
        SubAckControlPacket {
            packet_identifier: 0,
            properties: Vec::new(),
            sub_ack_payload: SubAckPayload { sub_ack_reason_codes: Vec::new() },
        }
    }

    /// A packet from its parts.
    pub fn from(
        packet_identifier: u16,
        sub_ack_payload: SubAckPayload,
        properties: Vec<Property>,
    ) -> (r: SubAckControlPacket)
        ensures
            r.packet_identifier == packet_identifier,
            r.sub_ack_payload == sub_ack_payload,
            r.properties == properties,
    {
        SubAckControlPacket { packet_identifier, properties, sub_ack_payload }
    }
}

} // verus!
