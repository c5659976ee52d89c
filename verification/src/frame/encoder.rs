//! Byte-exact encoders for primitives, properties and packet bodies, each
//! verified against the spec-level encoding its contract names.
use crate::definitions::{
    spec_auth_reason_u8, spec_conn_ack_reason_u8, spec_disconnect_reason_u8, spec_packet_type_u8,
    spec_pub_ack_reason_u8, spec_pub_comp_reason_u8, spec_pub_rec_reason_u8, spec_pub_rel_reason_u8,
    spec_qos_u8, spec_sub_ack_reason_u8, spec_un_sub_ack_reason_u8, ControlPacketType, FixHeader,
    Flags, SubAckReasonCode, UnSubAckReasonCode,
};
use crate::frame::{ControlPacket, ControlPacketView, FrameView};
use crate::frame::Error;
use crate::packet::{
    opt_bytes_view, props_view, spec_conn_ack_flags_byte, spec_connect_flags_byte,
    spec_subscription_options_byte, wf_connect_flags, wf_subscription_options, AuthControlPacket,
    AuthControlPacketView, ConnAckControlPacket, ConnAckControlPacketView, ConnectControlPacket,
    ConnectControlPacketView, DisconnectControlPacket, DisconnectControlPacketView,
    Property, PropertyView, PubAckControlPacket, PubAckControlPacketView, PubCompControlPacket,
    PubCompControlPacketView, PubRecControlPacket, PubRecControlPacketView, PubRelControlPacket,
    PubRelControlPacketView, PublishControlPacket, PublishControlPacketView, SubAckControlPacket,
    SubAckControlPacketView, SubscribeControlPacket, SubscribeControlPacketView,
    SubscribePayloadView, UnsubAckControlPacket, UnsubAckControlPacketView,
    UnsubscribeControlPacket, UnsubscribeControlPacketView,
};
use crate::text::{is_utf8, is_valid_utf8_range};
use crate::varint::{spec_varint, VariableByteInteger, VARINT_MAX};
use vstd::prelude::*;

verus! {

/// Big-endian two-byte encoding.
pub open spec fn spec_be16(v: u16) -> Seq<u8> {
    seq![(v / 256) as u8, (v % 256) as u8]
}

/// Big-endian four-byte encoding.
pub open spec fn spec_be32(v: u32) -> Seq<u8> {
    seq![
        (v / 0x1000000) as u8,
        ((v / 0x10000) % 256) as u8,
        ((v / 256) % 256) as u8,
        (v % 256) as u8,
    ]
}

/// Length-prefixed bytes: a two-byte big-endian length, then the bytes.
pub open spec fn spec_encode_binary(data: Seq<u8>) -> Seq<u8>
    recommends
        data.len() <= 0xFFFF,
{
    spec_be16(data.len() as u16) + data
}

/// Binary data fits its two-byte length prefix.
pub open spec fn wf_binary(data: Seq<u8>) -> bool {
    data.len() <= 0xFFFF
}

/// An MQTT string additionally must be well-formed UTF-8.
pub open spec fn wf_string(data: Seq<u8>) -> bool {
    data.len() <= 0xFFFF && is_utf8(data)
}

pub fn write_be16(v: u16, bytes: &mut Vec<u8>)
    ensures
        final(bytes)@ == old(bytes)@ + spec_be16(v),
{
    bytes.push((v / 256) as u8);
    bytes.push((v % 256) as u8);
    proof {
        assert(bytes@ =~= old(bytes)@ + spec_be16(v));
    }
}

pub fn write_be32(v: u32, bytes: &mut Vec<u8>)
    ensures
        final(bytes)@ == old(bytes)@ + spec_be32(v),
{
    bytes.push((v / 0x1000000) as u8);
    bytes.push(((v / 0x10000) % 256) as u8);
    bytes.push(((v / 256) % 256) as u8);
    bytes.push((v % 256) as u8);
    proof {
        assert(bytes@ =~= old(bytes)@ + spec_be32(v));
    }
}

/// Appends a length-prefixed UTF-8 string, rejecting over-long or invalid
/// byte strings without touching the buffer.
pub fn encode_string(src: &Vec<u8>, bytes: &mut Vec<u8>) -> (r: Result<(), Error>)
    ensures
        (match r {
            Ok(()) => wf_string(src@) && final(bytes)@ == old(bytes)@ + spec_encode_binary(src@),
            Err(e) => e == Error::MalformedPacket && !wf_string(src@) && final(bytes)@ == old(bytes)@,
        }),
{
    if src.len() > 0xFFFF {
        return Err(Error::MalformedPacket);
    }
    if !is_valid_utf8_range(src, 0, src.len()) {
        proof {
            assert(src@.subrange(0, src@.len() as int) =~= src@);
        }
        return Err(Error::MalformedPacket);
    }
    proof {
        assert(src@.subrange(0, src@.len() as int) =~= src@);
    }
    write_be16(src.len() as u16, bytes);
    bytes.extend_from_slice(src.as_slice());
    proof {
        assert(bytes@ =~= old(bytes)@ + spec_encode_binary(src@));
    }
    Ok(())
}

/// Appends length-prefixed binary data, rejecting over-long data without
/// touching the buffer.
pub fn encode_binary_data(src: &Vec<u8>, bytes: &mut Vec<u8>) -> (r: Result<(), Error>)
    ensures
        (match r {
            Ok(()) => wf_binary(src@) && final(bytes)@ == old(bytes)@ + spec_encode_binary(src@),
            Err(e) => e == Error::MalformedPacket && !wf_binary(src@) && final(bytes)@ == old(bytes)@,
        }),
{
    if src.len() > 0xFFFF {
        return Err(Error::MalformedPacket);
    }
    write_be16(src.len() as u16, bytes);
    bytes.extend_from_slice(src.as_slice());
    proof {
        assert(bytes@ =~= old(bytes)@ + spec_encode_binary(src@));
    }
    Ok(())
}

/// The wire form of one property: its identifier byte, then the payload in
/// the type that identifier fixes.
pub open spec fn spec_encode_property(p: PropertyView) -> Seq<u8> {
    match p {
        PropertyView::PayloadFormatIndicator(v) => seq![1u8, v],
        PropertyView::MessageExpiryInterval(v) => seq![2u8] + spec_be32(v),
        PropertyView::ContentType(v) => seq![3u8] + spec_encode_binary(v),
        PropertyView::ResponseTopic(v) => seq![8u8] + spec_encode_binary(v),
        PropertyView::CorrelationData(v) => seq![9u8] + spec_encode_binary(v),
        PropertyView::SubscriptionIdentifier(v) => seq![11u8] + spec_varint(v.data as nat),
        PropertyView::SessionExpiryInterval(v) => seq![17u8] + spec_be32(v),
        PropertyView::AssignedClientIdentifier(v) => seq![18u8] + spec_encode_binary(v),
        PropertyView::ServerKeepAlive(v) => seq![19u8] + spec_be16(v),
        PropertyView::AuthenticationMethod(v) => seq![21u8] + spec_encode_binary(v),
        PropertyView::AuthenticationData(v) => seq![22u8] + spec_encode_binary(v),
        PropertyView::RequestProblemInformation(v) => seq![23u8, v],
        PropertyView::WillDelayInterval(v) => seq![24u8] + spec_be32(v),
        PropertyView::RequestResponseInformation(v) => seq![25u8, v],
        PropertyView::ResponseInformation(v) => seq![26u8] + spec_encode_binary(v),
        PropertyView::ServerReference(v) => seq![28u8] + spec_encode_binary(v),
        PropertyView::ReasonString(v) => seq![31u8] + spec_encode_binary(v),
        PropertyView::ReceiveMaximum(v) => seq![33u8] + spec_be16(v),
        PropertyView::TopicAliasMaximum(v) => seq![34u8] + spec_be16(v),
        PropertyView::TopicAlias(v) => seq![35u8] + spec_be16(v),
        PropertyView::MaximumQoS(v) => seq![36u8, spec_qos_u8(v)],
        PropertyView::RetainAvailable(v) => seq![37u8, v],
        PropertyView::UserProperty(v) => seq![38u8] + spec_encode_binary(v),
        PropertyView::MaximumPacketSize(v) => seq![39u8] + spec_be32(v),
        PropertyView::WildcardSubscriptionAvailable(v) => seq![40u8, v],
        PropertyView::SubscriptionIdentifierAvailable(v) => seq![41u8, v],
        PropertyView::SharedSubscriptionAvailable(v) => seq![42u8, v],
    }
}

/// String payloads must be UTF-8 and fit their length prefix; a varint
/// payload must be in range.
pub open spec fn wf_property(p: PropertyView) -> bool {
    match p {
        PropertyView::ContentType(v) => wf_string(v),
        PropertyView::ResponseTopic(v) => wf_string(v),
        PropertyView::CorrelationData(v) => wf_binary(v),
        PropertyView::SubscriptionIdentifier(v) => v.data <= VARINT_MAX,
        PropertyView::AssignedClientIdentifier(v) => wf_string(v),
        PropertyView::AuthenticationMethod(v) => wf_string(v),
        PropertyView::AuthenticationData(v) => wf_binary(v),
        PropertyView::ResponseInformation(v) => wf_string(v),
        PropertyView::ServerReference(v) => wf_string(v),
        PropertyView::ReasonString(v) => wf_string(v),
        PropertyView::UserProperty(v) => wf_string(v),
        _ => true,
    }
}

/// Concatenated wire forms of a property list, in order.
pub open spec fn spec_encode_property_list(ps: Seq<PropertyView>) -> Seq<u8>
    decreases ps.len(),
{
    if ps.len() == 0 {
        Seq::empty()
    } else {
        spec_encode_property(ps[0]) + spec_encode_property_list(ps.skip(1))
    }
}

/// Every property is well-formed and the block fits its varint length.
pub open spec fn wf_properties(ps: Seq<PropertyView>) -> bool {
    (forall|i: int| 0 <= i < ps.len() ==> wf_property(#[trigger] ps[i]))
        && spec_encode_property_list(ps).len() <= VARINT_MAX
}

/// A property block: varint byte length, then the properties in order.
pub open spec fn spec_encode_properties(ps: Seq<PropertyView>) -> Seq<u8> {
    spec_varint(spec_encode_property_list(ps).len() as nat) + spec_encode_property_list(ps)
}

/// Appending one property to a list appends its encoding.
pub proof fn lemma_property_list_snoc(ps: Seq<PropertyView>, p: PropertyView)
    ensures
        spec_encode_property_list(ps + seq![p]) == spec_encode_property_list(ps)
            + spec_encode_property(p),
    decreases ps.len(),
{
    if ps.len() == 0 {
        assert((ps + seq![p]).skip(1) =~= Seq::<PropertyView>::empty());
        assert(ps + seq![p] =~= seq![p]);
        assert(spec_encode_property_list(seq![p].skip(1)) == Seq::<u8>::empty());
        assert(spec_encode_property_list(ps + seq![p]) =~= spec_encode_property_list(ps)
            + spec_encode_property(p));
    } else {
        assert((ps + seq![p]).skip(1) =~= ps.skip(1) + seq![p]);
        lemma_property_list_snoc(ps.skip(1), p);
        assert(spec_encode_property_list(ps + seq![p]) == spec_encode_property((ps + seq![p])[0])
            + spec_encode_property_list(ps.skip(1) + seq![p]));
        assert((ps + seq![p])[0] == ps[0]);
        assert(spec_encode_property(ps[0]) + (spec_encode_property_list(ps.skip(1))
            + spec_encode_property(p)) =~= (spec_encode_property(ps[0])
            + spec_encode_property_list(ps.skip(1))) + spec_encode_property(p));
    }
}

/// Appends one property's wire form, rejecting an ill-formed one without
/// touching the buffer.
pub fn encode_property(src: &Property, bytes: &mut Vec<u8>) -> (r: Result<(), Error>)
    ensures
        (match r {
            Ok(()) => wf_property(src@) && final(bytes)@ == old(bytes)@ + spec_encode_property(src@),
            Err(e) => e == Error::MalformedPacket && !wf_property(src@) && final(bytes)@ == old(bytes)@,
        }),
{
    match src {
        Property::PayloadFormatIndicator(v) => {
            bytes.push(1);
            bytes.push(*v);
            proof {
                assert(bytes@ =~= old(bytes)@ + spec_encode_property(src@));
            }
            Ok(())
        },
        Property::MessageExpiryInterval(v) => {
            bytes.push(2);
            write_be32(*v, bytes);
            proof {
                assert(bytes@ =~= old(bytes)@ + spec_encode_property(src@));
            }
            Ok(())
        },
        Property::ContentType(v) => encode_string_property(3, v, bytes, Ghost(src@)),
        Property::ResponseTopic(v) => encode_string_property(8, v, bytes, Ghost(src@)),
        Property::CorrelationData(v) => encode_binary_property(9, v, bytes, Ghost(src@)),
        Property::SubscriptionIdentifier(v) => {
            if v.data > VARINT_MAX {
                return Err(Error::MalformedPacket);
            }
            bytes.push(11);
            let mut enc = VariableByteInteger::encode_u32(v.data);
            bytes.append(&mut enc);
            proof {
                assert(bytes@ =~= old(bytes)@ + spec_encode_property(src@));
            }
            Ok(())
        },
        Property::SessionExpiryInterval(v) => {
            bytes.push(17);
            write_be32(*v, bytes);
            proof {
                assert(bytes@ =~= old(bytes)@ + spec_encode_property(src@));
            }
            Ok(())
        },
        Property::AssignedClientIdentifier(v) => encode_string_property(18, v, bytes, Ghost(src@)),
        Property::ServerKeepAlive(v) => {
            bytes.push(19);
            write_be16(*v, bytes);
            proof {
                assert(bytes@ =~= old(bytes)@ + spec_encode_property(src@));
            }
            Ok(())
        },
        Property::AuthenticationMethod(v) => encode_string_property(21, v, bytes, Ghost(src@)),
        Property::AuthenticationData(v) => encode_binary_property(22, v, bytes, Ghost(src@)),
        Property::RequestProblemInformation(v) => {
            bytes.push(23);
            bytes.push(*v);
            proof {
                assert(bytes@ =~= old(bytes)@ + spec_encode_property(src@));
            }
            Ok(())
        },
        Property::WillDelayInterval(v) => {
            bytes.push(24);
            write_be32(*v, bytes);
            proof {
                assert(bytes@ =~= old(bytes)@ + spec_encode_property(src@));
            }
            Ok(())
        },
        Property::RequestResponseInformation(v) => {
            bytes.push(25);
            bytes.push(*v);
            proof {
                assert(bytes@ =~= old(bytes)@ + spec_encode_property(src@));
            }
            Ok(())
        },
        Property::ResponseInformation(v) => encode_string_property(26, v, bytes, Ghost(src@)),
        Property::ServerReference(v) => encode_string_property(28, v, bytes, Ghost(src@)),
        Property::ReasonString(v) => encode_string_property(31, v, bytes, Ghost(src@)),
        Property::ReceiveMaximum(v) => {
            bytes.push(33);
            write_be16(*v, bytes);
            proof {
                assert(bytes@ =~= old(bytes)@ + spec_encode_property(src@));
            }
            Ok(())
        },
        Property::TopicAliasMaximum(v) => {
            bytes.push(34);
            write_be16(*v, bytes);
            proof {
                assert(bytes@ =~= old(bytes)@ + spec_encode_property(src@));
            }
            Ok(())
        },
        Property::TopicAlias(v) => {
            bytes.push(35);
            write_be16(*v, bytes);
            proof {
                assert(bytes@ =~= old(bytes)@ + spec_encode_property(src@));
            }
            Ok(())
        },
        Property::MaximumQoS(v) => {
            bytes.push(36);
            bytes.push(v.to_u8());
            proof {
                assert(bytes@ =~= old(bytes)@ + spec_encode_property(src@));
            }
            Ok(())
        },
        Property::RetainAvailable(v) => {
            bytes.push(37);
            bytes.push(*v);
            proof {
                assert(bytes@ =~= old(bytes)@ + spec_encode_property(src@));
            }
            Ok(())
        },
        Property::UserProperty(v) => encode_string_property(38, v, bytes, Ghost(src@)),
        Property::MaximumPacketSize(v) => {
            bytes.push(39);
            write_be32(*v, bytes);
            proof {
                assert(bytes@ =~= old(bytes)@ + spec_encode_property(src@));
            }
            Ok(())
        },
        Property::WildcardSubscriptionAvailable(v) => {
            bytes.push(40);
            bytes.push(*v);
            proof {
                assert(bytes@ =~= old(bytes)@ + spec_encode_property(src@));
            }
            Ok(())
        },
        Property::SubscriptionIdentifierAvailable(v) => {
            bytes.push(41);
            bytes.push(*v);
            proof {
                assert(bytes@ =~= old(bytes)@ + spec_encode_property(src@));
            }
            Ok(())
        },
        Property::SharedSubscriptionAvailable(v) => {
            bytes.push(42);
            bytes.push(*v);
            proof {
                assert(bytes@ =~= old(bytes)@ + spec_encode_property(src@));
            }
            Ok(())
        },
    }
}

/// Shared tail for the string-typed property arms.
fn encode_string_property(
    id: u8,
    v: &Vec<u8>,
    bytes: &mut Vec<u8>,
    Ghost(p): Ghost<PropertyView>,
) -> (r: Result<(), Error>)
    requires
        spec_encode_property(p) == seq![id] + spec_encode_binary(v@),
        wf_property(p) == wf_string(v@),
    ensures
        (match r {
            Ok(()) => wf_property(p) && final(bytes)@ == old(bytes)@ + spec_encode_property(p),
            Err(e) => e == Error::MalformedPacket && !wf_property(p) && final(bytes)@ == old(bytes)@,
        }),
{
    if v.len() > 0xFFFF {
        return Err(Error::MalformedPacket);
    }
    if !is_valid_utf8_range(v, 0, v.len()) {
        proof {
            assert(v@.subrange(0, v@.len() as int) =~= v@);
        }
        return Err(Error::MalformedPacket);
    }
    proof {
        assert(v@.subrange(0, v@.len() as int) =~= v@);
    }
    bytes.push(id);
    write_be16(v.len() as u16, bytes);
    bytes.extend_from_slice(v.as_slice());
    proof {
        assert(bytes@ =~= old(bytes)@ + spec_encode_property(p));
    }
    Ok(())
}

/// Shared tail for the binary-typed property arms.
fn encode_binary_property(
    id: u8,
    v: &Vec<u8>,
    bytes: &mut Vec<u8>,
    Ghost(p): Ghost<PropertyView>,
) -> (r: Result<(), Error>)
    requires
        spec_encode_property(p) == seq![id] + spec_encode_binary(v@),
        wf_property(p) == wf_binary(v@),
    ensures
        (match r {
            Ok(()) => wf_property(p) && final(bytes)@ == old(bytes)@ + spec_encode_property(p),
            Err(e) => e == Error::MalformedPacket && !wf_property(p) && final(bytes)@ == old(bytes)@,
        }),
{
    if v.len() > 0xFFFF {
        return Err(Error::MalformedPacket);
    }
    bytes.push(id);
    write_be16(v.len() as u16, bytes);
    bytes.extend_from_slice(v.as_slice());
    proof {
        assert(bytes@ =~= old(bytes)@ + spec_encode_property(p));
    }
    Ok(())
}

/// Encodes a property list as a varint-length-prefixed block.
pub fn encode_properties(src: &Vec<Property>, bytes: &mut Vec<u8>) -> (r: Result<(), Error>)
    ensures
        (match r {
            Ok(()) => wf_properties(props_view(src@)) && final(bytes)@ == old(bytes)@
                + spec_encode_properties(props_view(src@)),
            Err(e) => e == Error::MalformedPacket && !wf_properties(props_view(src@))
                && final(bytes)@ == old(bytes)@,
        }),
{
    let ghost ps = props_view(src@);
    let mut data: Vec<u8> = Vec::new();
    let mut i: usize = 0;
    proof {
        assert(ps.take(0) =~= Seq::<PropertyView>::empty());
    }
    while i < src.len()
        invariant
            i <= src@.len(),
            ps == props_view(src@),
            ps.len() == src@.len(),
            forall|j: int| 0 <= j < src@.len() ==> ps[j] == #[trigger] src@[j]@,
            data@ == spec_encode_property_list(ps.take(i as int)),
            forall|j: int| 0 <= j < i ==> wf_property(#[trigger] ps[j]),
        decreases src@.len() - i,
    {
        match encode_property(&src[i], &mut data) {
            Ok(()) => {
                proof {
                    lemma_property_list_snoc(ps.take(i as int), ps[i as int]);
                    assert(ps.take(i + 1) =~= ps.take(i as int) + seq![ps[i as int]]);
                }
            },
            Err(e) => {
                proof {
                    assert(!wf_property(ps[i as int]));
                }
                return Err(e);
            },
        }
        i = i + 1;
    }
    proof {
        assert(ps.take(src@.len() as int) =~= ps);
    }
    if data.len() > VARINT_MAX as usize {
        return Err(Error::MalformedPacket);
    }
    let mut len_bytes = VariableByteInteger::encode_u32(data.len() as u32);
    bytes.append(&mut len_bytes);
    bytes.append(&mut data);
    proof {
        assert(bytes@ =~= old(bytes)@ + spec_encode_properties(ps));
    }
    Ok(())
}

/// The fixed-header byte: packet type in the high nibble, the four flag
/// bits in the low nibble.
pub open spec fn spec_header_byte(h: FixHeader) -> u8 {
    (spec_packet_type_u8(h.control_packet_type) * 16 + h.flags.0 + h.flags.1 * 2 + h.flags.2 * 4
        + h.flags.3 * 8) as u8
}

/// The type-specific flag pattern every packet must carry: PUBLISH uses
/// retain, a QoS of at most 2, and DUP; PUBREL, SUBSCRIBE and UNSUBSCRIBE
/// require 0010b; all others require 0000b.
pub open spec fn wf_flags(h: FixHeader) -> bool {
    match h.control_packet_type {
        ControlPacketType::PUBLISH => h.flags.0 <= 1 && h.flags.1 <= 2 && h.flags.2 == 0
            && h.flags.3 <= 1,
        ControlPacketType::PUBREL
        | ControlPacketType::SUBSCRIBE
        | ControlPacketType::UNSUBSCRIBE => h.flags == Flags(0, 1, 0, 0),
        _ => h.flags == Flags(0, 0, 0, 0),
    }
}

/// Appends the fixed-header byte, rejecting flags that break the
/// type-specific reserved pattern.
pub fn encode_fix_header(src: FixHeader, bytes: &mut Vec<u8>) -> (r: Result<(), Error>)
    ensures
        (match r {
            Ok(()) => wf_flags(src) && final(bytes)@ == old(bytes)@ + seq![spec_header_byte(src)],
            Err(e) => e == Error::MalformedPacket && !wf_flags(src) && final(bytes)@ == old(
                bytes,
            )@,
        }),
{
    let ok: bool = match src.control_packet_type {
        ControlPacketType::PUBLISH => src.flags.0 <= 1 && src.flags.1 <= 2 && src.flags.2 == 0
            && src.flags.3 <= 1,
        ControlPacketType::PUBREL
        | ControlPacketType::SUBSCRIBE
        | ControlPacketType::UNSUBSCRIBE => src.flags == Flags(0, 1, 0, 0),
        _ => src.flags == Flags(0, 0, 0, 0),
    };
    if !ok {
        return Err(Error::MalformedPacket);
    }
    let b: u8 = src.control_packet_type.to_u8() * 16 + src.flags.0 + src.flags.1 * 2 + src.flags.2
        * 4 + src.flags.3 * 8;
    bytes.push(b);
    proof {
        assert(bytes@ =~= old(bytes)@ + seq![spec_header_byte(src)]);
    }
    Ok(())
}

/// A topic name contains no wildcard bytes.
pub open spec fn no_wildcards(s: Seq<u8>) -> bool {
    forall|i: int| 0 <= i < s.len() ==> s[i] != 0x2B && s[i] != 0x23
}

/// CONNECT variable header bytes: protocol name, version, connect flags,
/// keep-alive, properties.
pub open spec fn spec_encode_connect_vh(vh: crate::packet::ConnectVariableHeaderView) -> Seq<u8> {
    spec_encode_binary(vh.protocol_name) + seq![
        vh.protocol_version,
        spec_connect_flags_byte(vh.connect_flag),
    ] + spec_be16(vh.keep_alive) + spec_encode_properties(vh.properties)
}

/// CONNECT payload bytes: client identifier, then will, user name and
/// password as the flags call for them.
pub open spec fn spec_encode_connect_payload(
    pl: crate::packet::ConnectPayloadView,
    f: crate::packet::ConnectFlags,
) -> Seq<u8> {
    spec_encode_binary(pl.client_identifier) + (if f.will_flag {
        spec_encode_properties(pl.will_properties) + spec_encode_binary(pl.will_topic->0)
            + spec_encode_binary(pl.will_payload->0)
    } else {
        Seq::<u8>::empty()
    }) + (if f.user_name_flag {
        spec_encode_binary(pl.user_name->0)
    } else {
        Seq::<u8>::empty()
    }) + (if f.password_flag {
        spec_encode_binary(pl.password->0)
    } else {
        Seq::<u8>::empty()
    })
}

/// CONNECT body: the variable header, then the payload.
pub open spec fn spec_encode_connect(p: ConnectControlPacketView) -> Seq<u8> {
    spec_encode_connect_vh(p.variable_header) + spec_encode_connect_payload(
        p.payload,
        p.variable_header.connect_flag,
    )
}

pub open spec fn wf_connect_vh(vh: crate::packet::ConnectVariableHeaderView) -> bool {
    &&& wf_string(vh.protocol_name)
    &&& wf_connect_flags(vh.connect_flag)
    &&& wf_properties(vh.properties)
}

pub open spec fn wf_connect_payload(
    pl: crate::packet::ConnectPayloadView,
    f: crate::packet::ConnectFlags,
) -> bool {
    &&& wf_string(pl.client_identifier)
    &&& if f.will_flag {
        &&& pl.will_topic is Some
        &&& pl.will_payload is Some
        &&& wf_properties(pl.will_properties)
        &&& wf_string(pl.will_topic->0)
        &&& wf_binary(pl.will_payload->0)
    } else {
        &&& pl.will_topic is None
        &&& pl.will_payload is None
        &&& pl.will_properties.len() == 0
    }
    &&& (f.user_name_flag <==> pl.user_name is Some)
    &&& (pl.user_name is Some ==> wf_string(pl.user_name->0))
    &&& (f.password_flag <==> pl.password is Some)
    &&& (pl.password is Some ==> wf_binary(pl.password->0))
}

pub open spec fn wf_connect(p: ConnectControlPacketView) -> bool {
    wf_connect_vh(p.variable_header) && wf_connect_payload(
        p.payload,
        p.variable_header.connect_flag,
    )
}

/// Appends the CONNECT variable header.
pub fn encode_connect_vh(vh: &crate::packet::ConnectVariableHeader, bytes: &mut Vec<u8>) -> (r:
    Result<(), Error>)
    ensures
        (match r {
            Ok(()) => wf_connect_vh(vh@) && final(bytes)@ == old(bytes)@ + spec_encode_connect_vh(
                vh@,
            ),
            Err(e) => e == Error::MalformedPacket && !wf_connect_vh(vh@) && final(bytes)@ == old(
                bytes,
            )@,
        }),
{
    let mut out: Vec<u8> = Vec::new();
    if vh.connect_flag.will_qos > 2 {
        return Err(Error::MalformedPacket);
    }
    match encode_string(&vh.protocol_name, &mut out) {
        Ok(()) => (),
        Err(e) => {
            return Err(e);
        },
    }
    out.push(vh.protocol_version);
    out.push(vh.connect_flag.to_byte());
    write_be16(vh.keep_alive, &mut out);
    match encode_properties(&vh.properties, &mut out) {
        Ok(()) => (),
        Err(e) => {
            return Err(e);
        },
    }
    proof {
        assert(out@ =~= spec_encode_connect_vh(vh@));
    }
    bytes.append(&mut out);
    proof {
        assert(bytes@ =~= old(bytes)@ + spec_encode_connect_vh(vh@));
    }
    Ok(())
}

/// Appends the CONNECT payload, checking that the optional fields agree
/// with the connect flags.
#[verifier::rlimit(100)]
pub fn encode_connect_payload_fields(
    pl: &crate::packet::ConnectPayload,
    f: crate::packet::ConnectFlags,
    bytes: &mut Vec<u8>,
) -> (r: Result<(), Error>)
    ensures
        (match r {
            Ok(()) => wf_connect_payload(pl@, f) && final(bytes)@ == old(bytes)@
                + spec_encode_connect_payload(pl@, f),
            Err(e) => e == Error::MalformedPacket && !wf_connect_payload(pl@, f) && final(bytes)@
                == old(bytes)@,
        }),
{
    let mut out: Vec<u8> = Vec::new();
    match encode_string(&pl.client_identifier, &mut out) {
        Ok(()) => (),
        Err(e) => {
            return Err(e);
        },
    }
    if f.will_flag {
        match encode_properties(&pl.will_properties, &mut out) {
            Ok(()) => (),
            Err(e) => {
                return Err(e);
            },
        }
        match &pl.will_topic {
            Some(tp) => match encode_string(tp, &mut out) {
                Ok(()) => (),
                Err(e) => {
                    return Err(e);
                },
            },
            None => {
                return Err(Error::MalformedPacket);
            },
        }
        match &pl.will_payload {
            Some(d) => match encode_binary_data(d, &mut out) {
                Ok(()) => (),
                Err(e) => {
                    return Err(e);
                },
            },
            None => {
                return Err(Error::MalformedPacket);
            },
        }
    } else {
        if pl.will_topic.is_some() || pl.will_payload.is_some() || pl.will_properties.len() > 0 {
            return Err(Error::MalformedPacket);
        }
    }
    if f.user_name_flag {
        match &pl.user_name {
            Some(u) => match encode_string(u, &mut out) {
                Ok(()) => (),
                Err(e) => {
                    return Err(e);
                },
            },
            None => {
                return Err(Error::MalformedPacket);
            },
        }
    } else {
        if pl.user_name.is_some() {
            return Err(Error::MalformedPacket);
        }
    }
    if f.password_flag {
        match &pl.password {
            Some(pw) => match encode_binary_data(pw, &mut out) {
                Ok(()) => (),
                Err(e) => {
                    return Err(e);
                },
            },
            None => {
                return Err(Error::MalformedPacket);
            },
        }
    } else {
        if pl.password.is_some() {
            return Err(Error::MalformedPacket);
        }
    }
    proof {
        assert(out@ =~= spec_encode_connect_payload(pl@, f));
    }
    bytes.append(&mut out);
    proof {
        assert(bytes@ =~= old(bytes)@ + spec_encode_connect_payload(pl@, f));
    }
    Ok(())
}

/// Appends a whole CONNECT body.
pub fn encode_connect_packet(src: &ConnectControlPacket, bytes: &mut Vec<u8>) -> (r: Result<
    (),
    Error,
>)
    ensures
        (match r {
            Ok(()) => wf_connect(src@) && final(bytes)@ == old(bytes)@ + spec_encode_connect(src@),
            Err(e) => e == Error::MalformedPacket && !wf_connect(src@) && final(bytes)@ == old(
                bytes,
            )@,
        }),
{
    let mut out: Vec<u8> = Vec::new();
    match encode_connect_vh(&src.variable_header, &mut out) {
        Ok(()) => (),
        Err(e) => {
            return Err(e);
        },
    }
    match encode_connect_payload_fields(
        &src.payload,
        src.variable_header.connect_flag,
        &mut out,
    ) {
        Ok(()) => (),
        Err(e) => {
            return Err(e);
        },
    }
    bytes.append(&mut out);
    proof {
        assert(bytes@ =~= old(bytes)@ + spec_encode_connect(src@));
    }
    Ok(())
}

/// CONNACK body: acknowledge flags, reason code, properties.
pub open spec fn spec_encode_conn_ack(p: ConnAckControlPacketView) -> Seq<u8> {
    seq![spec_conn_ack_flags_byte(p.conn_ack_flag), spec_conn_ack_reason_u8(p.reason_code)]
        + spec_encode_properties(p.properties)
}

pub open spec fn wf_conn_ack(p: ConnAckControlPacketView) -> bool {
    wf_properties(p.properties)
}

pub fn encode_conn_ack_packet(src: &ConnAckControlPacket, bytes: &mut Vec<u8>) -> (r: Result<
    (),
    Error,
>)
    ensures
        (match r {
            Ok(()) => wf_conn_ack(src@) && final(bytes)@ == old(bytes)@ + spec_encode_conn_ack(
                src@,
            ),
            Err(e) => e == Error::MalformedPacket && !wf_conn_ack(src@) && final(bytes)@ == old(
                bytes,
            )@,
        }),
{
    let mut out: Vec<u8> = Vec::new();
    out.push(src.conn_ack_flag.to_byte());
    out.push(src.reason_code.to_u8());
    match encode_properties(&src.properties, &mut out) {
        Ok(()) => (),
        Err(e) => {
            return Err(e);
        },
    }
    proof {
        assert(out@ =~= spec_encode_conn_ack(src@));
    }
    bytes.append(&mut out);
    proof {
        assert(bytes@ =~= old(bytes)@ + spec_encode_conn_ack(src@));
    }
    Ok(())
}

/// PUBLISH body: topic name, the packet identifier exactly when QoS > 0,
/// properties, then the application payload to the end of the frame.
pub open spec fn spec_encode_publish(p: PublishControlPacketView) -> Seq<u8> {
    spec_encode_binary(p.topic_name) + (match p.packet_identifier {
        Some(pid) => spec_be16(pid),
        None => Seq::<u8>::empty(),
    }) + spec_encode_properties(p.properties) + p.payload
}

pub open spec fn wf_publish(p: PublishControlPacketView) -> bool {
    &&& wf_string(p.topic_name)
    &&& p.topic_name.len() > 0
    &&& no_wildcards(p.topic_name)
    &&& wf_properties(p.properties)
}

pub fn encode_publish_packet(src: &PublishControlPacket, bytes: &mut Vec<u8>) -> (r: Result<
    (),
    Error,
>)
    ensures
        (match r {
            Ok(()) => wf_publish(src@) && final(bytes)@ == old(bytes)@ + spec_encode_publish(src@),
            Err(e) => e == Error::MalformedPacket && !wf_publish(src@) && final(bytes)@ == old(
                bytes,
            )@,
        }),
{
    let mut out: Vec<u8> = Vec::new();
    if src.topic_name.len() == 0 {
        return Err(Error::MalformedPacket);
    }
    let mut i: usize = 0;
    while i < src.topic_name.len()
        invariant
            i <= src.topic_name@.len(),
            forall|j: int| 0 <= j < i ==> src.topic_name@[j] != 0x2B && src.topic_name@[j] != 0x23,
        decreases src.topic_name@.len() - i,
    {
        let b = src.topic_name[i];
        if b == 0x2B || b == 0x23 {
            return Err(Error::MalformedPacket);
        }
        i = i + 1;
    }
    match encode_string(&src.topic_name, &mut out) {
        Ok(()) => (),
        Err(e) => {
            return Err(e);
        },
    }
    match src.packet_identifier {
        Some(pid) => write_be16(pid, &mut out),
        None => (),
    }
    match encode_properties(&src.properties, &mut out) {
        Ok(()) => (),
        Err(e) => {
            return Err(e);
        },
    }
    out.extend_from_slice(src.payload.as_slice());
    proof {
        assert(out@ =~= spec_encode_publish(src@));
    }
    bytes.append(&mut out);
    proof {
        assert(bytes@ =~= old(bytes)@ + spec_encode_publish(src@));
    }
    Ok(())
}

/// PUBACK body: packet identifier, reason code, properties.
pub open spec fn spec_encode_pub_ack(p: PubAckControlPacketView) -> Seq<u8> {
    spec_be16(p.packet_identifier) + seq![spec_pub_ack_reason_u8(p.reason_code)] + spec_encode_properties(
        p.properties,
    )
}

pub open spec fn wf_pub_ack(p: PubAckControlPacketView) -> bool {
    wf_properties(p.properties)
}

pub fn encode_pub_ack_packet(src: &PubAckControlPacket, bytes: &mut Vec<u8>) -> (r: Result<
    (),
    Error,
>)
    ensures
        (match r {
            Ok(()) => wf_pub_ack(src@) && final(bytes)@ == old(bytes)@ + spec_encode_pub_ack(src@),
            Err(e) => e == Error::MalformedPacket && !wf_pub_ack(src@) && final(bytes)@ == old(
                bytes,
            )@,
        }),
{
    let mut out: Vec<u8> = Vec::new();
    write_be16(src.packet_identifier, &mut out);
    out.push(src.reason_code.to_u8());
    match encode_properties(&src.properties, &mut out) {
        Ok(()) => (),
        Err(e) => {
            return Err(e);
        },
    }
    proof {
        assert(out@ =~= spec_encode_pub_ack(src@));
    }
    bytes.append(&mut out);
    proof {
        assert(bytes@ =~= old(bytes)@ + spec_encode_pub_ack(src@));
    }
    Ok(())
}

/// PUBREC body: packet identifier, reason code, properties.
pub open spec fn spec_encode_pub_rec(p: PubRecControlPacketView) -> Seq<u8> {
    spec_be16(p.packet_identifier) + seq![spec_pub_rec_reason_u8(p.reason_code)] + spec_encode_properties(
        p.properties,
    )
}

pub open spec fn wf_pub_rec(p: PubRecControlPacketView) -> bool {
    wf_properties(p.properties)
}

pub fn encode_pub_rec_packet(src: &PubRecControlPacket, bytes: &mut Vec<u8>) -> (r: Result<
    (),
    Error,
>)
    ensures
        (match r {
            Ok(()) => wf_pub_rec(src@) && final(bytes)@ == old(bytes)@ + spec_encode_pub_rec(src@),
            Err(e) => e == Error::MalformedPacket && !wf_pub_rec(src@) && final(bytes)@ == old(
                bytes,
            )@,
        }),
{
    let mut out: Vec<u8> = Vec::new();
    write_be16(src.packet_identifier, &mut out);
    out.push(src.reason_code.to_u8());
    match encode_properties(&src.properties, &mut out) {
        Ok(()) => (),
        Err(e) => {
            return Err(e);
        },
    }
    proof {
        assert(out@ =~= spec_encode_pub_rec(src@));
    }
    bytes.append(&mut out);
    proof {
        assert(bytes@ =~= old(bytes)@ + spec_encode_pub_rec(src@));
    }
    Ok(())
}

/// PUBREL body: packet identifier, reason code, properties.
pub open spec fn spec_encode_pub_rel(p: PubRelControlPacketView) -> Seq<u8> {
    spec_be16(p.packet_identifier) + seq![spec_pub_rel_reason_u8(p.reason_code)] + spec_encode_properties(
        p.properties,
    )
}

pub open spec fn wf_pub_rel(p: PubRelControlPacketView) -> bool {
    wf_properties(p.properties)
}

pub fn encode_pub_rel_packet(src: &PubRelControlPacket, bytes: &mut Vec<u8>) -> (r: Result<
    (),
    Error,
>)
    ensures
        (match r {
            Ok(()) => wf_pub_rel(src@) && final(bytes)@ == old(bytes)@ + spec_encode_pub_rel(src@),
            Err(e) => e == Error::MalformedPacket && !wf_pub_rel(src@) && final(bytes)@ == old(
                bytes,
            )@,
        }),
{
    let mut out: Vec<u8> = Vec::new();
    write_be16(src.packet_identifier, &mut out);
    out.push(src.reason_code.to_u8());
    match encode_properties(&src.properties, &mut out) {
        Ok(()) => (),
        Err(e) => {
            return Err(e);
        },
    }
    proof {
        assert(out@ =~= spec_encode_pub_rel(src@));
    }
    bytes.append(&mut out);
    proof {
        assert(bytes@ =~= old(bytes)@ + spec_encode_pub_rel(src@));
    }
    Ok(())
}

/// PUBCOMP body: packet identifier, reason code, properties.
pub open spec fn spec_encode_pub_comp(p: PubCompControlPacketView) -> Seq<u8> {
    spec_be16(p.packet_identifier) + seq![spec_pub_comp_reason_u8(p.reason_code)] + spec_encode_properties(
        p.properties,
    )
}

pub open spec fn wf_pub_comp(p: PubCompControlPacketView) -> bool {
    wf_properties(p.properties)
}

pub fn encode_pub_comp_packet(src: &PubCompControlPacket, bytes: &mut Vec<u8>) -> (r: Result<
    (),
    Error,
>)
    ensures
        (match r {
            Ok(()) => wf_pub_comp(src@) && final(bytes)@ == old(bytes)@ + spec_encode_pub_comp(src@),
            Err(e) => e == Error::MalformedPacket && !wf_pub_comp(src@) && final(bytes)@ == old(
                bytes,
            )@,
        }),
{
    let mut out: Vec<u8> = Vec::new();
    write_be16(src.packet_identifier, &mut out);
    out.push(src.reason_code.to_u8());
    match encode_properties(&src.properties, &mut out) {
        Ok(()) => (),
        Err(e) => {
            return Err(e);
        },
    }
    proof {
        assert(out@ =~= spec_encode_pub_comp(src@));
    }
    bytes.append(&mut out);
    proof {
        assert(bytes@ =~= old(bytes)@ + spec_encode_pub_comp(src@));
    }
    Ok(())
}

/// The SUBSCRIBE payload: each entry is a topic filter and one options
/// byte, in order.
pub open spec fn spec_encode_sub_entries(es: Seq<SubscribePayloadView>) -> Seq<u8>
    decreases es.len(),
{
    if es.len() == 0 {
        Seq::empty()
    } else {
        spec_encode_binary(es[0].topic_filter) + seq![
            spec_subscription_options_byte(es[0].subscription_options),
        ] + spec_encode_sub_entries(es.skip(1))
    }
}

pub proof fn lemma_sub_entries_snoc(es: Seq<SubscribePayloadView>, e: SubscribePayloadView)
    ensures
        spec_encode_sub_entries(es + seq![e]) == spec_encode_sub_entries(es) + (
        spec_encode_binary(e.topic_filter) + seq![
            spec_subscription_options_byte(e.subscription_options),
        ]),
    decreases es.len(),
{
    if es.len() == 0 {
        assert(es + seq![e] =~= seq![e]);
        assert(seq![e].skip(1) =~= Seq::<SubscribePayloadView>::empty());
        assert(seq![e][0] == e);
        assert(spec_encode_sub_entries(seq![e].skip(1)) == Seq::<u8>::empty());
        assert(spec_encode_sub_entries(es + seq![e]) =~= spec_encode_sub_entries(es) + (
        spec_encode_binary(e.topic_filter) + seq![
            spec_subscription_options_byte(e.subscription_options),
        ]));
    } else {
        assert((es + seq![e]).skip(1) =~= es.skip(1) + seq![e]);
        lemma_sub_entries_snoc(es.skip(1), e);
        assert((es + seq![e])[0] == es[0]);
        let head = spec_encode_binary(es[0].topic_filter) + seq![
            spec_subscription_options_byte(es[0].subscription_options),
        ];
        let tailenc = spec_encode_binary(e.topic_filter) + seq![
            spec_subscription_options_byte(e.subscription_options),
        ];
        assert(head + (spec_encode_sub_entries(es.skip(1)) + tailenc) =~= (head
            + spec_encode_sub_entries(es.skip(1))) + tailenc);
        assert(spec_encode_sub_entries(es + seq![e]) =~= spec_encode_sub_entries(es) + (
        spec_encode_binary(e.topic_filter) + seq![
            spec_subscription_options_byte(e.subscription_options),
        ]));
    }
}

pub open spec fn wf_sub_entries(es: Seq<SubscribePayloadView>) -> bool {
    forall|i: int| 0 <= i < es.len() ==> wf_string((#[trigger] es[i]).topic_filter)
        && wf_subscription_options(es[i].subscription_options)
}

/// SUBSCRIBE body: packet identifier, properties, then the entries.
pub open spec fn spec_encode_subscribe(p: SubscribeControlPacketView) -> Seq<u8> {
    spec_be16(p.packet_identifier) + spec_encode_properties(p.properties)
        + spec_encode_sub_entries(p.subscribe_payload)
}

pub open spec fn wf_subscribe(p: SubscribeControlPacketView) -> bool {
    wf_properties(p.properties) && wf_sub_entries(p.subscribe_payload)
}

pub fn encode_subscribe_packet(src: &SubscribeControlPacket, bytes: &mut Vec<u8>) -> (r: Result<
    (),
    Error,
>)
    ensures
        (match r {
            Ok(()) => wf_subscribe(src@) && final(bytes)@ == old(bytes)@ + spec_encode_subscribe(
                src@,
            ),
            Err(e) => e == Error::MalformedPacket && !wf_subscribe(src@) && final(bytes)@ == old(
                bytes,
            )@,
        }),
{
    let ghost es = src@.subscribe_payload;
    let mut out: Vec<u8> = Vec::new();
    write_be16(src.packet_identifier, &mut out);
    match encode_properties(&src.properties, &mut out) {
        Ok(()) => (),
        Err(e) => {
            return Err(e);
        },
    }
    let mut entries: Vec<u8> = Vec::new();
    let mut i: usize = 0;
    proof {
        assert(es.take(0) =~= Seq::<SubscribePayloadView>::empty());
    }
    while i < src.subscribe_payload.len()
        invariant
            i <= src.subscribe_payload@.len(),
            es == src@.subscribe_payload,
            es.len() == src.subscribe_payload@.len(),
            forall|j: int| 0 <= j < es.len() ==> es[j] == #[trigger] src.subscribe_payload@[j]@,
            entries@ == spec_encode_sub_entries(es.take(i as int)),
            forall|j: int| 0 <= j < i ==> wf_string((#[trigger] es[j]).topic_filter)
                && wf_subscription_options(es[j].subscription_options),
        decreases src.subscribe_payload@.len() - i,
    {
        let entry = &src.subscribe_payload[i];
        if entry.subscription_options.reserved > 3 {
            return Err(Error::MalformedPacket);
        }
        match encode_string(&entry.topic_filter, &mut entries) {
            Ok(()) => (),
            Err(e) => {
                return Err(e);
            },
        }
        entries.push(entry.subscription_options.to_byte());
        proof {
            lemma_sub_entries_snoc(es.take(i as int), es[i as int]);
            assert(es.take(i + 1) =~= es.take(i as int) + seq![es[i as int]]);
            assert(entries@ =~= spec_encode_sub_entries(es.take(i + 1)));
        }
        i = i + 1;
    }
    proof {
        assert(es.take(es.len() as int) =~= es);
    }
    out.append(&mut entries);
    proof {
        assert(out@ =~= spec_encode_subscribe(src@));
    }
    bytes.append(&mut out);
    proof {
        assert(bytes@ =~= old(bytes)@ + spec_encode_subscribe(src@));
    }
    Ok(())
}

/// The SUBACK payload: one reason-code byte per requested filter.
pub open spec fn spec_encode_sub_ack_codes(cs: Seq<SubAckReasonCode>) -> Seq<u8>
    decreases cs.len(),
{
    if cs.len() == 0 {
        Seq::empty()
    } else {
        seq![spec_sub_ack_reason_u8(cs[0])] + spec_encode_sub_ack_codes(cs.skip(1))
    }
}

pub proof fn lemma_sub_ack_codes_snoc(cs: Seq<SubAckReasonCode>, c: SubAckReasonCode)
    ensures
        spec_encode_sub_ack_codes(cs + seq![c]) == spec_encode_sub_ack_codes(cs) + seq![
            spec_sub_ack_reason_u8(c),
        ],
    decreases cs.len(),
{
    if cs.len() == 0 {
        assert(cs + seq![c] =~= seq![c]);
        assert(seq![c].skip(1) =~= Seq::<SubAckReasonCode>::empty());
        assert(seq![c][0] == c);
        assert(spec_encode_sub_ack_codes(seq![c].skip(1)) == Seq::<u8>::empty());
        assert(spec_encode_sub_ack_codes(cs + seq![c]) =~= spec_encode_sub_ack_codes(cs) + seq![
            spec_sub_ack_reason_u8(c),
        ]);
    } else {
        assert((cs + seq![c]).skip(1) =~= cs.skip(1) + seq![c]);
        lemma_sub_ack_codes_snoc(cs.skip(1), c);
        assert((cs + seq![c])[0] == cs[0]);
        assert(seq![spec_sub_ack_reason_u8(cs[0])] + (spec_encode_sub_ack_codes(cs.skip(1)) + seq![
            spec_sub_ack_reason_u8(c),
        ]) =~= (seq![spec_sub_ack_reason_u8(cs[0])] + spec_encode_sub_ack_codes(cs.skip(1)))
            + seq![spec_sub_ack_reason_u8(c)]);
        assert(spec_encode_sub_ack_codes(cs + seq![c]) =~= spec_encode_sub_ack_codes(cs) + seq![
            spec_sub_ack_reason_u8(c),
        ]);
    }
}

/// SUBACK body: packet identifier, properties, then the reason codes.
pub open spec fn spec_encode_sub_ack(p: SubAckControlPacketView) -> Seq<u8> {
    spec_be16(p.packet_identifier) + spec_encode_properties(p.properties)
        + spec_encode_sub_ack_codes(p.sub_ack_reason_codes)
}

pub open spec fn wf_sub_ack(p: SubAckControlPacketView) -> bool {
    wf_properties(p.properties)
}

pub fn encode_sub_ack_packet(src: &SubAckControlPacket, bytes: &mut Vec<u8>) -> (r: Result<
    (),
    Error,
>)
    ensures
        (match r {
            Ok(()) => wf_sub_ack(src@) && final(bytes)@ == old(bytes)@ + spec_encode_sub_ack(src@),
            Err(e) => e == Error::MalformedPacket && !wf_sub_ack(src@) && final(bytes)@ == old(
                bytes,
            )@,
        }),
{
    let mut out: Vec<u8> = Vec::new();
    write_be16(src.packet_identifier, &mut out);
    match encode_properties(&src.properties, &mut out) {
        Ok(()) => (),
        Err(e) => {
            return Err(e);
        },
    }
    encode_sub_ack_payload(&src.sub_ack_payload.sub_ack_reason_codes, &mut out);
    proof {
        assert(out@ =~= spec_encode_sub_ack(src@));
    }
    bytes.append(&mut out);
    proof {
        assert(bytes@ =~= old(bytes)@ + spec_encode_sub_ack(src@));
    }
    Ok(())
}

/// Appends the SUBACK reason codes, one byte each.
pub fn encode_sub_ack_payload(src: &Vec<SubAckReasonCode>, bytes: &mut Vec<u8>)
    ensures
        final(bytes)@ == old(bytes)@ + spec_encode_sub_ack_codes(src@),
{
    let mut i: usize = 0;
    proof {
        assert(src@.take(0) =~= Seq::<SubAckReasonCode>::empty());
        assert(bytes@ =~= old(bytes)@ + spec_encode_sub_ack_codes(src@.take(0)));
    }
    while i < src.len()
        invariant
            i <= src@.len(),
            bytes@ == old(bytes)@ + spec_encode_sub_ack_codes(src@.take(i as int)),
        decreases src@.len() - i,
    {
        bytes.push(src[i].to_u8());
        proof {
            lemma_sub_ack_codes_snoc(src@.take(i as int), src@[i as int]);
            assert(src@.take(i + 1) =~= src@.take(i as int) + seq![src@[i as int]]);
            assert(bytes@ =~= old(bytes)@ + spec_encode_sub_ack_codes(src@.take(i + 1)));
        }
        i = i + 1;
    }
    proof {
        assert(src@.take(src@.len() as int) =~= src@);
    }
}

/// The UNSUBSCRIBE payload: each entry is one topic filter.
pub open spec fn spec_encode_unsub_filters(fs: Seq<Seq<u8>>) -> Seq<u8>
    decreases fs.len(),
{
    if fs.len() == 0 {
        Seq::empty()
    } else {
        spec_encode_binary(fs[0]) + spec_encode_unsub_filters(fs.skip(1))
    }
}

pub proof fn lemma_unsub_filters_snoc(fs: Seq<Seq<u8>>, f: Seq<u8>)
    ensures
        spec_encode_unsub_filters(fs + seq![f]) == spec_encode_unsub_filters(fs)
            + spec_encode_binary(f),
    decreases fs.len(),
{
    if fs.len() == 0 {
        assert(fs + seq![f] =~= seq![f]);
        assert(seq![f].skip(1) =~= Seq::<Seq<u8>>::empty());
        assert(seq![f][0] == f);
        assert(spec_encode_unsub_filters(seq![f].skip(1)) == Seq::<u8>::empty());
        assert(spec_encode_unsub_filters(fs + seq![f]) =~= spec_encode_unsub_filters(fs)
            + spec_encode_binary(f));
    } else {
        assert((fs + seq![f]).skip(1) =~= fs.skip(1) + seq![f]);
        lemma_unsub_filters_snoc(fs.skip(1), f);
        assert((fs + seq![f])[0] == fs[0]);
        assert(spec_encode_binary(fs[0]) + (spec_encode_unsub_filters(fs.skip(1))
            + spec_encode_binary(f)) =~= (spec_encode_binary(fs[0]) + spec_encode_unsub_filters(
            fs.skip(1),
        )) + spec_encode_binary(f));
        assert(spec_encode_unsub_filters(fs + seq![f]) =~= spec_encode_unsub_filters(fs)
            + spec_encode_binary(f));
    }
}

pub open spec fn wf_unsub_filters(fs: Seq<Seq<u8>>) -> bool {
    forall|i: int| 0 <= i < fs.len() ==> wf_string(#[trigger] fs[i])
}

/// UNSUBSCRIBE body: packet identifier, properties, then the filters.
pub open spec fn spec_encode_unsubscribe(p: UnsubscribeControlPacketView) -> Seq<u8> {
    spec_be16(p.packet_identifier) + spec_encode_properties(p.properties)
        + spec_encode_unsub_filters(p.topic_filters)
}

pub open spec fn wf_unsubscribe(p: UnsubscribeControlPacketView) -> bool {
    wf_properties(p.properties) && wf_unsub_filters(p.topic_filters)
}

pub fn encode_unsubscribe_packet(src: &UnsubscribeControlPacket, bytes: &mut Vec<u8>) -> (r:
    Result<(), Error>)
    ensures
        (match r {
            Ok(()) => wf_unsubscribe(src@) && final(bytes)@ == old(bytes)@
                + spec_encode_unsubscribe(src@),
            Err(e) => e == Error::MalformedPacket && !wf_unsubscribe(src@) && final(bytes)@ == old(
                bytes,
            )@,
        }),
{
    let ghost fs = src@.topic_filters;
    let mut out: Vec<u8> = Vec::new();
    write_be16(src.packet_identifier, &mut out);
    match encode_properties(&src.properties, &mut out) {
        Ok(()) => (),
        Err(e) => {
            return Err(e);
        },
    }
    let mut filters: Vec<u8> = Vec::new();
    let mut i: usize = 0;
    proof {
        assert(fs.take(0) =~= Seq::<Seq<u8>>::empty());
    }
    while i < src.topic_filters.len()
        invariant
            i <= src.topic_filters@.len(),
            fs == src@.topic_filters,
            fs.len() == src.topic_filters@.len(),
            forall|j: int| 0 <= j < fs.len() ==> fs[j] == #[trigger] src.topic_filters@[j]@,
            filters@ == spec_encode_unsub_filters(fs.take(i as int)),
            forall|j: int| 0 <= j < i ==> wf_string(#[trigger] fs[j]),
        decreases src.topic_filters@.len() - i,
    {
        match encode_string(&src.topic_filters[i], &mut filters) {
            Ok(()) => (),
            Err(e) => {
                return Err(e);
            },
        }
        proof {
            lemma_unsub_filters_snoc(fs.take(i as int), fs[i as int]);
            assert(fs.take(i + 1) =~= fs.take(i as int) + seq![fs[i as int]]);
            assert(filters@ =~= spec_encode_unsub_filters(fs.take(i + 1)));
        }
        i = i + 1;
    }
    proof {
        assert(fs.take(fs.len() as int) =~= fs);
    }
    out.append(&mut filters);
    proof {
        assert(out@ =~= spec_encode_unsubscribe(src@));
    }
    bytes.append(&mut out);
    proof {
        assert(bytes@ =~= old(bytes)@ + spec_encode_unsubscribe(src@));
    }
    Ok(())
}

/// The UNSUBACK payload: one reason-code byte per filter.
pub open spec fn spec_encode_unsub_ack_codes(cs: Seq<UnSubAckReasonCode>) -> Seq<u8>
    decreases cs.len(),
{
    if cs.len() == 0 {
        Seq::empty()
    } else {
        seq![spec_un_sub_ack_reason_u8(cs[0])] + spec_encode_unsub_ack_codes(cs.skip(1))
    }
}

pub proof fn lemma_unsub_ack_codes_snoc(cs: Seq<UnSubAckReasonCode>, c: UnSubAckReasonCode)
    ensures
        spec_encode_unsub_ack_codes(cs + seq![c]) == spec_encode_unsub_ack_codes(cs) + seq![
            spec_un_sub_ack_reason_u8(c),
        ],
    decreases cs.len(),
{
    if cs.len() == 0 {
        assert(cs + seq![c] =~= seq![c]);
        assert(seq![c].skip(1) =~= Seq::<UnSubAckReasonCode>::empty());
        assert(seq![c][0] == c);
        assert(spec_encode_unsub_ack_codes(seq![c].skip(1)) == Seq::<u8>::empty());
        assert(spec_encode_unsub_ack_codes(cs + seq![c]) =~= spec_encode_unsub_ack_codes(cs)
            + seq![spec_un_sub_ack_reason_u8(c)]);
    } else {
        assert((cs + seq![c]).skip(1) =~= cs.skip(1) + seq![c]);
        lemma_unsub_ack_codes_snoc(cs.skip(1), c);
        assert((cs + seq![c])[0] == cs[0]);
        assert(seq![spec_un_sub_ack_reason_u8(cs[0])] + (spec_encode_unsub_ack_codes(cs.skip(1))
            + seq![spec_un_sub_ack_reason_u8(c)]) =~= (seq![spec_un_sub_ack_reason_u8(cs[0])]
            + spec_encode_unsub_ack_codes(cs.skip(1))) + seq![spec_un_sub_ack_reason_u8(c)]);
        assert(spec_encode_unsub_ack_codes(cs + seq![c]) =~= spec_encode_unsub_ack_codes(cs)
            + seq![spec_un_sub_ack_reason_u8(c)]);
    }
}

/// UNSUBACK body: packet identifier, properties, then the reason codes.
pub open spec fn spec_encode_unsub_ack(p: UnsubAckControlPacketView) -> Seq<u8> {
    spec_be16(p.packet_identifier) + spec_encode_properties(p.properties)
        + spec_encode_unsub_ack_codes(p.reason_codes)
}

pub open spec fn wf_unsub_ack(p: UnsubAckControlPacketView) -> bool {
    wf_properties(p.properties)
}

pub fn encode_unsub_ack_packet(src: &UnsubAckControlPacket, bytes: &mut Vec<u8>) -> (r: Result<
    (),
    Error,
>)
    ensures
        (match r {
            Ok(()) => wf_unsub_ack(src@) && final(bytes)@ == old(bytes)@ + spec_encode_unsub_ack(
                src@,
            ),
            Err(e) => e == Error::MalformedPacket && !wf_unsub_ack(src@) && final(bytes)@ == old(
                bytes,
            )@,
        }),
{
    let mut out: Vec<u8> = Vec::new();
    write_be16(src.packet_identifier, &mut out);
    match encode_properties(&src.properties, &mut out) {
        Ok(()) => (),
        Err(e) => {
            return Err(e);
        },
    }
    let mut i: usize = 0;
    proof {
        assert(src.reason_codes@.take(0) =~= Seq::<UnSubAckReasonCode>::empty());
        assert(out@ + spec_encode_unsub_ack_codes(src.reason_codes@.take(0)) =~= out@);
    }
    let ghost mid = out@;
    while i < src.reason_codes.len()
        invariant
            i <= src.reason_codes@.len(),
            out@ == mid + spec_encode_unsub_ack_codes(src.reason_codes@.take(i as int)),
        decreases src.reason_codes@.len() - i,
    {
        out.push(src.reason_codes[i].to_u8());
        proof {
            lemma_unsub_ack_codes_snoc(src.reason_codes@.take(i as int), src.reason_codes@[i as int]);
            assert(src.reason_codes@.take(i + 1) =~= src.reason_codes@.take(i as int) + seq![
                src.reason_codes@[i as int],
            ]);
            assert(out@ =~= mid + spec_encode_unsub_ack_codes(src.reason_codes@.take(i + 1)));
        }
        i = i + 1;
    }
    proof {
        assert(src.reason_codes@.take(src.reason_codes@.len() as int) =~= src.reason_codes@);
    }
    proof {
        assert(out@ =~= spec_encode_unsub_ack(src@));
    }
    bytes.append(&mut out);
    proof {
        assert(bytes@ =~= old(bytes)@ + spec_encode_unsub_ack(src@));
    }
    Ok(())
}

/// DISCONNECT body: reason code, then properties.
pub open spec fn spec_encode_disconnect(p: DisconnectControlPacketView) -> Seq<u8> {
    seq![spec_disconnect_reason_u8(p.reason_code)] + spec_encode_properties(p.properties)
}

pub open spec fn wf_disconnect(p: DisconnectControlPacketView) -> bool {
    wf_properties(p.properties)
}

pub fn encode_disconnect_packet(src: &DisconnectControlPacket, bytes: &mut Vec<u8>) -> (r: Result<
    (),
    Error,
>)
    ensures
        (match r {
            Ok(()) => wf_disconnect(src@) && final(bytes)@ == old(bytes)@ + spec_encode_disconnect(
                src@,
            ),
            Err(e) => e == Error::MalformedPacket && !wf_disconnect(src@) && final(bytes)@ == old(
                bytes,
            )@,
        }),
{
    let mut out: Vec<u8> = Vec::new();
    out.push(src.reason_code.to_u8());
    match encode_properties(&src.properties, &mut out) {
        Ok(()) => (),
        Err(e) => {
            return Err(e);
        },
    }
    proof {
        assert(out@ =~= spec_encode_disconnect(src@));
    }
    bytes.append(&mut out);
    proof {
        assert(bytes@ =~= old(bytes)@ + spec_encode_disconnect(src@));
    }
    Ok(())
}

/// AUTH body: reason code, then properties.
pub open spec fn spec_encode_auth(p: AuthControlPacketView) -> Seq<u8> {
    seq![spec_auth_reason_u8(p.reason_code)] + spec_encode_properties(p.properties)
}

pub open spec fn wf_auth(p: AuthControlPacketView) -> bool {
    wf_properties(p.properties)
}

pub fn encode_auth_packet(src: &AuthControlPacket, bytes: &mut Vec<u8>) -> (r: Result<(), Error>)
    ensures
        (match r {
            Ok(()) => wf_auth(src@) && final(bytes)@ == old(bytes)@ + spec_encode_auth(src@),
            Err(e) => e == Error::MalformedPacket && !wf_auth(src@) && final(bytes)@ == old(
                bytes,
            )@,
        }),
{
    let mut out: Vec<u8> = Vec::new();
    out.push(src.reason_code.to_u8());
    match encode_properties(&src.properties, &mut out) {
        Ok(()) => (),
        Err(e) => {
            return Err(e);
        },
    }
    proof {
        assert(out@ =~= spec_encode_auth(src@));
    }
    bytes.append(&mut out);
    proof {
        assert(bytes@ =~= old(bytes)@ + spec_encode_auth(src@));
    }
    Ok(())
}

/// The packet type a control packet belongs under.
pub open spec fn spec_packet_type_of(cp: ControlPacketView) -> ControlPacketType {
    match cp {
        ControlPacketView::Connect(_) => ControlPacketType::CONNECT,
        ControlPacketView::ConnAck(_) => ControlPacketType::CONNACK,
        ControlPacketView::Publish(_) => ControlPacketType::PUBLISH,
        ControlPacketView::PubAck(_) => ControlPacketType::PUBACK,
        ControlPacketView::PubRec(_) => ControlPacketType::PUBREC,
        ControlPacketView::PubRel(_) => ControlPacketType::PUBREL,
        ControlPacketView::PubComp(_) => ControlPacketType::PUBCOMP,
        ControlPacketView::Subscribe(_) => ControlPacketType::SUBSCRIBE,
        ControlPacketView::SubAck(_) => ControlPacketType::SUBACK,
        ControlPacketView::Unsubscribe(_) => ControlPacketType::UNSUBSCRIBE,
        ControlPacketView::UnsubAck(_) => ControlPacketType::UNSUBACK,
        ControlPacketView::PingReq => ControlPacketType::PINGREQ,
        ControlPacketView::PingResp => ControlPacketType::PINGRESP,
        ControlPacketView::Disconnect(_) => ControlPacketType::DISCONNECT,
        ControlPacketView::Auth(_) => ControlPacketType::AUTH,
    }
}

/// The body bytes of a control packet (everything after the fixed header
/// and remaining length).
pub open spec fn spec_encode_packet(cp: ControlPacketView) -> Seq<u8> {
    match cp {
        ControlPacketView::Connect(p) => spec_encode_connect(p),
        ControlPacketView::ConnAck(p) => spec_encode_conn_ack(p),
        ControlPacketView::Publish(p) => spec_encode_publish(p),
        ControlPacketView::PubAck(p) => spec_encode_pub_ack(p),
        ControlPacketView::PubRec(p) => spec_encode_pub_rec(p),
        ControlPacketView::PubRel(p) => spec_encode_pub_rel(p),
        ControlPacketView::PubComp(p) => spec_encode_pub_comp(p),
        ControlPacketView::Subscribe(p) => spec_encode_subscribe(p),
        ControlPacketView::SubAck(p) => spec_encode_sub_ack(p),
        ControlPacketView::Unsubscribe(p) => spec_encode_unsubscribe(p),
        ControlPacketView::UnsubAck(p) => spec_encode_unsub_ack(p),
        ControlPacketView::PingReq => Seq::empty(),
        ControlPacketView::PingResp => Seq::empty(),
        ControlPacketView::Disconnect(p) => spec_encode_disconnect(p),
        ControlPacketView::Auth(p) => spec_encode_auth(p),
    }
}

pub open spec fn wf_packet(cp: ControlPacketView) -> bool {
    match cp {
        ControlPacketView::Connect(p) => wf_connect(p),
        ControlPacketView::ConnAck(p) => wf_conn_ack(p),
        ControlPacketView::Publish(p) => wf_publish(p),
        ControlPacketView::PubAck(p) => wf_pub_ack(p),
        ControlPacketView::PubRec(p) => wf_pub_rec(p),
        ControlPacketView::PubRel(p) => wf_pub_rel(p),
        ControlPacketView::PubComp(p) => wf_pub_comp(p),
        ControlPacketView::Subscribe(p) => wf_subscribe(p),
        ControlPacketView::SubAck(p) => wf_sub_ack(p),
        ControlPacketView::Unsubscribe(p) => wf_unsubscribe(p),
        ControlPacketView::UnsubAck(p) => wf_unsub_ack(p),
        ControlPacketView::PingReq => true,
        ControlPacketView::PingResp => true,
        ControlPacketView::Disconnect(p) => wf_disconnect(p),
        ControlPacketView::Auth(p) => wf_auth(p),
    }
}

/// Encodes one control packet's body.
pub fn encode_packet(src: &ControlPacket, bytes: &mut Vec<u8>) -> (r: Result<(), Error>)
    ensures
        (match r {
            Ok(()) => wf_packet(src@) && final(bytes)@ == old(bytes)@ + spec_encode_packet(src@),
            Err(e) => e == Error::MalformedPacket && !wf_packet(src@) && final(bytes)@ == old(
                bytes,
            )@,
        }),
{
    match src {
        ControlPacket::Connect(p) => encode_connect_packet(p, bytes),
        ControlPacket::ConnAck(p) => encode_conn_ack_packet(p, bytes),
        ControlPacket::Publish(p) => encode_publish_packet(p, bytes),
        ControlPacket::PubAck(p) => encode_pub_ack_packet(p, bytes),
        ControlPacket::PubRec(p) => encode_pub_rec_packet(p, bytes),
        ControlPacket::PubRel(p) => encode_pub_rel_packet(p, bytes),
        ControlPacket::PubComp(p) => encode_pub_comp_packet(p, bytes),
        ControlPacket::Subscribe(p) => encode_subscribe_packet(p, bytes),
        ControlPacket::SubAck(p) => encode_sub_ack_packet(p, bytes),
        ControlPacket::Unsubscribe(p) => encode_unsubscribe_packet(p, bytes),
        ControlPacket::UnsubAck(p) => encode_unsub_ack_packet(p, bytes),
        ControlPacket::PingReq => Ok(()),
        ControlPacket::PingResp => Ok(()),
        ControlPacket::Disconnect(p) => encode_disconnect_packet(p, bytes),
        ControlPacket::Auth(p) => encode_auth_packet(p, bytes),
    }
}

/// A frame is well-formed when its header matches the packet it carries,
/// the flags fit the type's pattern, a PUBLISH carries a packet identifier
/// exactly when its QoS bits are non-zero, the packet itself is
/// well-formed, and the body fits the remaining-length varint.
pub open spec fn wf_frame(f: FrameView) -> bool {
    &&& f.fix_header.control_packet_type == spec_packet_type_of(f.control_packet)
    &&& wf_flags(f.fix_header)
    &&& wf_packet(f.control_packet)
    &&& (f.control_packet matches ControlPacketView::Publish(p) ==> (p.packet_identifier is Some
        <==> f.fix_header.flags.1 > 0))
    &&& spec_encode_packet(f.control_packet).len() <= VARINT_MAX
}

/// The whole frame: header byte, remaining length, body.
pub open spec fn spec_encode_frame(f: FrameView) -> Seq<u8> {
    seq![spec_header_byte(f.fix_header)] + spec_varint(
        spec_encode_packet(f.control_packet).len() as nat,
    ) + spec_encode_packet(f.control_packet)
}

} // verus!
