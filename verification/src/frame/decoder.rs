//! Byte-exact decoders for primitives, properties and packet bodies, each
//! verified against the spec-level parser its contract names. Body parsers
//! work inside a known frame extent, so running out of bytes there is a
//! malformed packet, never an incomplete one.
use crate::definitions::{
    spec_auth_reason_from_u8, spec_conn_ack_reason_from_u8, spec_disconnect_reason_from_u8,
    spec_pub_ack_reason_from_u8, spec_pub_comp_reason_from_u8, spec_pub_rec_reason_from_u8,
    spec_pub_rel_reason_from_u8, AuthReasonCode, ConnAckReasonCode, DisconnectReasonCode,
    PubAckReasonCode, PubCompReasonCode, PubRecReasonCode, PubRelReasonCode, SubAckReasonCode,
    UnSubAckReasonCode,
};
use crate::frame::Error;
use crate::packet::{
    props_view, spec_conn_ack_flags, spec_connect_flags, spec_subscription_options,
    spec_subscription_options_valid, ConnAckFlags, ConnectFlags, Property, PropertyView,
    SubscriptionOptions,
};
use crate::text::{is_utf8, is_valid_utf8_range};
use crate::varint::{spec_decode_varint, ParsedVarint, VariableByteInteger, VARINT_MAX};
use vstd::prelude::*;

verus! {

/// The big-endian 16-bit value at `pos`.
pub open spec fn spec_be16_at(s: Seq<u8>, pos: int) -> u16
    recommends
        0 <= pos,
        pos + 2 <= s.len(),
{
    (s[pos] * 256 + s[pos + 1]) as u16
}

/// The big-endian 32-bit value at `pos`.
pub open spec fn spec_be32_at(s: Seq<u8>, pos: int) -> u32
    recommends
        0 <= pos,
        pos + 4 <= s.len(),
{
    ((s[pos] as int) * 0x1000000 + (s[pos + 1] as int) * 0x10000 + (s[pos + 2] as int) * 256 + (
    s[pos + 3] as int)) as u32
}

pub open spec fn spec_parse_u16(s: Seq<u8>, pos: int, end: int) -> Option<(u16, int)> {
    if 0 <= pos && pos + 2 <= end && end <= s.len() {
        Some((spec_be16_at(s, pos), pos + 2))
    } else {
        None
    }
}

pub open spec fn spec_parse_u32(s: Seq<u8>, pos: int, end: int) -> Option<(u32, int)> {
    if 0 <= pos && pos + 4 <= end && end <= s.len() {
        Some((spec_be32_at(s, pos), pos + 4))
    } else {
        None
    }
}

/// Length-prefixed bytes: a two-byte length, then that many raw bytes.
pub open spec fn spec_parse_binary(s: Seq<u8>, pos: int, end: int) -> Option<(Seq<u8>, int)> {
    if 0 <= pos && pos + 2 <= end && end <= s.len() {
        let n = spec_be16_at(s, pos) as int;
        if pos + 2 + n <= end {
            Some((s.subrange(pos + 2, pos + 2 + n), pos + 2 + n))
        } else {
            None
        }
    } else {
        None
    }
}

/// An MQTT string: length-prefixed bytes that must be well-formed UTF-8.
pub open spec fn spec_parse_string(s: Seq<u8>, pos: int, end: int) -> Option<(Seq<u8>, int)> {
    match spec_parse_binary(s, pos, end) {
        Some((data, np)) => if is_utf8(data) {
            Some((data, np))
        } else {
            None
        },
        None => None,
    }
}

/// A Variable Byte Integer that must lie entirely before `end`.
pub open spec fn spec_parse_varint(s: Seq<u8>, pos: int, end: int) -> Option<(u32, int)> {
    if 0 <= pos && pos <= end && end <= s.len() {
        match spec_decode_varint(s.take(end), pos) {
            ParsedVarint::Done(v, np) => Some((v, np)),
            _ => None,
        }
    } else {
        None
    }
}

/// Copies `buf[start..end]` into a fresh vector.
pub fn copy_range(buf: &Vec<u8>, start: usize, end: usize) -> (r: Vec<u8>)
    requires
        start <= end <= buf@.len(),
    ensures
        r@ == buf@.subrange(start as int, end as int),
{
    let mut v: Vec<u8> = Vec::new();
    let mut i: usize = start;
    while i < end
        invariant
            start <= i <= end <= buf@.len(),
            v@ == buf@.subrange(start as int, i as int),
        decreases end - i,
    {
        v.push(buf[i]);
        proof {
            assert(v@ =~= buf@.subrange(start as int, i + 1));
        }
        i = i + 1;
    }
    v
}

/// Reads a big-endian u16, failing when fewer than two bytes remain.
pub fn read_u16(buf: &Vec<u8>, pos: usize, end: usize) -> (r: Result<(u16, usize), Error>)
    requires
        end <= buf@.len(),
    ensures
        (match r {
            Ok((v, np)) => spec_parse_u16(buf@, pos as int, end as int) == Some((v, np as int))
                && pos < np <= end,
            Err(e) => e == Error::MalformedPacket && spec_parse_u16(buf@, pos as int, end as int)
                is None,
        }),
{
    if pos > end || end - pos < 2 {
        return Err(Error::MalformedPacket);
    }
    let v: u16 = (buf[pos] as u16) * 256 + (buf[pos + 1] as u16);
    Ok((v, pos + 2))
}

/// Reads a big-endian u32, failing when fewer than four bytes remain.
pub fn read_u32(buf: &Vec<u8>, pos: usize, end: usize) -> (r: Result<(u32, usize), Error>)
    requires
        end <= buf@.len(),
    ensures
        (match r {
            Ok((v, np)) => spec_parse_u32(buf@, pos as int, end as int) == Some((v, np as int))
                && pos < np <= end,
            Err(e) => e == Error::MalformedPacket && spec_parse_u32(buf@, pos as int, end as int)
                is None,
        }),
{
    if pos > end || end - pos < 4 {
        return Err(Error::MalformedPacket);
    }
    let v: u32 = (buf[pos] as u32) * 0x1000000 + (buf[pos + 1] as u32) * 0x10000 + (buf[pos
        + 2] as u32) * 256 + (buf[pos + 3] as u32);
    Ok((v, pos + 4))
}

/// Reads length-prefixed binary data.
pub fn decode_binary_data(buf: &Vec<u8>, pos: usize, end: usize) -> (r: Result<
    (Vec<u8>, usize),
    Error,
>)
    requires
        end <= buf@.len(),
    ensures
        (match r {
            Ok((v, np)) => spec_parse_binary(buf@, pos as int, end as int) == Some(
                (v@, np as int),
            ) && pos < np <= end,
            Err(e) => e == Error::MalformedPacket && spec_parse_binary(
                buf@,
                pos as int,
                end as int,
            ) is None,
        }),
{
    let (n, np) = match read_u16(buf, pos, end) {
        Ok(x) => x,
        Err(e) => {
            return Err(e);
        },
    };
    if n as usize > end - np {
        return Err(Error::MalformedPacket);
    }
    let data = copy_range(buf, np, np + n as usize);
    Ok((data, np + n as usize))
}

/// Reads a length-prefixed string, rejecting invalid UTF-8 as malformed.
pub fn decode_string(buf: &Vec<u8>, pos: usize, end: usize) -> (r: Result<(Vec<u8>, usize), Error>)
    requires
        end <= buf@.len(),
    ensures
        (match r {
            Ok((v, np)) => spec_parse_string(buf@, pos as int, end as int) == Some(
                (v@, np as int),
            ) && pos < np <= end && is_utf8(v@),
            Err(e) => e == Error::MalformedPacket && spec_parse_string(
                buf@,
                pos as int,
                end as int,
            ) is None,
        }),
{
    let (n, np) = match read_u16(buf, pos, end) {
        Ok(x) => x,
        Err(e) => {
            return Err(e);
        },
    };
    if n as usize > end - np {
        return Err(Error::MalformedPacket);
    }
    if !is_valid_utf8_range(buf, np, np + n as usize) {
        return Err(Error::MalformedPacket);
    }
    let data = copy_range(buf, np, np + n as usize);
    Ok((data, np + n as usize))
}

/// Reads a Variable Byte Integer that must end before `end`.
pub fn decode_varint_in(buf: &Vec<u8>, pos: usize, end: usize) -> (r: Result<
    (u32, usize),
    Error,
>)
    requires
        end <= buf@.len(),
    ensures
        (match r {
            Ok((v, np)) => spec_parse_varint(buf@, pos as int, end as int) == Some(
                (v, np as int),
            ) && pos < np <= end && v <= VARINT_MAX,
            Err(e) => e == Error::MalformedPacket && spec_parse_varint(
                buf@,
                pos as int,
                end as int,
            ) is None,
        }),
{
    decode_varint_in_rec(buf, pos, end, pos, 0, 0, 1)
}

fn decode_varint_in_rec(
    buf: &Vec<u8>,
    start: usize,
    end: usize,
    pos: usize,
    k: u8,
    acc: u32,
    mult: u32,
) -> (r: Result<(u32, usize), Error>)
    requires
        end <= buf@.len(),
        start <= pos,
        k <= 4,
        mult == crate::varint::pow128(k as nat),
        acc < mult,
        crate::varint::spec_decode_varint_rec(buf@.take(end as int), start as int, 0, 0)
            == crate::varint::spec_decode_varint_rec(
            buf@.take(end as int),
            pos as int,
            k as nat,
            acc as nat,
        ),
    ensures
        (match r {
            Ok((v, np)) => spec_parse_varint(buf@, start as int, end as int) == Some(
                (v, np as int),
            ) && start < np <= end && v <= VARINT_MAX,
            Err(e) => e == Error::MalformedPacket && spec_parse_varint(
                buf@,
                start as int,
                end as int,
            ) is None,
        }),
    decreases 4 - k,
{
    proof {
        crate::varint::lemma_pow128_small(k as nat);
    }
    if k >= 4 {
        return Err(Error::MalformedPacket);
    }
    if pos >= end {
        return Err(Error::MalformedPacket);
    }
    let b: u8 = buf[pos];
    proof {
        assert(buf@.take(end as int)[pos as int] == b);
    }
    if b < 128 {
        proof {
            assert((b as nat) * crate::varint::pow128(k as nat) <= 127 * crate::varint::pow128(
                k as nat,
            )) by (nonlinear_arith)
                requires
                    b < 128,
            ;
            assert(acc + 127 * crate::varint::pow128(k as nat) < 128 * crate::varint::pow128(
                k as nat,
            )) by (nonlinear_arith)
                requires
                    acc < crate::varint::pow128(k as nat),
            ;
            assert(128 * crate::varint::pow128(k as nat) == crate::varint::pow128((k + 1) as nat));
            crate::varint::lemma_pow128_small((k + 1) as nat);
        }
        let v: u32 = acc + (b as u32) * mult;
        proof {
            assert((acc as nat + (b as nat) * crate::varint::pow128(k as nat)) % 0x100000000
                == v as nat);
        }
        Ok((v, pos + 1))
    } else {
        proof {
            assert(((b - 128) as nat) * crate::varint::pow128(k as nat) <= 127
                * crate::varint::pow128(k as nat)) by (nonlinear_arith)
                requires
                    b >= 128,
            ;
            assert(acc + 127 * crate::varint::pow128(k as nat) < 128 * crate::varint::pow128(
                k as nat,
            )) by (nonlinear_arith)
                requires
                    acc < crate::varint::pow128(k as nat),
            ;
            assert(128 * crate::varint::pow128(k as nat) == crate::varint::pow128((k + 1) as nat));
            crate::varint::lemma_pow128_small((k + 1) as nat);
        }
        decode_varint_in_rec(buf, start, end, pos + 1, k + 1, acc + ((b - 128) as u32) * mult, mult
            * 128)
    }
}

pub open spec fn spec_parse_byte(s: Seq<u8>, pos: int, end: int) -> Option<(u8, int)> {
    if 0 <= pos && pos < end && end <= s.len() {
        Some((s[pos], pos + 1))
    } else {
        None
    }
}

/// One property: the identifier byte, then the payload in the type that
/// identifier fixes. An unknown identifier is malformed.
pub open spec fn spec_parse_property(s: Seq<u8>, pos: int, end: int) -> Option<(PropertyView, int)> {
    if !(0 <= pos && pos < end && end <= s.len()) {
        None
    } else {
        let p1 = pos + 1;
        match s[pos] {
            1u8 => match spec_parse_byte(s, p1, end) {
                Some((v, np)) => Some((PropertyView::PayloadFormatIndicator(v), np)),
                None => None,
            },
            2u8 => match spec_parse_u32(s, p1, end) {
                Some((v, np)) => Some((PropertyView::MessageExpiryInterval(v), np)),
                None => None,
            },
            3u8 => match spec_parse_string(s, p1, end) {
                Some((v, np)) => Some((PropertyView::ContentType(v), np)),
                None => None,
            },
            8u8 => match spec_parse_string(s, p1, end) {
                Some((v, np)) => Some((PropertyView::ResponseTopic(v), np)),
                None => None,
            },
            9u8 => match spec_parse_binary(s, p1, end) {
                Some((v, np)) => Some((PropertyView::CorrelationData(v), np)),
                None => None,
            },
            11u8 => match spec_parse_varint(s, p1, end) {
                Some((v, np)) => Some(
                    (PropertyView::SubscriptionIdentifier(VariableByteInteger { data: v }), np),
                ),
                None => None,
            },
            17u8 => match spec_parse_u32(s, p1, end) {
                Some((v, np)) => Some((PropertyView::SessionExpiryInterval(v), np)),
                None => None,
            },
            18u8 => match spec_parse_string(s, p1, end) {
                Some((v, np)) => Some((PropertyView::AssignedClientIdentifier(v), np)),
                None => None,
            },
            19u8 => match spec_parse_u16(s, p1, end) {
                Some((v, np)) => Some((PropertyView::ServerKeepAlive(v), np)),
                None => None,
            },
            21u8 => match spec_parse_string(s, p1, end) {
                Some((v, np)) => Some((PropertyView::AuthenticationMethod(v), np)),
                None => None,
            },
            22u8 => match spec_parse_binary(s, p1, end) {
                Some((v, np)) => Some((PropertyView::AuthenticationData(v), np)),
                None => None,
            },
            23u8 => match spec_parse_byte(s, p1, end) {
                Some((v, np)) => Some((PropertyView::RequestProblemInformation(v), np)),
                None => None,
            },
            24u8 => match spec_parse_u32(s, p1, end) {
                Some((v, np)) => Some((PropertyView::WillDelayInterval(v), np)),
                None => None,
            },
            25u8 => match spec_parse_byte(s, p1, end) {
                Some((v, np)) => Some((PropertyView::RequestResponseInformation(v), np)),
                None => None,
            },
            26u8 => match spec_parse_string(s, p1, end) {
                Some((v, np)) => Some((PropertyView::ResponseInformation(v), np)),
                None => None,
            },
            28u8 => match spec_parse_string(s, p1, end) {
                Some((v, np)) => Some((PropertyView::ServerReference(v), np)),
                None => None,
            },
            31u8 => match spec_parse_string(s, p1, end) {
                Some((v, np)) => Some((PropertyView::ReasonString(v), np)),
                None => None,
            },
            33u8 => match spec_parse_u16(s, p1, end) {
                Some((v, np)) => Some((PropertyView::ReceiveMaximum(v), np)),
                None => None,
            },
            34u8 => match spec_parse_u16(s, p1, end) {
                Some((v, np)) => Some((PropertyView::TopicAliasMaximum(v), np)),
                None => None,
            },
            35u8 => match spec_parse_u16(s, p1, end) {
                Some((v, np)) => Some((PropertyView::TopicAlias(v), np)),
                None => None,
            },
            36u8 => match spec_parse_byte(s, p1, end) {
                Some((v, np)) => match crate::definitions::spec_qos_from_u8(v) {
                    Some(q) => Some((PropertyView::MaximumQoS(q), np)),
                    None => None,
                },
                None => None,
            },
            37u8 => match spec_parse_byte(s, p1, end) {
                Some((v, np)) => Some((PropertyView::RetainAvailable(v), np)),
                None => None,
            },
            38u8 => match spec_parse_string(s, p1, end) {
                Some((v, np)) => Some((PropertyView::UserProperty(v), np)),
                None => None,
            },
            39u8 => match spec_parse_u32(s, p1, end) {
                Some((v, np)) => Some((PropertyView::MaximumPacketSize(v), np)),
                None => None,
            },
            40u8 => match spec_parse_byte(s, p1, end) {
                Some((v, np)) => Some((PropertyView::WildcardSubscriptionAvailable(v), np)),
                None => None,
            },
            41u8 => match spec_parse_byte(s, p1, end) {
                Some((v, np)) => Some((PropertyView::SubscriptionIdentifierAvailable(v), np)),
                None => None,
            },
            42u8 => match spec_parse_byte(s, p1, end) {
                Some((v, np)) => Some((PropertyView::SharedSubscriptionAvailable(v), np)),
                None => None,
            },
            _ => None,
        }
    }
}

/// Properties back to back until exactly `end`.
pub open spec fn spec_parse_property_list(s: Seq<u8>, pos: int, end: int) -> Option<
    (Seq<PropertyView>, int),
>
    decreases end - pos,
{
    if !(0 <= pos && pos <= end && end <= s.len()) {
        None
    } else if pos == end {
        Some((Seq::empty(), pos))
    } else {
        match spec_parse_property(s, pos, end) {
            Some((p, np)) => if pos < np <= end {
                match spec_parse_property_list(s, np, end) {
                    Some((ps, e2)) => Some((seq![p] + ps, e2)),
                    None => None,
                }
            } else {
                None
            },
            None => None,
        }
    }
}

/// A property block: a varint byte count, then exactly that many bytes of
/// properties.
pub open spec fn spec_parse_properties(s: Seq<u8>, pos: int, end: int) -> Option<
    (Seq<PropertyView>, int),
> {
    match spec_parse_varint(s, pos, end) {
        Some((len, np)) => if np + len <= end {
            match spec_parse_property_list(s, np, np + len) {
                Some((ps, _e2)) => Some((ps, np + len)),
                None => None,
            }
        } else {
            None
        },
        None => None,
    }
}

/// Reads one property.
pub fn decode_property(buf: &Vec<u8>, pos: usize, end: usize) -> (r: Result<
    (Property, usize),
    Error,
>)
    requires
        end <= buf@.len(),
    ensures
        (match r {
            Ok((p, np)) => spec_parse_property(buf@, pos as int, end as int) == Some(
                (p@, np as int),
            ) && pos < np <= end,
            Err(e) => e == Error::MalformedPacket && spec_parse_property(
                buf@,
                pos as int,
                end as int,
            ) is None,
        }),
{
    if pos >= end {
        return Err(Error::MalformedPacket);
    }
    let id: u8 = buf[pos];
    if id <= 22 {
        decode_property_low(buf, pos, end)
    } else {
        decode_property_high(buf, pos, end)
    }
}

#[verifier::rlimit(100)]
fn decode_property_low(buf: &Vec<u8>, pos: usize, end: usize) -> (r: Result<
    (Property, usize),
    Error,
>)
    requires
        end <= buf@.len(),
        pos < end,
        buf@[pos as int] <= 22,
    ensures
        (match r {
            Ok((p, np)) => spec_parse_property(buf@, pos as int, end as int) == Some(
                (p@, np as int),
            ) && pos < np <= end,
            Err(e) => e == Error::MalformedPacket && spec_parse_property(
                buf@,
                pos as int,
                end as int,
            ) is None,
        }),
{
    let id: u8 = buf[pos];
    let p1 = pos + 1;
    match id {
        1u8 => match read_byte(buf, p1, end) {
            Ok((v, np)) => Ok((Property::PayloadFormatIndicator(v), np)),
            Err(e) => Err(e),
        },
        2u8 => match read_u32(buf, p1, end) {
            Ok((v, np)) => Ok((Property::MessageExpiryInterval(v), np)),
            Err(e) => Err(e),
        },
        3u8 => match decode_string(buf, p1, end) {
            Ok((v, np)) => Ok((Property::ContentType(v), np)),
            Err(e) => Err(e),
        },
        8u8 => match decode_string(buf, p1, end) {
            Ok((v, np)) => Ok((Property::ResponseTopic(v), np)),
            Err(e) => Err(e),
        },
        9u8 => match decode_binary_data(buf, p1, end) {
            Ok((v, np)) => Ok((Property::CorrelationData(v), np)),
            Err(e) => Err(e),
        },
        11u8 => match decode_varint_in(buf, p1, end) {
            Ok((v, np)) => Ok(
                (Property::SubscriptionIdentifier(VariableByteInteger { data: v }), np),
            ),
            Err(e) => Err(e),
        },
        17u8 => match read_u32(buf, p1, end) {
            Ok((v, np)) => Ok((Property::SessionExpiryInterval(v), np)),
            Err(e) => Err(e),
        },
        18u8 => match decode_string(buf, p1, end) {
            Ok((v, np)) => Ok((Property::AssignedClientIdentifier(v), np)),
            Err(e) => Err(e),
        },
        19u8 => match read_u16(buf, p1, end) {
            Ok((v, np)) => Ok((Property::ServerKeepAlive(v), np)),
            Err(e) => Err(e),
        },
        21u8 => match decode_string(buf, p1, end) {
            Ok((v, np)) => Ok((Property::AuthenticationMethod(v), np)),
            Err(e) => Err(e),
        },
        22u8 => match decode_binary_data(buf, p1, end) {
            Ok((v, np)) => Ok((Property::AuthenticationData(v), np)),
            Err(e) => Err(e),
        },
        _ => Err(Error::MalformedPacket),
    }
}

#[verifier::rlimit(100)]
fn decode_property_high(buf: &Vec<u8>, pos: usize, end: usize) -> (r: Result<
    (Property, usize),
    Error,
>)
    requires
        end <= buf@.len(),
        pos < end,
        buf@[pos as int] > 22,
    ensures
        (match r {
            Ok((p, np)) => spec_parse_property(buf@, pos as int, end as int) == Some(
                (p@, np as int),
            ) && pos < np <= end,
            Err(e) => e == Error::MalformedPacket && spec_parse_property(
                buf@,
                pos as int,
                end as int,
            ) is None,
        }),
{
    let id: u8 = buf[pos];
    let p1 = pos + 1;
    match id {
        23u8 => match read_byte(buf, p1, end) {
            Ok((v, np)) => Ok((Property::RequestProblemInformation(v), np)),
            Err(e) => Err(e),
        },
        24u8 => match read_u32(buf, p1, end) {
            Ok((v, np)) => Ok((Property::WillDelayInterval(v), np)),
            Err(e) => Err(e),
        },
        25u8 => match read_byte(buf, p1, end) {
            Ok((v, np)) => Ok((Property::RequestResponseInformation(v), np)),
            Err(e) => Err(e),
        },
        26u8 => match decode_string(buf, p1, end) {
            Ok((v, np)) => Ok((Property::ResponseInformation(v), np)),
            Err(e) => Err(e),
        },
        28u8 => match decode_string(buf, p1, end) {
            Ok((v, np)) => Ok((Property::ServerReference(v), np)),
            Err(e) => Err(e),
        },
        31u8 => match decode_string(buf, p1, end) {
            Ok((v, np)) => Ok((Property::ReasonString(v), np)),
            Err(e) => Err(e),
        },
        33u8 => match read_u16(buf, p1, end) {
            Ok((v, np)) => Ok((Property::ReceiveMaximum(v), np)),
            Err(e) => Err(e),
        },
        34u8 => match read_u16(buf, p1, end) {
            Ok((v, np)) => Ok((Property::TopicAliasMaximum(v), np)),
            Err(e) => Err(e),
        },
        35u8 => match read_u16(buf, p1, end) {
            Ok((v, np)) => Ok((Property::TopicAlias(v), np)),
            Err(e) => Err(e),
        },
        36u8 => match read_byte(buf, p1, end) {
            Ok((v, np)) => match crate::definitions::Qos::from_u8(v) {
                Some(q) => Ok((Property::MaximumQoS(q), np)),
                None => Err(Error::MalformedPacket),
            },
            Err(e) => Err(e),
        },
        37u8 => match read_byte(buf, p1, end) {
            Ok((v, np)) => Ok((Property::RetainAvailable(v), np)),
            Err(e) => Err(e),
        },
        38u8 => match decode_string(buf, p1, end) {
            Ok((v, np)) => Ok((Property::UserProperty(v), np)),
            Err(e) => Err(e),
        },
        39u8 => match read_u32(buf, p1, end) {
            Ok((v, np)) => Ok((Property::MaximumPacketSize(v), np)),
            Err(e) => Err(e),
        },
        40u8 => match read_byte(buf, p1, end) {
            Ok((v, np)) => Ok((Property::WildcardSubscriptionAvailable(v), np)),
            Err(e) => Err(e),
        },
        41u8 => match read_byte(buf, p1, end) {
            Ok((v, np)) => Ok((Property::SubscriptionIdentifierAvailable(v), np)),
            Err(e) => Err(e),
        },
        42u8 => match read_byte(buf, p1, end) {
            Ok((v, np)) => Ok((Property::SharedSubscriptionAvailable(v), np)),
            Err(e) => Err(e),
        },
        _ => Err(Error::MalformedPacket),
    }
}

/// Reads one byte.
pub fn read_byte(buf: &Vec<u8>, pos: usize, end: usize) -> (r: Result<(u8, usize), Error>)
    requires
        end <= buf@.len(),
    ensures
        (match r {
            Ok((v, np)) => spec_parse_byte(buf@, pos as int, end as int) == Some((v, np as int))
                && pos < np <= end,
            Err(e) => e == Error::MalformedPacket && spec_parse_byte(buf@, pos as int, end as int)
                is None,
        }),
{
    if pos >= end {
        return Err(Error::MalformedPacket);
    }
    Ok((buf[pos], pos + 1))
}

/// Reads properties back to back until exactly `end`.
pub fn decode_property_list(buf: &Vec<u8>, pos: usize, end: usize) -> (r: Result<
    (Vec<Property>, usize),
    Error,
>)
    requires
        pos <= end <= buf@.len(),
    ensures
        (match r {
            Ok((ps, np)) => spec_parse_property_list(buf@, pos as int, end as int) == Some(
                (props_view(ps@), np as int),
            ) && np == end,
            Err(e) => e == Error::MalformedPacket && spec_parse_property_list(
                buf@,
                pos as int,
                end as int,
            ) is None,
        }),
    decreases end - pos,
{
    if pos == end {
        let ps: Vec<Property> = Vec::new();
        proof {
            assert(props_view(ps@) =~= Seq::<PropertyView>::empty());
        }
        return Ok((ps, pos));
    }
    let (p, np) = match decode_property(buf, pos, end) {
        Ok(x) => x,
        Err(e) => {
            return Err(e);
        },
    };
    let (mut ps, e2) = match decode_property_list(buf, np, end) {
        Ok(x) => x,
        Err(e) => {
            return Err(e);
        },
    };
    let ghost old_ps = ps@;
    let ghost pview = p@;
    ps.insert(0, p);
    proof {
        assert(ps@ =~= seq![p] + old_ps);
        assert(props_view(ps@) =~= seq![pview] + props_view(old_ps));
    }
    Ok((ps, e2))
}

/// Reads a property block: a varint byte count, then exactly that many
/// bytes of properties.
pub fn decode_properties(buf: &Vec<u8>, pos: usize, end: usize) -> (r: Result<
    (Vec<Property>, usize),
    Error,
>)
    requires
        end <= buf@.len(),
    ensures
        (match r {
            Ok((ps, np)) => spec_parse_properties(buf@, pos as int, end as int) == Some(
                (props_view(ps@), np as int),
            ) && pos < np <= end,
            Err(e) => e == Error::MalformedPacket && spec_parse_properties(
                buf@,
                pos as int,
                end as int,
            ) is None,
        }),
{
    let (len, np) = match decode_varint_in(buf, pos, end) {
        Ok(x) => x,
        Err(e) => {
            return Err(e);
        },
    };
    if len as usize > end - np {
        return Err(Error::MalformedPacket);
    }
    let (ps, _e2) = match decode_property_list(buf, np, np + len as usize) {
        Ok(x) => x,
        Err(e) => {
            return Err(e);
        },
    };
    Ok((ps, np + len as usize))
}

/// CONNECT variable header: protocol name and version, connect flags,
/// keep-alive, properties.
pub open spec fn spec_parse_connect_vh(s: Seq<u8>, pos: int, end: int) -> Option<
    (crate::packet::ConnectVariableHeaderView, int),
> {
    match spec_parse_string(s, pos, end) {
        Some((pname, p1)) => match spec_parse_byte(s, p1, end) {
            Some((version, p2)) => match spec_parse_byte(s, p2, end) {
                Some((flagsb, p3)) => match spec_parse_u16(s, p3, end) {
                    Some((keep_alive, p4)) => match spec_parse_properties(s, p4, end) {
                        Some((props, p5)) => Some(
                            (
                                crate::packet::ConnectVariableHeaderView {
                                    protocol_name: pname,
                                    protocol_version: version,
                                    connect_flag: spec_connect_flags(flagsb),
                                    keep_alive: keep_alive,
                                    properties: props,
                                },
                                p5,
                            ),
                        ),
                        None => None,
                    },
                    None => None,
                },
                None => None,
            },
            None => None,
        },
        None => None,
    }
}

/// CONNECT payload: client identifier, then will, user name and password
/// fields as the connect flags call for them.
pub open spec fn spec_parse_connect_payload(
    s: Seq<u8>,
    pos: int,
    end: int,
    f: ConnectFlags,
) -> Option<(crate::packet::ConnectPayloadView, int)> {
    match spec_parse_string(s, pos, end) {
        Some((cid, p1)) => {
            let will = if f.will_flag {
                match spec_parse_properties(s, p1, end) {
                    Some((wprops, q1)) => match spec_parse_string(s, q1, end) {
                        Some((wtopic, q2)) => match spec_parse_binary(s, q2, end) {
                            Some((wpayload, q3)) => Some((wprops, Some(wtopic), Some(wpayload), q3)),
                            None => None,
                        },
                        None => None,
                    },
                    None => None,
                }
            } else {
                Some((Seq::<PropertyView>::empty(), None, None, p1))
            };
            match will {
                Some((wprops, wtopic, wpayload, p2)) => {
                    let user = if f.user_name_flag {
                        match spec_parse_string(s, p2, end) {
                            Some((u, q)) => Some((Some(u), q)),
                            None => None,
                        }
                    } else {
                        Some((None, p2))
                    };
                    match user {
                        Some((uname, p3)) => {
                            let pass = if f.password_flag {
                                match spec_parse_binary(s, p3, end) {
                                    Some((pw, q)) => Some((Some(pw), q)),
                                    None => None,
                                }
                            } else {
                                Some((None, p3))
                            };
                            match pass {
                                Some((pword, p4)) => Some(
                                    (
                                        crate::packet::ConnectPayloadView {
                                            client_identifier: cid,
                                            will_properties: wprops,
                                            will_topic: wtopic,
                                            will_payload: wpayload,
                                            user_name: uname,
                                            password: pword,
                                        },
                                        p4,
                                    ),
                                ),
                                None => None,
                            }
                        },
                        None => None,
                    }
                },
                None => None,
            }
        },
        None => None,
    }
}

pub open spec fn spec_parse_connect(s: Seq<u8>, pos: int, end: int) -> Option<
    (crate::packet::ConnectControlPacketView, int),
> {
    match spec_parse_connect_vh(s, pos, end) {
        Some((vh, p1)) => match spec_parse_connect_payload(s, p1, end, vh.connect_flag) {
            Some((pl, p2)) => Some(
                (crate::packet::ConnectControlPacketView { variable_header: vh, payload: pl }, p2),
            ),
            None => None,
        },
        None => None,
    }
}

/// Reads the CONNECT variable header.
pub fn decode_connect_variable_header(buf: &Vec<u8>, pos: usize, end: usize) -> (r: Result<
    (crate::packet::ConnectVariableHeader, usize),
    Error,
>)
    requires
        end <= buf@.len(),
    ensures
        (match r {
            Ok((vh, np)) => spec_parse_connect_vh(buf@, pos as int, end as int) == Some(
                (vh@, np as int),
            ) && pos < np <= end,
            Err(e) => e == Error::MalformedPacket && spec_parse_connect_vh(
                buf@,
                pos as int,
                end as int,
            ) is None,
        }),
{
    let (pname, p1) = match decode_string(buf, pos, end) {
        Ok(x) => x,
        Err(e) => {
            return Err(e);
        },
    };
    let (version, p2) = match read_byte(buf, p1, end) {
        Ok(x) => x,
        Err(e) => {
            return Err(e);
        },
    };
    let (flagsb, p3) = match read_byte(buf, p2, end) {
        Ok(x) => x,
        Err(e) => {
            return Err(e);
        },
    };
    let (keep_alive, p4) = match read_u16(buf, p3, end) {
        Ok(x) => x,
        Err(e) => {
            return Err(e);
        },
    };
    let (props, p5) = match decode_properties(buf, p4, end) {
        Ok(x) => x,
        Err(e) => {
            return Err(e);
        },
    };
    Ok(
        (
            crate::packet::ConnectVariableHeader {
                protocol_name: pname,
                protocol_version: version,
                connect_flag: ConnectFlags::new(flagsb),
                keep_alive: keep_alive,
                properties: props,
            },
            p5,
        ),
    )
}

/// Reads the CONNECT payload, guided by the connect flags.
pub fn decode_connect_payload(buf: &Vec<u8>, pos: usize, end: usize, connect_flag: ConnectFlags)
    -> (r: Result<(crate::packet::ConnectPayload, usize), Error>)
    requires
        end <= buf@.len(),
    ensures
        (match r {
            Ok((pl, np)) => spec_parse_connect_payload(buf@, pos as int, end as int, connect_flag)
                == Some((pl@, np as int)) && pos < np <= end,
            Err(e) => e == Error::MalformedPacket && spec_parse_connect_payload(
                buf@,
                pos as int,
                end as int,
                connect_flag,
            ) is None,
        }),
{
    let (cid, p1) = match decode_string(buf, pos, end) {
        Ok(x) => x,
        Err(e) => {
            return Err(e);
        },
    };
    let mut will_properties: Vec<Property> = Vec::new();
    let mut will_topic: Option<Vec<u8>> = None;
    let mut will_payload: Option<Vec<u8>> = None;
    let mut p2: usize = p1;
    if connect_flag.will_flag {
        let (wprops, q1) = match decode_properties(buf, p1, end) {
            Ok(x) => x,
            Err(e) => {
                return Err(e);
            },
        };
        let (wtopic, q2) = match decode_string(buf, q1, end) {
            Ok(x) => x,
            Err(e) => {
                return Err(e);
            },
        };
        let (wpayload, q3) = match decode_binary_data(buf, q2, end) {
            Ok(x) => x,
            Err(e) => {
                return Err(e);
            },
        };
        will_properties = wprops;
        will_topic = Some(wtopic);
        will_payload = Some(wpayload);
        p2 = q3;
    }
    let mut user_name: Option<Vec<u8>> = None;
    let mut p3: usize = p2;
    if connect_flag.user_name_flag {
        let (u, q) = match decode_string(buf, p2, end) {
            Ok(x) => x,
            Err(e) => {
                return Err(e);
            },
        };
        user_name = Some(u);
        p3 = q;
    }
    let mut password: Option<Vec<u8>> = None;
    let mut p4: usize = p3;
    if connect_flag.password_flag {
        let (pw, q) = match decode_binary_data(buf, p3, end) {
            Ok(x) => x,
            Err(e) => {
                return Err(e);
            },
        };
        password = Some(pw);
        p4 = q;
    }
    proof {
        if !connect_flag.will_flag {
            assert(will_properties@ =~= Seq::<Property>::empty());
            assert(props_view(will_properties@) =~= Seq::<PropertyView>::empty());
        }
    }
    Ok(
        (
            crate::packet::ConnectPayload {
                client_identifier: cid,
                will_properties,
                will_topic,
                will_payload,
                user_name,
                password,
            },
            p4,
        ),
    )
}

/// Reads a whole CONNECT body.
pub fn decode_connect_packet(buf: &Vec<u8>, pos: usize, end: usize) -> (r: Result<
    (crate::packet::ConnectControlPacket, usize),
    Error,
>)
    requires
        end <= buf@.len(),
    ensures
        (match r {
            Ok((p, np)) => spec_parse_connect(buf@, pos as int, end as int) == Some(
                (p@, np as int),
            ) && pos < np <= end,
            Err(e) => e == Error::MalformedPacket && spec_parse_connect(
                buf@,
                pos as int,
                end as int,
            ) is None,
        }),
{
    let (vh, p1) = match decode_connect_variable_header(buf, pos, end) {
        Ok(x) => x,
        Err(e) => {
            return Err(e);
        },
    };
    let flags = vh.connect_flag;
    let (pl, p2) = match decode_connect_payload(buf, p1, end, flags) {
        Ok(x) => x,
        Err(e) => {
            return Err(e);
        },
    };
    Ok((crate::packet::ConnectControlPacket { variable_header: vh, payload: pl }, p2))
}

/// CONNACK body: acknowledge flags, reason code, properties.
pub open spec fn spec_parse_conn_ack(s: Seq<u8>, pos: int, end: int) -> Option<
    (crate::packet::ConnAckControlPacketView, int),
> {
    match spec_parse_byte(s, pos, end) {
        Some((fb, p1)) => match spec_parse_byte(s, p1, end) {
            Some((rb, p2)) => match spec_conn_ack_reason_from_u8(rb) {
                Some(rc) => match spec_parse_properties(s, p2, end) {
                    Some((props, p3)) => Some(
                        (
                            crate::packet::ConnAckControlPacketView {
                                conn_ack_flag: spec_conn_ack_flags(fb),
                                reason_code: rc,
                                properties: props,
                            },
                            p3,
                        ),
                    ),
                    None => None,
                },
                None => None,
            },
            None => None,
        },
        None => None,
    }
}

/// Reads a CONNACK body.
pub fn decode_conn_ack_packet(buf: &Vec<u8>, pos: usize, end: usize) -> (r: Result<
    (crate::packet::ConnAckControlPacket, usize),
    Error,
>)
    requires
        end <= buf@.len(),
    ensures
        (match r {
            Ok((p, np)) => spec_parse_conn_ack(buf@, pos as int, end as int) == Some(
                (p@, np as int),
            ) && pos < np <= end,
            Err(e) => e == Error::MalformedPacket && spec_parse_conn_ack(
                buf@,
                pos as int,
                end as int,
            ) is None,
        }),
{
    let (fb, p1) = match read_byte(buf, pos, end) {
        Ok(x) => x,
        Err(e) => {
            return Err(e);
        },
    };
    let (rb, p2) = match read_byte(buf, p1, end) {
        Ok(x) => x,
        Err(e) => {
            return Err(e);
        },
    };
    let rc = match ConnAckReasonCode::from_u8(rb) {
        Some(rc) => rc,
        None => {
            return Err(Error::MalformedPacket);
        },
    };
    let (props, p3) = match decode_properties(buf, p2, end) {
        Ok(x) => x,
        Err(e) => {
            return Err(e);
        },
    };
    Ok(
        (
            crate::packet::ConnAckControlPacket {
                conn_ack_flag: ConnAckFlags::new(fb),
                reason_code: rc,
                properties: props,
            },
            p3,
        ),
    )
}

/// PUBLISH body: a non-empty wildcard-free topic name, the packet
/// identifier exactly when `has_pid`, properties, then the rest of the
/// frame as payload.
pub open spec fn spec_parse_publish(s: Seq<u8>, pos: int, end: int, has_pid: bool) -> Option<
    (crate::packet::PublishControlPacketView, int),
> {
    match spec_parse_string(s, pos, end) {
        Some((topic, p1)) => if topic.len() > 0 && crate::frame::encoder::no_wildcards(topic) {
            let pid_step = if has_pid {
                match spec_parse_u16(s, p1, end) {
                    Some((pid, q)) => Some((Some(pid), q)),
                    None => None,
                }
            } else {
                Some((None::<u16>, p1))
            };
            match pid_step {
                Some((pid, p2)) => match spec_parse_properties(s, p2, end) {
                    Some((props, p3)) => Some(
                        (
                            crate::packet::PublishControlPacketView {
                                topic_name: topic,
                                packet_identifier: pid,
                                properties: props,
                                payload: s.subrange(p3, end),
                            },
                            end,
                        ),
                    ),
                    None => None,
                },
                None => None,
            }
        } else {
            None
        },
        None => None,
    }
}

/// Reads a PUBLISH body; `qos` comes from the fixed-header flags.
pub fn decode_publish_packet(buf: &Vec<u8>, pos: usize, end: usize, qos: u8) -> (r: Result<
    (crate::packet::PublishControlPacket, usize),
    Error,
>)
    requires
        end <= buf@.len(),
    ensures
        (match r {
            Ok((p, np)) => spec_parse_publish(buf@, pos as int, end as int, qos > 0) == Some(
                (p@, np as int),
            ) && pos < np <= end && np == end,
            Err(e) => e == Error::MalformedPacket && spec_parse_publish(
                buf@,
                pos as int,
                end as int,
                qos > 0,
            ) is None,
        }),
{
    let (topic, p1) = match decode_string(buf, pos, end) {
        Ok(x) => x,
        Err(e) => {
            return Err(e);
        },
    };
    if topic.len() == 0 {
        return Err(Error::MalformedPacket);
    }
    let mut i: usize = 0;
    while i < topic.len()
        invariant
            i <= topic@.len(),
            end <= buf@.len(),
            spec_parse_string(buf@, pos as int, end as int) == Some((topic@, p1 as int)),
            forall|j: int| 0 <= j < i ==> topic@[j] != 0x2B && topic@[j] != 0x23,
        decreases topic@.len() - i,
    {
        let b = topic[i];
        if b == 0x2B || b == 0x23 {
            proof {
                assert(topic@[i as int] == b);
                assert(!crate::frame::encoder::no_wildcards(topic@));
            }
            return Err(Error::MalformedPacket);
        }
        i = i + 1;
    }
    let mut packet_identifier: Option<u16> = None;
    let mut p2: usize = p1;
    if qos > 0 {
        let (pid, q) = match read_u16(buf, p1, end) {
            Ok(x) => x,
            Err(e) => {
                return Err(e);
            },
        };
        packet_identifier = Some(pid);
        p2 = q;
    }
    let (props, p3) = match decode_properties(buf, p2, end) {
        Ok(x) => x,
        Err(e) => {
            return Err(e);
        },
    };
    let payload = copy_range(buf, p3, end);
    Ok(
        (
            crate::packet::PublishControlPacket {
                topic_name: topic,
                packet_identifier,
                properties: props,
                payload,
            },
            end,
        ),
    )
}

/// PUBACK body: packet identifier, then an optional reason code
/// (defaulting to Success) and optional properties.
pub open spec fn spec_parse_pub_ack(s: Seq<u8>, pos: int, end: int) -> Option<
    (crate::packet::PubAckControlPacketView, int),
> {
    match spec_parse_u16(s, pos, end) {
        Some((pid, p1)) => if p1 == end {
            Some(
                (
                    crate::packet::PubAckControlPacketView {
                        packet_identifier: pid,
                        reason_code: PubAckReasonCode::Success,
                        properties: Seq::empty(),
                    },
                    end,
                ),
            )
        } else {
            match spec_parse_byte(s, p1, end) {
                Some((rb, p2)) => match spec_pub_ack_reason_from_u8(rb) {
                    Some(rc) => if p2 == end {
                        Some(
                            (
                                crate::packet::PubAckControlPacketView {
                                    packet_identifier: pid,
                                    reason_code: rc,
                                    properties: Seq::empty(),
                                },
                                end,
                            ),
                        )
                    } else {
                        match spec_parse_properties(s, p2, end) {
                            Some((props, p3)) => Some(
                                (
                                    crate::packet::PubAckControlPacketView {
                                        packet_identifier: pid,
                                        reason_code: rc,
                                        properties: props,
                                    },
                                    p3,
                                ),
                            ),
                            None => None,
                        }
                    },
                    None => None,
                },
                None => None,
            }
        },
        None => None,
    }
}

/// Reads a PUBACK body.
pub fn decode_pub_ack_packet(buf: &Vec<u8>, pos: usize, end: usize) -> (r: Result<
    (crate::packet::PubAckControlPacket, usize),
    Error,
>)
    requires
        end <= buf@.len(),
    ensures
        (match r {
            Ok((p, np)) => spec_parse_pub_ack(buf@, pos as int, end as int) == Some(
                (p@, np as int),
            ) && pos < np <= end,
            Err(e) => e == Error::MalformedPacket && spec_parse_pub_ack(
                buf@,
                pos as int,
                end as int,
            ) is None,
        }),
{
    let (pid, p1) = match read_u16(buf, pos, end) {
        Ok(x) => x,
        Err(e) => {
            return Err(e);
        },
    };
    if p1 == end {
        let props: Vec<Property> = Vec::new();
        proof {
            assert(props_view(props@) =~= Seq::<PropertyView>::empty());
        }
        return Ok(
            (
                crate::packet::PubAckControlPacket {
                    packet_identifier: pid,
                    reason_code: PubAckReasonCode::Success,
                    properties: props,
                },
                end,
            ),
        );
    }
    let (rb, p2) = match read_byte(buf, p1, end) {
        Ok(x) => x,
        Err(e) => {
            return Err(e);
        },
    };
    let rc = match PubAckReasonCode::from_u8(rb) {
        Some(rc) => rc,
        None => {
            return Err(Error::MalformedPacket);
        },
    };
    if p2 == end {
        let props: Vec<Property> = Vec::new();
        proof {
            assert(props_view(props@) =~= Seq::<PropertyView>::empty());
        }
        return Ok(
            (
                crate::packet::PubAckControlPacket {
                    packet_identifier: pid,
                    reason_code: rc,
                    properties: props,
                },
                end,
            ),
        );
    }
    let (props, p3) = match decode_properties(buf, p2, end) {
        Ok(x) => x,
        Err(e) => {
            return Err(e);
        },
    };
    Ok(
        (
            crate::packet::PubAckControlPacket {
                packet_identifier: pid,
                reason_code: rc,
                properties: props,
            },
            p3,
        ),
    )
}

/// PUBREC body: packet identifier, then an optional reason code
/// (defaulting to Success) and optional properties.
pub open spec fn spec_parse_pub_rec(s: Seq<u8>, pos: int, end: int) -> Option<
    (crate::packet::PubRecControlPacketView, int),
> {
    match spec_parse_u16(s, pos, end) {
        Some((pid, p1)) => if p1 == end {
            Some(
                (
                    crate::packet::PubRecControlPacketView {
                        packet_identifier: pid,
                        reason_code: PubRecReasonCode::Success,
                        properties: Seq::empty(),
                    },
                    end,
                ),
            )
        } else {
            match spec_parse_byte(s, p1, end) {
                Some((rb, p2)) => match spec_pub_rec_reason_from_u8(rb) {
                    Some(rc) => if p2 == end {
                        Some(
                            (
                                crate::packet::PubRecControlPacketView {
                                    packet_identifier: pid,
                                    reason_code: rc,
                                    properties: Seq::empty(),
                                },
                                end,
                            ),
                        )
                    } else {
                        match spec_parse_properties(s, p2, end) {
                            Some((props, p3)) => Some(
                                (
                                    crate::packet::PubRecControlPacketView {
                                        packet_identifier: pid,
                                        reason_code: rc,
                                        properties: props,
                                    },
                                    p3,
                                ),
                            ),
                            None => None,
                        }
                    },
                    None => None,
                },
                None => None,
            }
        },
        None => None,
    }
}

/// Reads a PUBREC body.
pub fn decode_pub_rec_packet(buf: &Vec<u8>, pos: usize, end: usize) -> (r: Result<
    (crate::packet::PubRecControlPacket, usize),
    Error,
>)
    requires
        end <= buf@.len(),
    ensures
        (match r {
            Ok((p, np)) => spec_parse_pub_rec(buf@, pos as int, end as int) == Some(
                (p@, np as int),
            ) && pos < np <= end,
            Err(e) => e == Error::MalformedPacket && spec_parse_pub_rec(
                buf@,
                pos as int,
                end as int,
            ) is None,
        }),
{
    let (pid, p1) = match read_u16(buf, pos, end) {
        Ok(x) => x,
        Err(e) => {
            return Err(e);
        },
    };
    if p1 == end {
        let props: Vec<Property> = Vec::new();
        proof {
            assert(props_view(props@) =~= Seq::<PropertyView>::empty());
        }
        return Ok(
            (
                crate::packet::PubRecControlPacket {
                    packet_identifier: pid,
                    reason_code: PubRecReasonCode::Success,
                    properties: props,
                },
                end,
            ),
        );
    }
    let (rb, p2) = match read_byte(buf, p1, end) {
        Ok(x) => x,
        Err(e) => {
            return Err(e);
        },
    };
    let rc = match PubRecReasonCode::from_u8(rb) {
        Some(rc) => rc,
        None => {
            return Err(Error::MalformedPacket);
        },
    };
    if p2 == end {
        let props: Vec<Property> = Vec::new();
        proof {
            assert(props_view(props@) =~= Seq::<PropertyView>::empty());
        }
        return Ok(
            (
                crate::packet::PubRecControlPacket {
                    packet_identifier: pid,
                    reason_code: rc,
                    properties: props,
                },
                end,
            ),
        );
    }
    let (props, p3) = match decode_properties(buf, p2, end) {
        Ok(x) => x,
        Err(e) => {
            return Err(e);
        },
    };
    Ok(
        (
            crate::packet::PubRecControlPacket {
                packet_identifier: pid,
                reason_code: rc,
                properties: props,
            },
            p3,
        ),
    )
}

/// PUBREL body: packet identifier, then an optional reason code
/// (defaulting to Success) and optional properties.
pub open spec fn spec_parse_pub_rel(s: Seq<u8>, pos: int, end: int) -> Option<
    (crate::packet::PubRelControlPacketView, int),
> {
    match spec_parse_u16(s, pos, end) {
        Some((pid, p1)) => if p1 == end {
            Some(
                (
                    crate::packet::PubRelControlPacketView {
                        packet_identifier: pid,
                        reason_code: PubRelReasonCode::Success,
                        properties: Seq::empty(),
                    },
                    end,
                ),
            )
        } else {
            match spec_parse_byte(s, p1, end) {
                Some((rb, p2)) => match spec_pub_rel_reason_from_u8(rb) {
                    Some(rc) => if p2 == end {
                        Some(
                            (
                                crate::packet::PubRelControlPacketView {
                                    packet_identifier: pid,
                                    reason_code: rc,
                                    properties: Seq::empty(),
                                },
                                end,
                            ),
                        )
                    } else {
                        match spec_parse_properties(s, p2, end) {
                            Some((props, p3)) => Some(
                                (
                                    crate::packet::PubRelControlPacketView {
                                        packet_identifier: pid,
                                        reason_code: rc,
                                        properties: props,
                                    },
                                    p3,
                                ),
                            ),
                            None => None,
                        }
                    },
                    None => None,
                },
                None => None,
            }
        },
        None => None,
    }
}

/// Reads a PUBREL body.
pub fn decode_pub_rel_packet(buf: &Vec<u8>, pos: usize, end: usize) -> (r: Result<
    (crate::packet::PubRelControlPacket, usize),
    Error,
>)
    requires
        end <= buf@.len(),
    ensures
        (match r {
            Ok((p, np)) => spec_parse_pub_rel(buf@, pos as int, end as int) == Some(
                (p@, np as int),
            ) && pos < np <= end,
            Err(e) => e == Error::MalformedPacket && spec_parse_pub_rel(
                buf@,
                pos as int,
                end as int,
            ) is None,
        }),
{
    let (pid, p1) = match read_u16(buf, pos, end) {
        Ok(x) => x,
        Err(e) => {
            return Err(e);
        },
    };
    if p1 == end {
        let props: Vec<Property> = Vec::new();
        proof {
            assert(props_view(props@) =~= Seq::<PropertyView>::empty());
        }
        return Ok(
            (
                crate::packet::PubRelControlPacket {
                    packet_identifier: pid,
                    reason_code: PubRelReasonCode::Success,
                    properties: props,
                },
                end,
            ),
        );
    }
    let (rb, p2) = match read_byte(buf, p1, end) {
        Ok(x) => x,
        Err(e) => {
            return Err(e);
        },
    };
    let rc = match PubRelReasonCode::from_u8(rb) {
        Some(rc) => rc,
        None => {
            return Err(Error::MalformedPacket);
        },
    };
    if p2 == end {
        let props: Vec<Property> = Vec::new();
        proof {
            assert(props_view(props@) =~= Seq::<PropertyView>::empty());
        }
        return Ok(
            (
                crate::packet::PubRelControlPacket {
                    packet_identifier: pid,
                    reason_code: rc,
                    properties: props,
                },
                end,
            ),
        );
    }
    let (props, p3) = match decode_properties(buf, p2, end) {
        Ok(x) => x,
        Err(e) => {
            return Err(e);
        },
    };
    Ok(
        (
            crate::packet::PubRelControlPacket {
                packet_identifier: pid,
                reason_code: rc,
                properties: props,
            },
            p3,
        ),
    )
}

/// PUBCOMP body: packet identifier, then an optional reason code
/// (defaulting to Success) and optional properties.
pub open spec fn spec_parse_pub_comp(s: Seq<u8>, pos: int, end: int) -> Option<
    (crate::packet::PubCompControlPacketView, int),
> {
    match spec_parse_u16(s, pos, end) {
        Some((pid, p1)) => if p1 == end {
            Some(
                (
                    crate::packet::PubCompControlPacketView {
                        packet_identifier: pid,
                        reason_code: PubCompReasonCode::Success,
                        properties: Seq::empty(),
                    },
                    end,
                ),
            )
        } else {
            match spec_parse_byte(s, p1, end) {
                Some((rb, p2)) => match spec_pub_comp_reason_from_u8(rb) {
                    Some(rc) => if p2 == end {
                        Some(
                            (
                                crate::packet::PubCompControlPacketView {
                                    packet_identifier: pid,
                                    reason_code: rc,
                                    properties: Seq::empty(),
                                },
                                end,
                            ),
                        )
                    } else {
                        match spec_parse_properties(s, p2, end) {
                            Some((props, p3)) => Some(
                                (
                                    crate::packet::PubCompControlPacketView {
                                        packet_identifier: pid,
                                        reason_code: rc,
                                        properties: props,
                                    },
                                    p3,
                                ),
                            ),
                            None => None,
                        }
                    },
                    None => None,
                },
                None => None,
            }
        },
        None => None,
    }
}

/// Reads a PUBCOMP body.
pub fn decode_pub_comp_packet(buf: &Vec<u8>, pos: usize, end: usize) -> (r: Result<
    (crate::packet::PubCompControlPacket, usize),
    Error,
>)
    requires
        end <= buf@.len(),
    ensures
        (match r {
            Ok((p, np)) => spec_parse_pub_comp(buf@, pos as int, end as int) == Some(
                (p@, np as int),
            ) && pos < np <= end,
            Err(e) => e == Error::MalformedPacket && spec_parse_pub_comp(
                buf@,
                pos as int,
                end as int,
            ) is None,
        }),
{
    let (pid, p1) = match read_u16(buf, pos, end) {
        Ok(x) => x,
        Err(e) => {
            return Err(e);
        },
    };
    if p1 == end {
        let props: Vec<Property> = Vec::new();
        proof {
            assert(props_view(props@) =~= Seq::<PropertyView>::empty());
        }
        return Ok(
            (
                crate::packet::PubCompControlPacket {
                    packet_identifier: pid,
                    reason_code: PubCompReasonCode::Success,
                    properties: props,
                },
                end,
            ),
        );
    }
    let (rb, p2) = match read_byte(buf, p1, end) {
        Ok(x) => x,
        Err(e) => {
            return Err(e);
        },
    };
    let rc = match PubCompReasonCode::from_u8(rb) {
        Some(rc) => rc,
        None => {
            return Err(Error::MalformedPacket);
        },
    };
    if p2 == end {
        let props: Vec<Property> = Vec::new();
        proof {
            assert(props_view(props@) =~= Seq::<PropertyView>::empty());
        }
        return Ok(
            (
                crate::packet::PubCompControlPacket {
                    packet_identifier: pid,
                    reason_code: rc,
                    properties: props,
                },
                end,
            ),
        );
    }
    let (props, p3) = match decode_properties(buf, p2, end) {
        Ok(x) => x,
        Err(e) => {
            return Err(e);
        },
    };
    Ok(
        (
            crate::packet::PubCompControlPacket {
                packet_identifier: pid,
                reason_code: rc,
                properties: props,
            },
            p3,
        ),
    )
}

/// Reads one subscription-options byte, rejecting reserved two-bit values.
pub fn decode_subscription_options(buf: &Vec<u8>, pos: usize, end: usize) -> (r: Result<
    (SubscriptionOptions, usize),
    Error,
>)
    requires
        end <= buf@.len(),
    ensures
        (match r {
            Ok((o, np)) => spec_parse_byte(buf@, pos as int, end as int) matches Some((b, q)) && q
                == np as int && spec_subscription_options_valid(b) && o
                == spec_subscription_options(b) && pos < np <= end,
            Err(e) => e == Error::MalformedPacket && (spec_parse_byte(buf@, pos as int, end as int)
                matches Some((b, _q)) ==> !spec_subscription_options_valid(b)),
        }),
{
    let (b, np) = match read_byte(buf, pos, end) {
        Ok(x) => x,
        Err(e) => {
            return Err(e);
        },
    };
    if b % 4 == 3 || (b / 16) % 4 == 3 {
        return Err(Error::MalformedPacket);
    }
    Ok((SubscriptionOptions::new(b), np))
}

/// SUBSCRIBE entries back to back until exactly `end`.
pub open spec fn spec_parse_sub_entries(s: Seq<u8>, pos: int, end: int) -> Option<
    (Seq<crate::packet::SubscribePayloadView>, int),
>
    decreases end - pos,
{
    if !(0 <= pos && pos <= end && end <= s.len()) {
        None
    } else if pos == end {
        Some((Seq::empty(), pos))
    } else {
        match spec_parse_string(s, pos, end) {
            Some((filter, p1)) => match spec_parse_byte(s, p1, end) {
                Some((b, p2)) => if spec_subscription_options_valid(b) && pos < p2 <= end {
                    match spec_parse_sub_entries(s, p2, end) {
                        Some((es, e2)) => Some(
                            (
                                seq![
                                    crate::packet::SubscribePayloadView {
                                        subscription_options: spec_subscription_options(b),
                                        topic_filter: filter,
                                    },
                                ] + es,
                                e2,
                            ),
                        ),
                        None => None,
                    }
                } else {
                    None
                },
                None => None,
            },
            None => None,
        }
    }
}

/// The view of a subscribe payload list.
pub open spec fn sub_entries_view(v: Seq<crate::packet::SubscribePayload>) -> Seq<
    crate::packet::SubscribePayloadView,
> {
    v.map_values(|p: crate::packet::SubscribePayload| p@)
}

/// Reads SUBSCRIBE entries back to back until exactly `end`.
pub fn decode_subscribe_payload(buf: &Vec<u8>, pos: usize, end: usize) -> (r: Result<
    (Vec<crate::packet::SubscribePayload>, usize),
    Error,
>)
    requires
        pos <= end <= buf@.len(),
    ensures
        (match r {
            Ok((es, np)) => spec_parse_sub_entries(buf@, pos as int, end as int) == Some(
                (sub_entries_view(es@), np as int),
            ) && np == end,
            Err(e) => e == Error::MalformedPacket && spec_parse_sub_entries(
                buf@,
                pos as int,
                end as int,
            ) is None,
        }),
    decreases end - pos,
{
    if pos == end {
        let es: Vec<crate::packet::SubscribePayload> = Vec::new();
        proof {
            assert(sub_entries_view(es@) =~= Seq::<crate::packet::SubscribePayloadView>::empty());
        }
        return Ok((es, pos));
    }
    let (filter, p1) = match decode_string(buf, pos, end) {
        Ok(x) => x,
        Err(e) => {
            return Err(e);
        },
    };
    let (opts, p2) = match decode_subscription_options(buf, p1, end) {
        Ok(x) => x,
        Err(e) => {
            return Err(e);
        },
    };
    let (mut es, e2) = match decode_subscribe_payload(buf, p2, end) {
        Ok(x) => x,
        Err(e) => {
            return Err(e);
        },
    };
    let entry = crate::packet::SubscribePayload { subscription_options: opts, topic_filter: filter };
    let ghost old_es = es@;
    let ghost eview = entry@;
    es.insert(0, entry);
    proof {
        assert(sub_entries_view(es@) =~= seq![eview] + sub_entries_view(old_es));
    }
    Ok((es, e2))
}

/// SUBSCRIBE body: packet identifier, properties, then one or more
/// (filter, options) entries to the end of the frame.
pub open spec fn spec_parse_subscribe(s: Seq<u8>, pos: int, end: int) -> Option<
    (crate::packet::SubscribeControlPacketView, int),
> {
    match spec_parse_u16(s, pos, end) {
        Some((pid, p1)) => match spec_parse_properties(s, p1, end) {
            Some((props, p2)) => match spec_parse_sub_entries(s, p2, end) {
                Some((es, p3)) => Some(
                    (
                        crate::packet::SubscribeControlPacketView {
                            packet_identifier: pid,
                            properties: props,
                            subscribe_payload: es,
                        },
                        p3,
                    ),
                ),
                None => None,
            },
            None => None,
        },
        None => None,
    }
}

/// Reads a SUBSCRIBE body.
pub fn decode_subscribe_packet(buf: &Vec<u8>, pos: usize, end: usize) -> (r: Result<
    (crate::packet::SubscribeControlPacket, usize),
    Error,
>)
    requires
        end <= buf@.len(),
    ensures
        (match r {
            Ok((p, np)) => spec_parse_subscribe(buf@, pos as int, end as int) == Some(
                (p@, np as int),
            ) && pos < np <= end,
            Err(e) => e == Error::MalformedPacket && spec_parse_subscribe(
                buf@,
                pos as int,
                end as int,
            ) is None,
        }),
{
    let (pid, p1) = match read_u16(buf, pos, end) {
        Ok(x) => x,
        Err(e) => {
            return Err(e);
        },
    };
    let (props, p2) = match decode_properties(buf, p1, end) {
        Ok(x) => x,
        Err(e) => {
            return Err(e);
        },
    };
    let (es, p3) = match decode_subscribe_payload(buf, p2, end) {
        Ok(x) => x,
        Err(e) => {
            return Err(e);
        },
    };
    Ok(
        (
            crate::packet::SubscribeControlPacket {
                packet_identifier: pid,
                properties: props,
                subscribe_payload: es,
            },
            p3,
        ),
    )
}

/// SUBACK reason codes back to back until exactly `end`.
pub open spec fn spec_parse_sub_ack_codes(s: Seq<u8>, pos: int, end: int) -> Option<
    (Seq<SubAckReasonCode>, int),
>
    decreases end - pos,
{
    if !(0 <= pos && pos <= end && end <= s.len()) {
        None
    } else if pos == end {
        Some((Seq::empty(), pos))
    } else {
        match crate::definitions::spec_sub_ack_reason_from_u8(s[pos]) {
            Some(rc) => match spec_parse_sub_ack_codes(s, pos + 1, end) {
                Some((cs, e2)) => Some((seq![rc] + cs, e2)),
                None => None,
            },
            None => None,
        }
    }
}

fn decode_sub_ack_codes(buf: &Vec<u8>, pos: usize, end: usize) -> (r: Result<
    (Vec<SubAckReasonCode>, usize),
    Error,
>)
    requires
        pos <= end <= buf@.len(),
    ensures
        (match r {
            Ok((cs, np)) => spec_parse_sub_ack_codes(buf@, pos as int, end as int) == Some(
                (cs@, np as int),
            ) && np == end,
            Err(e) => e == Error::MalformedPacket && spec_parse_sub_ack_codes(
                buf@,
                pos as int,
                end as int,
            ) is None,
        }),
    decreases end - pos,
{
    if pos == end {
        let cs: Vec<SubAckReasonCode> = Vec::new();
        proof {
            assert(cs@ =~= Seq::<SubAckReasonCode>::empty());
        }
        return Ok((cs, pos));
    }
    let rc = match SubAckReasonCode::from_u8(buf[pos]) {
        Some(rc) => rc,
        None => {
            return Err(Error::MalformedPacket);
        },
    };
    let (mut cs, e2) = match decode_sub_ack_codes(buf, pos + 1, end) {
        Ok(x) => x,
        Err(e) => {
            return Err(e);
        },
    };
    let ghost old_cs = cs@;
    cs.insert(0, rc);
    proof {
        assert(cs@ =~= seq![rc] + old_cs);
    }
    Ok((cs, e2))
}

/// SUBACK body: packet identifier, properties, then one reason code per
/// filter of the SUBSCRIBE.
pub open spec fn spec_parse_sub_ack(s: Seq<u8>, pos: int, end: int) -> Option<
    (crate::packet::SubAckControlPacketView, int),
> {
    match spec_parse_u16(s, pos, end) {
        Some((pid, p1)) => match spec_parse_properties(s, p1, end) {
            Some((props, p2)) => match spec_parse_sub_ack_codes(s, p2, end) {
                Some((cs, p3)) => Some(
                    (
                        crate::packet::SubAckControlPacketView {
                            packet_identifier: pid,
                            properties: props,
                            sub_ack_reason_codes: cs,
                        },
                        p3,
                    ),
                ),
                None => None,
            },
            None => None,
        },
        None => None,
    }
}

/// Reads a SUBACK body.
pub fn decode_sub_ack_packet(buf: &Vec<u8>, pos: usize, end: usize) -> (r: Result<
    (crate::packet::SubAckControlPacket, usize),
    Error,
>)
    requires
        end <= buf@.len(),
    ensures
        (match r {
            Ok((p, np)) => spec_parse_sub_ack(buf@, pos as int, end as int) == Some(
                (p@, np as int),
            ) && pos < np <= end,
            Err(e) => e == Error::MalformedPacket && spec_parse_sub_ack(
                buf@,
                pos as int,
                end as int,
            ) is None,
        }),
{
    let (pid, p1) = match read_u16(buf, pos, end) {
        Ok(x) => x,
        Err(e) => {
            return Err(e);
        },
    };
    let (props, p2) = match decode_properties(buf, p1, end) {
        Ok(x) => x,
        Err(e) => {
            return Err(e);
        },
    };
    let (cs, p3) = match decode_sub_ack_codes(buf, p2, end) {
        Ok(x) => x,
        Err(e) => {
            return Err(e);
        },
    };
    Ok(
        (
            crate::packet::SubAckControlPacket {
                packet_identifier: pid,
                properties: props,
                sub_ack_payload: crate::packet::SubAckPayload { sub_ack_reason_codes: cs },
            },
            p3,
        ),
    )
}

/// UNSUBSCRIBE topic filters back to back until exactly `end`.
pub open spec fn spec_parse_unsub_filters(s: Seq<u8>, pos: int, end: int) -> Option<
    (Seq<Seq<u8>>, int),
>
    decreases end - pos,
{
    if !(0 <= pos && pos <= end && end <= s.len()) {
        None
    } else if pos == end {
        Some((Seq::empty(), pos))
    } else {
        match spec_parse_string(s, pos, end) {
            Some((filter, p1)) => if pos < p1 <= end {
                match spec_parse_unsub_filters(s, p1, end) {
                    Some((fs, e2)) => Some((seq![filter] + fs, e2)),
                    None => None,
                }
            } else {
                None
            },
            None => None,
        }
    }
}

/// The view of a filter list.
pub open spec fn filters_view(v: Seq<Vec<u8>>) -> Seq<Seq<u8>> {
    v.map_values(|f: Vec<u8>| f@)
}

fn decode_unsub_filters(buf: &Vec<u8>, pos: usize, end: usize) -> (r: Result<
    (Vec<Vec<u8>>, usize),
    Error,
>)
    requires
        pos <= end <= buf@.len(),
    ensures
        (match r {
            Ok((fs, np)) => spec_parse_unsub_filters(buf@, pos as int, end as int) == Some(
                (filters_view(fs@), np as int),
            ) && np == end,
            Err(e) => e == Error::MalformedPacket && spec_parse_unsub_filters(
                buf@,
                pos as int,
                end as int,
            ) is None,
        }),
    decreases end - pos,
{
    if pos == end {
        let fs: Vec<Vec<u8>> = Vec::new();
        proof {
            assert(filters_view(fs@) =~= Seq::<Seq<u8>>::empty());
        }
        return Ok((fs, pos));
    }
    let (filter, p1) = match decode_string(buf, pos, end) {
        Ok(x) => x,
        Err(e) => {
            return Err(e);
        },
    };
    let (mut fs, e2) = match decode_unsub_filters(buf, p1, end) {
        Ok(x) => x,
        Err(e) => {
            return Err(e);
        },
    };
    let ghost old_fs = fs@;
    let ghost fview = filter@;
    fs.insert(0, filter);
    proof {
        assert(filters_view(fs@) =~= seq![fview] + filters_view(old_fs));
    }
    Ok((fs, e2))
}

/// UNSUBSCRIBE body: packet identifier, properties, then the filters.
pub open spec fn spec_parse_unsubscribe(s: Seq<u8>, pos: int, end: int) -> Option<
    (crate::packet::UnsubscribeControlPacketView, int),
> {
    match spec_parse_u16(s, pos, end) {
        Some((pid, p1)) => match spec_parse_properties(s, p1, end) {
            Some((props, p2)) => match spec_parse_unsub_filters(s, p2, end) {
                Some((fs, p3)) => Some(
                    (
                        crate::packet::UnsubscribeControlPacketView {
                            packet_identifier: pid,
                            properties: props,
                            topic_filters: fs,
                        },
                        p3,
                    ),
                ),
                None => None,
            },
            None => None,
        },
        None => None,
    }
}

/// Reads an UNSUBSCRIBE body.
pub fn decode_unsubscribe_packet(buf: &Vec<u8>, pos: usize, end: usize) -> (r: Result<
    (crate::packet::UnsubscribeControlPacket, usize),
    Error,
>)
    requires
        end <= buf@.len(),
    ensures
        (match r {
            Ok((p, np)) => spec_parse_unsubscribe(buf@, pos as int, end as int) == Some(
                (p@, np as int),
            ) && pos < np <= end,
            Err(e) => e == Error::MalformedPacket && spec_parse_unsubscribe(
                buf@,
                pos as int,
                end as int,
            ) is None,
        }),
{
    let (pid, p1) = match read_u16(buf, pos, end) {
        Ok(x) => x,
        Err(e) => {
            return Err(e);
        },
    };
    let (props, p2) = match decode_properties(buf, p1, end) {
        Ok(x) => x,
        Err(e) => {
            return Err(e);
        },
    };
    let (fs, p3) = match decode_unsub_filters(buf, p2, end) {
        Ok(x) => x,
        Err(e) => {
            return Err(e);
        },
    };
    Ok(
        (
            crate::packet::UnsubscribeControlPacket {
                packet_identifier: pid,
                properties: props,
                topic_filters: fs,
            },
            p3,
        ),
    )
}

/// UNSUBACK reason codes back to back until exactly `end`.
pub open spec fn spec_parse_unsub_ack_codes(s: Seq<u8>, pos: int, end: int) -> Option<
    (Seq<UnSubAckReasonCode>, int),
>
    decreases end - pos,
{
    if !(0 <= pos && pos <= end && end <= s.len()) {
        None
    } else if pos == end {
        Some((Seq::empty(), pos))
    } else {
        match crate::definitions::spec_un_sub_ack_reason_from_u8(s[pos]) {
            Some(rc) => match spec_parse_unsub_ack_codes(s, pos + 1, end) {
                Some((cs, e2)) => Some((seq![rc] + cs, e2)),
                None => None,
            },
            None => None,
        }
    }
}

fn decode_unsub_ack_codes(buf: &Vec<u8>, pos: usize, end: usize) -> (r: Result<
    (Vec<UnSubAckReasonCode>, usize),
    Error,
>)
    requires
        pos <= end <= buf@.len(),
    ensures
        (match r {
            Ok((cs, np)) => spec_parse_unsub_ack_codes(buf@, pos as int, end as int) == Some(
                (cs@, np as int),
            ) && np == end,
            Err(e) => e == Error::MalformedPacket && spec_parse_unsub_ack_codes(
                buf@,
                pos as int,
                end as int,
            ) is None,
        }),
    decreases end - pos,
{
    if pos == end {
        let cs: Vec<UnSubAckReasonCode> = Vec::new();
        proof {
            assert(cs@ =~= Seq::<UnSubAckReasonCode>::empty());
        }
        return Ok((cs, pos));
    }
    let rc = match UnSubAckReasonCode::from_u8(buf[pos]) {
        Some(rc) => rc,
        None => {
            return Err(Error::MalformedPacket);
        },
    };
    let (mut cs, e2) = match decode_unsub_ack_codes(buf, pos + 1, end) {
        Ok(x) => x,
        Err(e) => {
            return Err(e);
        },
    };
    let ghost old_cs = cs@;
    cs.insert(0, rc);
    proof {
        assert(cs@ =~= seq![rc] + old_cs);
    }
    Ok((cs, e2))
}

/// UNSUBACK body: packet identifier, properties, then the reason codes.
pub open spec fn spec_parse_unsub_ack(s: Seq<u8>, pos: int, end: int) -> Option<
    (crate::packet::UnsubAckControlPacketView, int),
> {
    match spec_parse_u16(s, pos, end) {
        Some((pid, p1)) => match spec_parse_properties(s, p1, end) {
            Some((props, p2)) => match spec_parse_unsub_ack_codes(s, p2, end) {
                Some((cs, p3)) => Some(
                    (
                        crate::packet::UnsubAckControlPacketView {
                            packet_identifier: pid,
                            properties: props,
                            reason_codes: cs,
                        },
                        p3,
                    ),
                ),
                None => None,
            },
            None => None,
        },
        None => None,
    }
}

/// Reads an UNSUBACK body.
pub fn decode_unsub_ack_packet(buf: &Vec<u8>, pos: usize, end: usize) -> (r: Result<
    (crate::packet::UnsubAckControlPacket, usize),
    Error,
>)
    requires
        end <= buf@.len(),
    ensures
        (match r {
            Ok((p, np)) => spec_parse_unsub_ack(buf@, pos as int, end as int) == Some(
                (p@, np as int),
            ) && pos < np <= end,
            Err(e) => e == Error::MalformedPacket && spec_parse_unsub_ack(
                buf@,
                pos as int,
                end as int,
            ) is None,
        }),
{
    let (pid, p1) = match read_u16(buf, pos, end) {
        Ok(x) => x,
        Err(e) => {
            return Err(e);
        },
    };
    let (props, p2) = match decode_properties(buf, p1, end) {
        Ok(x) => x,
        Err(e) => {
            return Err(e);
        },
    };
    let (cs, p3) = match decode_unsub_ack_codes(buf, p2, end) {
        Ok(x) => x,
        Err(e) => {
            return Err(e);
        },
    };
    Ok(
        (
            crate::packet::UnsubAckControlPacket {
                packet_identifier: pid,
                properties: props,
                reason_codes: cs,
            },
            p3,
        ),
    )
}

/// DISCONNECT body: optional reason code (defaulting to normal
/// disconnection) and optional properties.
pub open spec fn spec_parse_disconnect(s: Seq<u8>, pos: int, end: int) -> Option<
    (crate::packet::DisconnectControlPacketView, int),
> {
    if !(0 <= pos && pos <= end && end <= s.len()) {
        None
    } else if pos == end {
        Some(
            (
                crate::packet::DisconnectControlPacketView {
                    reason_code: DisconnectReasonCode::NormalDisconnection,
                    properties: Seq::empty(),
                },
                end,
            ),
        )
    } else {
        match spec_disconnect_reason_from_u8(s[pos]) {
            Some(rc) => if pos + 1 == end {
                Some(
                    (
                        crate::packet::DisconnectControlPacketView {
                            reason_code: rc,
                            properties: Seq::empty(),
                        },
                        end,
                    ),
                )
            } else {
                match spec_parse_properties(s, pos + 1, end) {
                    Some((props, p2)) => Some(
                        (
                            crate::packet::DisconnectControlPacketView {
                                reason_code: rc,
                                properties: props,
                            },
                            p2,
                        ),
                    ),
                    None => None,
                }
            },
            None => None,
        }
    }
}

/// Reads a DISCONNECT body.
pub fn decode_disconnect_packet(buf: &Vec<u8>, pos: usize, end: usize) -> (r: Result<
    (crate::packet::DisconnectControlPacket, usize),
    Error,
>)
    requires
        pos <= end <= buf@.len(),
    ensures
        (match r {
            Ok((p, np)) => spec_parse_disconnect(buf@, pos as int, end as int) == Some(
                (p@, np as int),
            ) && pos <= np <= end,
            Err(e) => e == Error::MalformedPacket && spec_parse_disconnect(
                buf@,
                pos as int,
                end as int,
            ) is None,
        }),
{
    if pos == end {
        let props: Vec<Property> = Vec::new();
        proof {
            assert(props_view(props@) =~= Seq::<PropertyView>::empty());
        }
        return Ok(
            (
                crate::packet::DisconnectControlPacket {
                    reason_code: DisconnectReasonCode::NormalDisconnection,
                    properties: props,
                },
                end,
            ),
        );
    }
    let rc = match DisconnectReasonCode::from_u8(buf[pos]) {
        Some(rc) => rc,
        None => {
            return Err(Error::MalformedPacket);
        },
    };
    if pos + 1 == end {
        let props: Vec<Property> = Vec::new();
        proof {
            assert(props_view(props@) =~= Seq::<PropertyView>::empty());
        }
        return Ok(
            (
                crate::packet::DisconnectControlPacket { reason_code: rc, properties: props },
                end,
            ),
        );
    }
    let (props, p2) = match decode_properties(buf, pos + 1, end) {
        Ok(x) => x,
        Err(e) => {
            return Err(e);
        },
    };
    Ok((crate::packet::DisconnectControlPacket { reason_code: rc, properties: props }, p2))
}

/// AUTH body: optional reason code (defaulting to success) and optional
/// properties.
pub open spec fn spec_parse_auth(s: Seq<u8>, pos: int, end: int) -> Option<
    (crate::packet::AuthControlPacketView, int),
> {
    if !(0 <= pos && pos <= end && end <= s.len()) {
        None
    } else if pos == end {
        Some(
            (
                crate::packet::AuthControlPacketView {
                    reason_code: AuthReasonCode::Success,
                    properties: Seq::empty(),
                },
                end,
            ),
        )
    } else {
        match spec_auth_reason_from_u8(s[pos]) {
            Some(rc) => if pos + 1 == end {
                Some(
                    (
                        crate::packet::AuthControlPacketView {
                            reason_code: rc,
                            properties: Seq::empty(),
                        },
                        end,
                    ),
                )
            } else {
                match spec_parse_properties(s, pos + 1, end) {
                    Some((props, p2)) => Some(
                        (
                            crate::packet::AuthControlPacketView {
                                reason_code: rc,
                                properties: props,
                            },
                            p2,
                        ),
                    ),
                    None => None,
                }
            },
            None => None,
        }
    }
}

/// Reads an AUTH body.
pub fn decode_auth_packet(buf: &Vec<u8>, pos: usize, end: usize) -> (r: Result<
    (crate::packet::AuthControlPacket, usize),
    Error,
>)
    requires
        pos <= end <= buf@.len(),
    ensures
        (match r {
            Ok((p, np)) => spec_parse_auth(buf@, pos as int, end as int) == Some((p@, np as int))
                && pos <= np <= end,
            Err(e) => e == Error::MalformedPacket && spec_parse_auth(
                buf@,
                pos as int,
                end as int,
            ) is None,
        }),
{
    if pos == end {
        let props: Vec<Property> = Vec::new();
        proof {
            assert(props_view(props@) =~= Seq::<PropertyView>::empty());
        }
        return Ok(
            (
                crate::packet::AuthControlPacket {
                    reason_code: AuthReasonCode::Success,
                    properties: props,
                },
                end,
            ),
        );
    }
    let rc = match AuthReasonCode::from_u8(buf[pos]) {
        Some(rc) => rc,
        None => {
            return Err(Error::MalformedPacket);
        },
    };
    if pos + 1 == end {
        let props: Vec<Property> = Vec::new();
        proof {
            assert(props_view(props@) =~= Seq::<PropertyView>::empty());
        }
        return Ok(
            (crate::packet::AuthControlPacket { reason_code: rc, properties: props }, end),
        );
    }
    let (props, p2) = match decode_properties(buf, pos + 1, end) {
        Ok(x) => x,
        Err(e) => {
            return Err(e);
        },
    };
    Ok((crate::packet::AuthControlPacket { reason_code: rc, properties: props }, p2))
}

/// The flag nibble unpacked: for PUBLISH the QoS occupies two bits, for
/// every other type each bit stands alone.
pub open spec fn spec_flags_of_byte(tag: u8, data: u8) -> crate::definitions::Flags {
    if tag == 3 {
        crate::definitions::Flags(
            (data % 2) as u8,
            ((data / 2) % 4) as u8,
            0,
            ((data / 8) % 2) as u8,
        )
    } else {
        crate::definitions::Flags(
            (data % 2) as u8,
            ((data / 2) % 2) as u8,
            ((data / 4) % 2) as u8,
            ((data / 8) % 2) as u8,
        )
    }
}

/// Splits the fixed-header byte into its flag fields; `tag` is the packet
/// type code, which decides how the QoS bits are read.
pub fn decode_flag(tag: u8, data: u8) -> (r: crate::definitions::Flags)
    ensures
        r == spec_flags_of_byte(tag, data),
{
    match tag {
        3u8 => crate::definitions::Flags(data % 2, (data / 2) % 4, 0, (data / 8) % 2),
        _ => crate::definitions::Flags(data % 2, (data / 2) % 2, (data / 4) % 2, (data / 8) % 2),
    }
}

/// The first byte of a frame: packet type in the high nibble, flags in the
/// low nibble. A type code of zero is malformed.
pub open spec fn spec_parse_fix_header(s: Seq<u8>, pos: int) -> Option<
    (crate::definitions::FixHeader, int),
> {
    if !(0 <= pos && pos < s.len()) {
        None
    } else {
        let b = s[pos];
        match crate::definitions::spec_packet_type_from_u8((b / 16) as u8) {
            Some(t) => Some(
                (
                    crate::definitions::FixHeader {
                        control_packet_type: t,
                        flags: spec_flags_of_byte((b / 16) as u8, (b % 16) as u8),
                    },
                    pos + 1,
                ),
            ),
            None => None,
        }
    }
}

/// Reads the fixed-header byte.
pub fn decode_fix_header(buf: &Vec<u8>, pos: usize) -> (r: Result<
    (crate::definitions::FixHeader, usize),
    Error,
>)
    ensures
        (match r {
            Ok((h, np)) => spec_parse_fix_header(buf@, pos as int) == Some((h, np as int)) && pos
                < np <= buf@.len(),
            Err(e) => e == Error::MalformedPacket && spec_parse_fix_header(
                buf@,
                pos as int,
            ) is None,
        }),
{
    if pos >= buf.len() {
        return Err(Error::MalformedPacket);
    }
    let b: u8 = buf[pos];
    let tag: u8 = b / 16;
    let t = match crate::definitions::ControlPacketType::from_u8(tag) {
        Some(t) => t,
        None => {
            return Err(Error::MalformedPacket);
        },
    };
    let flags = decode_flag(tag, b % 16);
    Ok((crate::definitions::FixHeader { control_packet_type: t, flags }, pos + 1))
}

/// What is wrong with a fixed header's flags, if anything: a PUBLISH QoS
/// of 3 is a protocol error; any other deviation from the type-specific
/// reserved pattern is malformed.
pub open spec fn spec_flag_check(h: crate::definitions::FixHeader) -> Option<Error> {
    match h.control_packet_type {
        crate::definitions::ControlPacketType::PUBLISH => if h.flags.1 == 3 {
            Some(Error::ProtocolError)
        } else {
            None
        },
        crate::definitions::ControlPacketType::PUBREL
        | crate::definitions::ControlPacketType::SUBSCRIBE
        | crate::definitions::ControlPacketType::UNSUBSCRIBE => if h.flags
            == crate::definitions::Flags(0, 1, 0, 0) {
            None
        } else {
            Some(Error::MalformedPacket)
        },
        _ => if h.flags == crate::definitions::Flags(0, 0, 0, 0) {
            None
        } else {
            Some(Error::MalformedPacket)
        },
    }
}

/// Checks the flag nibble against the type-specific pattern.
pub fn check_flags(h: crate::definitions::FixHeader) -> (r: Option<Error>)
    ensures
        r == spec_flag_check(h),
{
    match h.control_packet_type {
        crate::definitions::ControlPacketType::PUBLISH => if h.flags.1 == 3 {
            Some(Error::ProtocolError)
        } else {
            None
        },
        crate::definitions::ControlPacketType::PUBREL
        | crate::definitions::ControlPacketType::SUBSCRIBE
        | crate::definitions::ControlPacketType::UNSUBSCRIBE => if h.flags
            == crate::definitions::Flags(0, 1, 0, 0) {
            None
        } else {
            Some(Error::MalformedPacket)
        },
        _ => if h.flags == crate::definitions::Flags(0, 0, 0, 0) {
            None
        } else {
            Some(Error::MalformedPacket)
        },
    }
}

/// The body parser for each packet type; `qos` is the QoS field of the
/// fixed-header flags, which decides whether a PUBLISH carries a packet
/// identifier.
pub open spec fn spec_parse_packet(
    t: crate::definitions::ControlPacketType,
    qos: u8,
    s: Seq<u8>,
    pos: int,
    end: int,
) -> Option<(crate::frame::ControlPacketView, int)> {
    match t {
        crate::definitions::ControlPacketType::CONNECT => match spec_parse_connect(s, pos, end) {
            Some((p, np)) => Some((crate::frame::ControlPacketView::Connect(p), np)),
            None => None,
        },
        crate::definitions::ControlPacketType::CONNACK => match spec_parse_conn_ack(s, pos, end) {
            Some((p, np)) => Some((crate::frame::ControlPacketView::ConnAck(p), np)),
            None => None,
        },
        crate::definitions::ControlPacketType::PUBLISH => match spec_parse_publish(
            s,
            pos,
            end,
            qos > 0,
        ) {
            Some((p, np)) => Some((crate::frame::ControlPacketView::Publish(p), np)),
            None => None,
        },
        crate::definitions::ControlPacketType::PUBACK => match spec_parse_pub_ack(s, pos, end) {
            Some((p, np)) => Some((crate::frame::ControlPacketView::PubAck(p), np)),
            None => None,
        },
        crate::definitions::ControlPacketType::PUBREC => match spec_parse_pub_rec(s, pos, end) {
            Some((p, np)) => Some((crate::frame::ControlPacketView::PubRec(p), np)),
            None => None,
        },
        crate::definitions::ControlPacketType::PUBREL => match spec_parse_pub_rel(s, pos, end) {
            Some((p, np)) => Some((crate::frame::ControlPacketView::PubRel(p), np)),
            None => None,
        },
        crate::definitions::ControlPacketType::PUBCOMP => match spec_parse_pub_comp(s, pos, end) {
            Some((p, np)) => Some((crate::frame::ControlPacketView::PubComp(p), np)),
            None => None,
        },
        crate::definitions::ControlPacketType::SUBSCRIBE => match spec_parse_subscribe(
            s,
            pos,
            end,
        ) {
            Some((p, np)) => Some((crate::frame::ControlPacketView::Subscribe(p), np)),
            None => None,
        },
        crate::definitions::ControlPacketType::SUBACK => match spec_parse_sub_ack(s, pos, end) {
            Some((p, np)) => Some((crate::frame::ControlPacketView::SubAck(p), np)),
            None => None,
        },
        crate::definitions::ControlPacketType::UNSUBSCRIBE => match spec_parse_unsubscribe(
            s,
            pos,
            end,
        ) {
            Some((p, np)) => Some((crate::frame::ControlPacketView::Unsubscribe(p), np)),
            None => None,
        },
        crate::definitions::ControlPacketType::UNSUBACK => match spec_parse_unsub_ack(
            s,
            pos,
            end,
        ) {
            Some((p, np)) => Some((crate::frame::ControlPacketView::UnsubAck(p), np)),
            None => None,
        },
        crate::definitions::ControlPacketType::PINGREQ => Some(
            (crate::frame::ControlPacketView::PingReq, pos),
        ),
        crate::definitions::ControlPacketType::PINGRESP => Some(
            (crate::frame::ControlPacketView::PingResp, pos),
        ),
        crate::definitions::ControlPacketType::DISCONNECT => match spec_parse_disconnect(
            s,
            pos,
            end,
        ) {
            Some((p, np)) => Some((crate::frame::ControlPacketView::Disconnect(p), np)),
            None => None,
        },
        crate::definitions::ControlPacketType::AUTH => match spec_parse_auth(s, pos, end) {
            Some((p, np)) => Some((crate::frame::ControlPacketView::Auth(p), np)),
            None => None,
        },
    }
}

/// Reads one packet body of the given type.
pub fn decode_packet_body(
    buf: &Vec<u8>,
    t: crate::definitions::ControlPacketType,
    qos: u8,
    pos: usize,
    end: usize,
) -> (r: Result<(crate::frame::ControlPacket, usize), Error>)
    requires
        pos <= end <= buf@.len(),
    ensures
        (match r {
            Ok((p, np)) => spec_parse_packet(t, qos, buf@, pos as int, end as int) == Some(
                (p@, np as int),
            ) && pos <= np <= end,
            Err(e) => e == Error::MalformedPacket && spec_parse_packet(
                t,
                qos,
                buf@,
                pos as int,
                end as int,
            ) is None,
        }),
{
    match t {
        crate::definitions::ControlPacketType::CONNECT => match decode_connect_packet(
            buf,
            pos,
            end,
        ) {
            Ok((p, np)) => Ok((crate::frame::ControlPacket::Connect(p), np)),
            Err(e) => Err(e),
        },
        crate::definitions::ControlPacketType::CONNACK => match decode_conn_ack_packet(
            buf,
            pos,
            end,
        ) {
            Ok((p, np)) => Ok((crate::frame::ControlPacket::ConnAck(p), np)),
            Err(e) => Err(e),
        },
        crate::definitions::ControlPacketType::PUBLISH => match decode_publish_packet(
            buf,
            pos,
            end,
            qos,
        ) {
            Ok((p, np)) => Ok((crate::frame::ControlPacket::Publish(p), np)),
            Err(e) => Err(e),
        },
        crate::definitions::ControlPacketType::PUBACK => match decode_pub_ack_packet(
            buf,
            pos,
            end,
        ) {
            Ok((p, np)) => Ok((crate::frame::ControlPacket::PubAck(p), np)),
            Err(e) => Err(e),
        },
        crate::definitions::ControlPacketType::PUBREC => match decode_pub_rec_packet(
            buf,
            pos,
            end,
        ) {
            Ok((p, np)) => Ok((crate::frame::ControlPacket::PubRec(p), np)),
            Err(e) => Err(e),
        },
        crate::definitions::ControlPacketType::PUBREL => match decode_pub_rel_packet(
            buf,
            pos,
            end,
        ) {
            Ok((p, np)) => Ok((crate::frame::ControlPacket::PubRel(p), np)),
            Err(e) => Err(e),
        },
        crate::definitions::ControlPacketType::PUBCOMP => match decode_pub_comp_packet(
            buf,
            pos,
            end,
        ) {
            Ok((p, np)) => Ok((crate::frame::ControlPacket::PubComp(p), np)),
            Err(e) => Err(e),
        },
        crate::definitions::ControlPacketType::SUBSCRIBE => match decode_subscribe_packet(
            buf,
            pos,
            end,
        ) {
            Ok((p, np)) => Ok((crate::frame::ControlPacket::Subscribe(p), np)),
            Err(e) => Err(e),
        },
        crate::definitions::ControlPacketType::SUBACK => match decode_sub_ack_packet(
            buf,
            pos,
            end,
        ) {
            Ok((p, np)) => Ok((crate::frame::ControlPacket::SubAck(p), np)),
            Err(e) => Err(e),
        },
        crate::definitions::ControlPacketType::UNSUBSCRIBE => match decode_unsubscribe_packet(
            buf,
            pos,
            end,
        ) {
            Ok((p, np)) => Ok((crate::frame::ControlPacket::Unsubscribe(p), np)),
            Err(e) => Err(e),
        },
        crate::definitions::ControlPacketType::UNSUBACK => match decode_unsub_ack_packet(
            buf,
            pos,
            end,
        ) {
            Ok((p, np)) => Ok((crate::frame::ControlPacket::UnsubAck(p), np)),
            Err(e) => Err(e),
        },
        crate::definitions::ControlPacketType::PINGREQ => Ok(
            (crate::frame::ControlPacket::PingReq, pos),
        ),
        crate::definitions::ControlPacketType::PINGRESP => Ok(
            (crate::frame::ControlPacket::PingResp, pos),
        ),
        crate::definitions::ControlPacketType::DISCONNECT => match decode_disconnect_packet(
            buf,
            pos,
            end,
        ) {
            Ok((p, np)) => Ok((crate::frame::ControlPacket::Disconnect(p), np)),
            Err(e) => Err(e),
        },
        crate::definitions::ControlPacketType::AUTH => match decode_auth_packet(buf, pos, end) {
            Ok((p, np)) => Ok((crate::frame::ControlPacket::Auth(p), np)),
            Err(e) => Err(e),
        },
    }
}

/// Outcome of reading one frame from the front of a buffer: a frame with
/// its total byte length, a request for more bytes, or an error.
pub enum FrameParse {
    Parsed(crate::frame::FrameView, int),
    NeedMore,
    Bad(Error),
}

/// One whole frame from the front of a buffer. Fewer than two buffered
/// bytes, a truncated remaining-length varint, or a body shorter than the
/// remaining length all ask for more bytes; everything else either parses
/// exactly or is an error.
pub open spec fn spec_parse_frame(s: Seq<u8>) -> FrameParse {
    if s.len() < 2 {
        FrameParse::NeedMore
    } else {
        match spec_parse_fix_header(s, 0) {
            Some((h, p1)) => match spec_flag_check(h) {
                Some(e) => FrameParse::Bad(e),
                None => match spec_decode_varint(s, p1) {
                    ParsedVarint::Done(len, bodystart) => if s.len() < bodystart + len {
                        FrameParse::NeedMore
                    } else {
                        match spec_parse_packet(
                            h.control_packet_type,
                            h.flags.1,
                            s,
                            bodystart,
                            bodystart + len,
                        ) {
                            Some((cp, np)) => if np == bodystart + len {
                                FrameParse::Parsed(
                                    crate::frame::FrameView { control_packet: cp, fix_header: h },
                                    bodystart + len,
                                )
                            } else {
                                FrameParse::Bad(Error::MalformedPacket)
                            },
                            None => FrameParse::Bad(Error::MalformedPacket),
                        }
                    },
                    ParsedVarint::More => FrameParse::NeedMore,
                    ParsedVarint::Bad => FrameParse::Bad(Error::MalformedPacket),
                },
            },
            None => FrameParse::Bad(Error::MalformedPacket),
        }
    }
}

} // verus!
