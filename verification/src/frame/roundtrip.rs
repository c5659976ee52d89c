//! The codec round-trip law: parsing the encoding of any well-formed
//! frame, with anything at all after it, gives back the frame and consumes
//! exactly its encoding.
use crate::definitions::{
    lemma_auth_reason_round_trip, lemma_conn_ack_reason_round_trip,
    lemma_disconnect_reason_round_trip, lemma_packet_type_round_trip, lemma_pub_ack_reason_round_trip,
    lemma_pub_comp_reason_round_trip, lemma_pub_rec_reason_round_trip, lemma_pub_rel_reason_round_trip,
    lemma_sub_ack_reason_round_trip, lemma_un_sub_ack_reason_round_trip, spec_auth_reason_from_u8,
    spec_auth_reason_u8, spec_conn_ack_reason_from_u8, spec_conn_ack_reason_u8,
    spec_disconnect_reason_from_u8, spec_disconnect_reason_u8, spec_packet_type_from_u8,
    spec_packet_type_u8, spec_pub_ack_reason_from_u8, spec_pub_ack_reason_u8,
    spec_pub_comp_reason_from_u8, spec_pub_comp_reason_u8, spec_pub_rec_reason_from_u8,
    spec_pub_rec_reason_u8, spec_pub_rel_reason_from_u8, spec_pub_rel_reason_u8,
    spec_sub_ack_reason_from_u8, spec_sub_ack_reason_u8, spec_un_sub_ack_reason_from_u8,
    spec_un_sub_ack_reason_u8, ControlPacketType, FixHeader, Flags, SubAckReasonCode,
    UnSubAckReasonCode,
};
use crate::frame::decoder::{
    spec_be16_at, spec_be32_at, spec_flag_check, spec_flags_of_byte, spec_parse_auth,
    spec_parse_binary, spec_parse_byte, spec_parse_conn_ack, spec_parse_connect,
    spec_parse_connect_payload, spec_parse_connect_vh, spec_parse_disconnect, spec_parse_fix_header,
    spec_parse_frame, spec_parse_packet, spec_parse_properties, spec_parse_property,
    spec_parse_property_list, spec_parse_pub_ack, spec_parse_pub_comp, spec_parse_pub_rec,
    spec_parse_pub_rel, spec_parse_publish, spec_parse_string, spec_parse_sub_ack,
    spec_parse_sub_ack_codes, spec_parse_sub_entries, spec_parse_subscribe, spec_parse_u16,
    spec_parse_u32, spec_parse_unsub_ack, spec_parse_unsub_ack_codes, spec_parse_unsub_filters,
    spec_parse_unsubscribe, spec_parse_varint, FrameParse,
};
use crate::frame::encoder::{
    spec_be16, spec_be32, spec_encode_auth, spec_encode_binary, spec_encode_conn_ack,
    spec_encode_connect, spec_encode_disconnect, spec_encode_frame, spec_encode_packet,
    spec_encode_properties, spec_encode_property, spec_encode_property_list, spec_encode_pub_ack,
    spec_encode_pub_comp, spec_encode_pub_rec, spec_encode_pub_rel, spec_encode_publish,
    spec_encode_sub_ack, spec_encode_sub_ack_codes, spec_encode_sub_entries,
    spec_encode_subscribe, spec_encode_unsub_ack, spec_encode_unsub_ack_codes,
    spec_encode_unsub_filters, spec_encode_unsubscribe, spec_header_byte, spec_packet_type_of,
    wf_auth, wf_binary, wf_conn_ack, wf_connect, wf_disconnect, wf_flags, wf_frame, wf_packet,
    wf_properties, wf_property, wf_pub_ack, wf_pub_comp, wf_pub_rec, wf_pub_rel, wf_publish,
    wf_string, wf_sub_ack, wf_sub_entries, wf_subscribe, wf_unsub_ack, wf_unsub_filters,
    wf_unsubscribe,
};
use crate::frame::{ControlPacketView, FrameView};
use crate::packet::{
    spec_conn_ack_flags, spec_conn_ack_flags_byte, spec_connect_flags, spec_connect_flags_byte,
    spec_subscription_options, spec_subscription_options_byte, spec_subscription_options_valid,
    wf_connect_flags, wf_subscription_options, PropertyView,
};
use crate::varint::{
    lemma_varint_len, lemma_varint_round_trip, spec_decode_varint, spec_varint, ParsedVarint,
    VARINT_MAX,
};
use vstd::prelude::*;

verus! {

/// Peeling a two-part concatenation out of a subrange.
pub proof fn lemma_subrange_split(s: Seq<u8>, pos: int, a: Seq<u8>, b: Seq<u8>)
    requires
        0 <= pos,
        pos + a.len() + b.len() <= s.len(),
        s.subrange(pos, pos + a.len() + b.len()) == a + b,
    ensures
        s.subrange(pos, pos + a.len()) == a,
        s.subrange(pos + a.len(), pos + a.len() + b.len()) == b,
{
    let whole = s.subrange(pos, pos + a.len() + b.len());
    assert forall|i: int| 0 <= i < a.len() implies #[trigger] s.subrange(pos, pos + a.len())[i]
        == a[i] by {
        assert(whole[i] == s[pos + i]);
        assert((a + b)[i] == a[i]);
    }
    assert(s.subrange(pos, pos + a.len()) =~= a);
    assert forall|i: int| 0 <= i < b.len() implies #[trigger] s.subrange(
        pos + a.len(),
        pos + a.len() + b.len(),
    )[i] == b[i] by {
        assert(whole[a.len() + i] == s[pos + a.len() + i]);
        assert((a + b)[a.len() + i] == b[i]);
    }
    assert(s.subrange(pos + a.len(), pos + a.len() + b.len()) =~= b);
}

/// A big-endian u16 reads back.
pub proof fn lemma_rt_u16(s: Seq<u8>, pos: int, end: int, v: u16)
    requires
        0 <= pos,
        pos + 2 <= end <= s.len(),
        s.subrange(pos, pos + 2) == spec_be16(v),
    ensures
        spec_parse_u16(s, pos, end) == Some((v, pos + 2)),
{
    assert(s[pos] == spec_be16(v)[0]);
    assert(s[pos + 1] == spec_be16(v)[1]);
    assert(spec_be16_at(s, pos) == v);
}

/// A big-endian u32 reads back.
pub proof fn lemma_rt_u32(s: Seq<u8>, pos: int, end: int, v: u32)
    requires
        0 <= pos,
        pos + 4 <= end <= s.len(),
        s.subrange(pos, pos + 4) == spec_be32(v),
    ensures
        spec_parse_u32(s, pos, end) == Some((v, pos + 4)),
{
    assert(s[pos] == spec_be32(v)[0]);
    assert(s[pos + 1] == spec_be32(v)[1]);
    assert(s[pos + 2] == spec_be32(v)[2]);
    assert(s[pos + 3] == spec_be32(v)[3]);
    assert(spec_be32_at(s, pos) == v);
}

/// Length-prefixed binary data reads back.
pub proof fn lemma_rt_binary(s: Seq<u8>, pos: int, end: int, data: Seq<u8>)
    requires
        wf_binary(data),
        0 <= pos,
        pos + spec_encode_binary(data).len() <= end <= s.len(),
        s.subrange(pos, pos + spec_encode_binary(data).len()) == spec_encode_binary(data),
    ensures
        spec_parse_binary(s, pos, end) == Some((data, pos + 2 + data.len())),
        spec_encode_binary(data).len() == 2 + data.len(),
{
    lemma_subrange_split(s, pos, spec_be16(data.len() as u16), data);
    lemma_rt_u16(s, pos, end, data.len() as u16);
    assert(spec_be16_at(s, pos) == data.len() as u16);
    assert(s.subrange(pos + 2, pos + 2 + data.len()) == data);
}

/// An MQTT string reads back.
pub proof fn lemma_rt_string(s: Seq<u8>, pos: int, end: int, data: Seq<u8>)
    requires
        wf_string(data),
        0 <= pos,
        pos + spec_encode_binary(data).len() <= end <= s.len(),
        s.subrange(pos, pos + spec_encode_binary(data).len()) == spec_encode_binary(data),
    ensures
        spec_parse_string(s, pos, end) == Some((data, pos + 2 + data.len())),
        spec_encode_binary(data).len() == 2 + data.len(),
{
    lemma_rt_binary(s, pos, end, data);
}

/// A single byte reads back.
pub proof fn lemma_rt_byte(s: Seq<u8>, pos: int, end: int, v: u8)
    requires
        0 <= pos,
        pos + 1 <= end <= s.len(),
        s.subrange(pos, pos + 1) == seq![v],
    ensures
        spec_parse_byte(s, pos, end) == Some((v, pos + 1)),
{
    assert(s[pos] == seq![v][0]);
}

/// A bounded Variable Byte Integer reads back.
pub proof fn lemma_rt_varint(s: Seq<u8>, pos: int, end: int, n: u32)
    requires
        n <= VARINT_MAX,
        0 <= pos,
        pos + spec_varint(n as nat).len() <= end <= s.len(),
        s.subrange(pos, pos + spec_varint(n as nat).len()) == spec_varint(n as nat),
    ensures
        spec_parse_varint(s, pos, end) == Some((n, pos + spec_varint(n as nat).len())),
        spec_varint(n as nat).len() <= 4,
{
    lemma_varint_len(n as nat);
    let t = s.take(end);
    let len = spec_varint(n as nat).len() as int;
    assert forall|i: int| 0 <= i < len implies #[trigger] t.subrange(pos, pos + len)[i]
        == spec_varint(n as nat)[i] by {
        assert(t[pos + i] == s[pos + i]);
        assert(s.subrange(pos, pos + len)[i] == s[pos + i]);
    }
    assert(t.subrange(pos, pos + len) =~= spec_varint(n as nat));
    assert(crate::varint::pow128(0) == 1);
    assert(crate::varint::pow128(1) == 128);
    assert(crate::varint::pow128(2) == 16384);
    assert(crate::varint::pow128(3) == 2097152);
    assert(crate::varint::pow128(4) == 268435456);
    crate::varint::lemma_varint_round_trip_rec(t, pos, 0, 0, n as nat);
    assert((0 + (n as nat) * 1) % 0x100000000 == n as nat);
}

/// Every property's wire form is non-empty.
pub proof fn lemma_property_enc_len(p: PropertyView)
    ensures
        spec_encode_property(p).len() >= 2,
{
}

/// One property reads back.
#[verifier::rlimit(100)]
pub proof fn lemma_rt_property(s: Seq<u8>, pos: int, end: int, p: PropertyView)
    requires
        wf_property(p),
        0 <= pos,
        pos + spec_encode_property(p).len() <= end <= s.len(),
        s.subrange(pos, pos + spec_encode_property(p).len()) == spec_encode_property(p),
    ensures
        spec_parse_property(s, pos, end) == Some((p, pos + spec_encode_property(p).len())),
{
    lemma_property_enc_len(p);
    match p {
        PropertyView::PayloadFormatIndicator(v) => {
            assert(spec_encode_property(p) =~= seq![1u8] + seq![v]);
            lemma_subrange_split(s, pos, seq![1u8], seq![v]);
            assert(s.subrange(pos, pos + 1)[0] == 1u8);
            lemma_rt_byte(s, pos + 1, end, v);
        },
        PropertyView::RequestProblemInformation(v) => {
            assert(spec_encode_property(p) =~= seq![23u8] + seq![v]);
            lemma_subrange_split(s, pos, seq![23u8], seq![v]);
            assert(s.subrange(pos, pos + 1)[0] == 23u8);
            lemma_rt_byte(s, pos + 1, end, v);
        },
        PropertyView::RequestResponseInformation(v) => {
            assert(spec_encode_property(p) =~= seq![25u8] + seq![v]);
            lemma_subrange_split(s, pos, seq![25u8], seq![v]);
            assert(s.subrange(pos, pos + 1)[0] == 25u8);
            lemma_rt_byte(s, pos + 1, end, v);
        },
        PropertyView::RetainAvailable(v) => {
            assert(spec_encode_property(p) =~= seq![37u8] + seq![v]);
            lemma_subrange_split(s, pos, seq![37u8], seq![v]);
            assert(s.subrange(pos, pos + 1)[0] == 37u8);
            lemma_rt_byte(s, pos + 1, end, v);
        },
        PropertyView::WildcardSubscriptionAvailable(v) => {
            assert(spec_encode_property(p) =~= seq![40u8] + seq![v]);
            lemma_subrange_split(s, pos, seq![40u8], seq![v]);
            assert(s.subrange(pos, pos + 1)[0] == 40u8);
            lemma_rt_byte(s, pos + 1, end, v);
        },
        PropertyView::SubscriptionIdentifierAvailable(v) => {
            assert(spec_encode_property(p) =~= seq![41u8] + seq![v]);
            lemma_subrange_split(s, pos, seq![41u8], seq![v]);
            assert(s.subrange(pos, pos + 1)[0] == 41u8);
            lemma_rt_byte(s, pos + 1, end, v);
        },
        PropertyView::SharedSubscriptionAvailable(v) => {
            assert(spec_encode_property(p) =~= seq![42u8] + seq![v]);
            lemma_subrange_split(s, pos, seq![42u8], seq![v]);
            assert(s.subrange(pos, pos + 1)[0] == 42u8);
            lemma_rt_byte(s, pos + 1, end, v);
        },
        PropertyView::ServerKeepAlive(v) => {
            assert(spec_encode_property(p) =~= seq![19u8] + spec_be16(v));
            lemma_subrange_split(s, pos, seq![19u8], spec_be16(v));
            assert(s.subrange(pos, pos + 1)[0] == 19u8);
            lemma_rt_u16(s, pos + 1, end, v);
        },
        PropertyView::ReceiveMaximum(v) => {
            assert(spec_encode_property(p) =~= seq![33u8] + spec_be16(v));
            lemma_subrange_split(s, pos, seq![33u8], spec_be16(v));
            assert(s.subrange(pos, pos + 1)[0] == 33u8);
            lemma_rt_u16(s, pos + 1, end, v);
        },
        PropertyView::TopicAliasMaximum(v) => {
            assert(spec_encode_property(p) =~= seq![34u8] + spec_be16(v));
            lemma_subrange_split(s, pos, seq![34u8], spec_be16(v));
            assert(s.subrange(pos, pos + 1)[0] == 34u8);
            lemma_rt_u16(s, pos + 1, end, v);
        },
        PropertyView::TopicAlias(v) => {
            assert(spec_encode_property(p) =~= seq![35u8] + spec_be16(v));
            lemma_subrange_split(s, pos, seq![35u8], spec_be16(v));
            assert(s.subrange(pos, pos + 1)[0] == 35u8);
            lemma_rt_u16(s, pos + 1, end, v);
        },
        PropertyView::MessageExpiryInterval(v) => {
            assert(spec_encode_property(p) =~= seq![2u8] + spec_be32(v));
            lemma_subrange_split(s, pos, seq![2u8], spec_be32(v));
            assert(s.subrange(pos, pos + 1)[0] == 2u8);
            lemma_rt_u32(s, pos + 1, end, v);
        },
        PropertyView::SessionExpiryInterval(v) => {
            assert(spec_encode_property(p) =~= seq![17u8] + spec_be32(v));
            lemma_subrange_split(s, pos, seq![17u8], spec_be32(v));
            assert(s.subrange(pos, pos + 1)[0] == 17u8);
            lemma_rt_u32(s, pos + 1, end, v);
        },
        PropertyView::WillDelayInterval(v) => {
            assert(spec_encode_property(p) =~= seq![24u8] + spec_be32(v));
            lemma_subrange_split(s, pos, seq![24u8], spec_be32(v));
            assert(s.subrange(pos, pos + 1)[0] == 24u8);
            lemma_rt_u32(s, pos + 1, end, v);
        },
        PropertyView::MaximumPacketSize(v) => {
            assert(spec_encode_property(p) =~= seq![39u8] + spec_be32(v));
            lemma_subrange_split(s, pos, seq![39u8], spec_be32(v));
            assert(s.subrange(pos, pos + 1)[0] == 39u8);
            lemma_rt_u32(s, pos + 1, end, v);
        },
        PropertyView::ContentType(v) => {
            assert(spec_encode_property(p) =~= seq![3u8] + spec_encode_binary(v));
            lemma_subrange_split(s, pos, seq![3u8], spec_encode_binary(v));
            assert(s.subrange(pos, pos + 1)[0] == 3u8);
            lemma_rt_string(s, pos + 1, end, v);
        },
        PropertyView::ResponseTopic(v) => {
            assert(spec_encode_property(p) =~= seq![8u8] + spec_encode_binary(v));
            lemma_subrange_split(s, pos, seq![8u8], spec_encode_binary(v));
            assert(s.subrange(pos, pos + 1)[0] == 8u8);
            lemma_rt_string(s, pos + 1, end, v);
        },
        PropertyView::AssignedClientIdentifier(v) => {
            assert(spec_encode_property(p) =~= seq![18u8] + spec_encode_binary(v));
            lemma_subrange_split(s, pos, seq![18u8], spec_encode_binary(v));
            assert(s.subrange(pos, pos + 1)[0] == 18u8);
            lemma_rt_string(s, pos + 1, end, v);
        },
        PropertyView::AuthenticationMethod(v) => {
            assert(spec_encode_property(p) =~= seq![21u8] + spec_encode_binary(v));
            lemma_subrange_split(s, pos, seq![21u8], spec_encode_binary(v));
            assert(s.subrange(pos, pos + 1)[0] == 21u8);
            lemma_rt_string(s, pos + 1, end, v);
        },
        PropertyView::ResponseInformation(v) => {
            assert(spec_encode_property(p) =~= seq![26u8] + spec_encode_binary(v));
            lemma_subrange_split(s, pos, seq![26u8], spec_encode_binary(v));
            assert(s.subrange(pos, pos + 1)[0] == 26u8);
            lemma_rt_string(s, pos + 1, end, v);
        },
        PropertyView::ServerReference(v) => {
            assert(spec_encode_property(p) =~= seq![28u8] + spec_encode_binary(v));
            lemma_subrange_split(s, pos, seq![28u8], spec_encode_binary(v));
            assert(s.subrange(pos, pos + 1)[0] == 28u8);
            lemma_rt_string(s, pos + 1, end, v);
        },
        PropertyView::ReasonString(v) => {
            assert(spec_encode_property(p) =~= seq![31u8] + spec_encode_binary(v));
            lemma_subrange_split(s, pos, seq![31u8], spec_encode_binary(v));
            assert(s.subrange(pos, pos + 1)[0] == 31u8);
            lemma_rt_string(s, pos + 1, end, v);
        },
        PropertyView::UserProperty(v) => {
            assert(spec_encode_property(p) =~= seq![38u8] + spec_encode_binary(v));
            lemma_subrange_split(s, pos, seq![38u8], spec_encode_binary(v));
            assert(s.subrange(pos, pos + 1)[0] == 38u8);
            lemma_rt_string(s, pos + 1, end, v);
        },
        PropertyView::CorrelationData(v) => {
            assert(spec_encode_property(p) =~= seq![9u8] + spec_encode_binary(v));
            lemma_subrange_split(s, pos, seq![9u8], spec_encode_binary(v));
            assert(s.subrange(pos, pos + 1)[0] == 9u8);
            lemma_rt_binary(s, pos + 1, end, v);
        },
        PropertyView::AuthenticationData(v) => {
            assert(spec_encode_property(p) =~= seq![22u8] + spec_encode_binary(v));
            lemma_subrange_split(s, pos, seq![22u8], spec_encode_binary(v));
            assert(s.subrange(pos, pos + 1)[0] == 22u8);
            lemma_rt_binary(s, pos + 1, end, v);
        },
        PropertyView::SubscriptionIdentifier(v) => {
            assert(spec_encode_property(p) =~= seq![11u8] + spec_varint(v.data as nat));
            lemma_subrange_split(s, pos, seq![11u8], spec_varint(v.data as nat));
            assert(s.subrange(pos, pos + 1)[0] == 11u8);
            lemma_rt_varint(s, pos + 1, end, v.data);
            assert(crate::varint::VariableByteInteger { data: v.data } == v);
        },
        PropertyView::MaximumQoS(v) => {
            assert(spec_encode_property(p) =~= seq![36u8] + seq![crate::definitions::spec_qos_u8(v)]);
            lemma_subrange_split(s, pos, seq![36u8], seq![crate::definitions::spec_qos_u8(v)]);
            assert(s.subrange(pos, pos + 1)[0] == 36u8);
            lemma_rt_byte(s, pos + 1, end, crate::definitions::spec_qos_u8(v));
            assert(crate::definitions::spec_qos_from_u8(crate::definitions::spec_qos_u8(v))
                == Some(v));
        },
    }
}

/// A property list reads back, consuming exactly its own bytes.
pub proof fn lemma_rt_property_list(s: Seq<u8>, pos: int, end: int, ps: Seq<PropertyView>)
    requires
        forall|i: int| 0 <= i < ps.len() ==> wf_property(#[trigger] ps[i]),
        0 <= pos,
        pos + spec_encode_property_list(ps).len() == end,
        end <= s.len(),
        s.subrange(pos, end) == spec_encode_property_list(ps),
    ensures
        spec_parse_property_list(s, pos, end) == Some((ps, end)),
    decreases ps.len(),
{
    if ps.len() == 0 {
        assert(pos == end);
        assert(ps =~= Seq::<PropertyView>::empty());
    } else {
        let head = spec_encode_property(ps[0]);
        let tail = spec_encode_property_list(ps.skip(1));
        assert(spec_encode_property_list(ps) == head + tail);
        lemma_subrange_split(s, pos, head, tail);
        lemma_rt_property(s, pos, end, ps[0]);
        lemma_property_enc_len(ps[0]);
        let np = pos + head.len();
        lemma_rt_property_list(s, np, end, ps.skip(1));
        assert(seq![ps[0]] + ps.skip(1) =~= ps);
    }
}

/// A property block reads back.
pub proof fn lemma_rt_properties(s: Seq<u8>, pos: int, end: int, ps: Seq<PropertyView>)
    requires
        wf_properties(ps),
        0 <= pos,
        pos + spec_encode_properties(ps).len() <= end <= s.len(),
        s.subrange(pos, pos + spec_encode_properties(ps).len()) == spec_encode_properties(ps),
    ensures
        spec_parse_properties(s, pos, end) == Some((ps, pos + spec_encode_properties(ps).len())),
{
    let lst = spec_encode_property_list(ps);
    let lv: u32 = lst.len() as u32;
    assert(spec_encode_properties(ps) == spec_varint(lv as nat) + lst);
    lemma_subrange_split(s, pos, spec_varint(lv as nat), lst);
    lemma_rt_varint(s, pos, end, lv);
    let np = pos + spec_varint(lv as nat).len();
    lemma_rt_property_list(s, np, np + lst.len(), ps);
}

/// The CONNECT variable header reads back.
pub proof fn lemma_rt_connect_vh(
    s: Seq<u8>,
    pos: int,
    end: int,
    vh: crate::packet::ConnectVariableHeaderView,
)
    requires
        crate::frame::encoder::wf_connect_vh(vh),
        0 <= pos,
        pos + crate::frame::encoder::spec_encode_connect_vh(vh).len() <= end <= s.len(),
        s.subrange(pos, pos + crate::frame::encoder::spec_encode_connect_vh(vh).len())
            == crate::frame::encoder::spec_encode_connect_vh(vh),
    ensures
        spec_parse_connect_vh(s, pos, end) == Some(
            (vh, pos + crate::frame::encoder::spec_encode_connect_vh(vh).len()),
        ),
{
    let b1 = spec_encode_binary(vh.protocol_name);
    let b2 = seq![vh.protocol_version, spec_connect_flags_byte(vh.connect_flag)];
    let b3 = spec_be16(vh.keep_alive);
    let b4 = spec_encode_properties(vh.properties);
    assert(crate::frame::encoder::spec_encode_connect_vh(vh) == ((b1 + b2) + b3) + b4);
    lemma_subrange_split(s, pos, (b1 + b2) + b3, b4);
    lemma_subrange_split(s, pos, b1 + b2, b3);
    lemma_subrange_split(s, pos, b1, b2);
    lemma_rt_string(s, pos, end, vh.protocol_name);
    let p1 = pos + b1.len();
    assert(s.subrange(p1, p1 + 2)[0] == vh.protocol_version);
    assert(s.subrange(p1, p1 + 2)[1] == spec_connect_flags_byte(vh.connect_flag));
    assert(s[p1] == vh.protocol_version);
    assert(s[p1 + 1] == spec_connect_flags_byte(vh.connect_flag));
    crate::packet::lemma_connect_flags_round_trip(vh.connect_flag);
    lemma_rt_u16(s, p1 + 2, end, vh.keep_alive);
    lemma_rt_properties(s, p1 + 4, end, vh.properties);
}

/// The CONNECT payload reads back.
#[verifier::rlimit(100)]
pub proof fn lemma_rt_connect_payload(
    s: Seq<u8>,
    pos: int,
    end: int,
    pl: crate::packet::ConnectPayloadView,
    f: crate::packet::ConnectFlags,
)
    requires
        crate::frame::encoder::wf_connect_payload(pl, f),
        0 <= pos,
        pos + crate::frame::encoder::spec_encode_connect_payload(pl, f).len() <= end <= s.len(),
        s.subrange(pos, pos + crate::frame::encoder::spec_encode_connect_payload(pl, f).len())
            == crate::frame::encoder::spec_encode_connect_payload(pl, f),
    ensures
        spec_parse_connect_payload(s, pos, end, f) == Some(
            (pl, pos + crate::frame::encoder::spec_encode_connect_payload(pl, f).len()),
        ),
{
    let b5 = spec_encode_binary(pl.client_identifier);
    let w = if f.will_flag {
        spec_encode_properties(pl.will_properties) + spec_encode_binary(pl.will_topic->0)
            + spec_encode_binary(pl.will_payload->0)
    } else {
        Seq::<u8>::empty()
    };
    let u = if f.user_name_flag {
        spec_encode_binary(pl.user_name->0)
    } else {
        Seq::<u8>::empty()
    };
    let pw = if f.password_flag {
        spec_encode_binary(pl.password->0)
    } else {
        Seq::<u8>::empty()
    };
    assert(crate::frame::encoder::spec_encode_connect_payload(pl, f) == ((b5 + w) + u) + pw);
    lemma_subrange_split(s, pos, (b5 + w) + u, pw);
    lemma_subrange_split(s, pos, b5 + w, u);
    lemma_subrange_split(s, pos, b5, w);
    lemma_rt_string(s, pos, end, pl.client_identifier);
    let p1 = pos + b5.len();
    if f.will_flag {
        let wp = spec_encode_properties(pl.will_properties);
        let wt = spec_encode_binary(pl.will_topic->0);
        let wpay = spec_encode_binary(pl.will_payload->0);
        assert(w == (wp + wt) + wpay);
        lemma_subrange_split(s, p1, wp + wt, wpay);
        lemma_subrange_split(s, p1, wp, wt);
        lemma_rt_properties(s, p1, end, pl.will_properties);
        lemma_rt_string(s, p1 + wp.len(), end, pl.will_topic->0);
        lemma_rt_binary(s, p1 + wp.len() + wt.len(), end, pl.will_payload->0);
    } else {
        assert(pl.will_properties =~= Seq::<PropertyView>::empty());
    }
    let p2 = p1 + w.len();
    if f.user_name_flag {
        lemma_rt_string(s, p2, end, pl.user_name->0);
    }
    let p3 = p2 + u.len();
    if f.password_flag {
        lemma_rt_binary(s, p3, end, pl.password->0);
    }
}

/// A CONNECT body reads back.
pub proof fn lemma_rt_connect(
    s: Seq<u8>,
    pos: int,
    end: int,
    p: crate::packet::ConnectControlPacketView,
)
    requires
        wf_connect(p),
        0 <= pos,
        end == pos + spec_encode_connect(p).len(),
        end <= s.len(),
        s.subrange(pos, end) == spec_encode_connect(p),
    ensures
        spec_parse_connect(s, pos, end) == Some((p, end)),
{
    let vhb = crate::frame::encoder::spec_encode_connect_vh(p.variable_header);
    let plb = crate::frame::encoder::spec_encode_connect_payload(
        p.payload,
        p.variable_header.connect_flag,
    );
    assert(spec_encode_connect(p) == vhb + plb);
    lemma_subrange_split(s, pos, vhb, plb);
    lemma_rt_connect_vh(s, pos, end, p.variable_header);
    lemma_rt_connect_payload(s, pos + vhb.len(), end, p.payload, p.variable_header.connect_flag);
}

/// A CONNACK body reads back.
pub proof fn lemma_rt_conn_ack(
    s: Seq<u8>,
    pos: int,
    end: int,
    p: crate::packet::ConnAckControlPacketView,
)
    requires
        wf_conn_ack(p),
        0 <= pos,
        end == pos + spec_encode_conn_ack(p).len(),
        end <= s.len(),
        s.subrange(pos, end) == spec_encode_conn_ack(p),
    ensures
        spec_parse_conn_ack(s, pos, end) == Some((p, end)),
{
    let fb = spec_conn_ack_flags_byte(p.conn_ack_flag);
    let rb = spec_conn_ack_reason_u8(p.reason_code);
    let props = spec_encode_properties(p.properties);
    assert(spec_encode_conn_ack(p) == seq![fb, rb] + props);
    lemma_subrange_split(s, pos, seq![fb, rb], props);
    assert(s.subrange(pos, pos + 2)[0] == fb);
    assert(s.subrange(pos, pos + 2)[1] == rb);
    assert(s[pos] == fb);
    assert(s[pos + 1] == rb);
    assert(spec_conn_ack_flags(fb) == p.conn_ack_flag);
    lemma_conn_ack_reason_round_trip();
    lemma_rt_properties(s, pos + 2, end, p.properties);
    assert(spec_varint(spec_encode_property_list(p.properties).len() as nat).len() >= 1);
}

/// A PUBLISH body reads back.
pub proof fn lemma_rt_publish(
    s: Seq<u8>,
    pos: int,
    end: int,
    p: crate::packet::PublishControlPacketView,
    has_pid: bool,
)
    requires
        wf_publish(p),
        has_pid == (p.packet_identifier is Some),
        0 <= pos,
        end == pos + spec_encode_publish(p).len(),
        end <= s.len(),
        s.subrange(pos, end) == spec_encode_publish(p),
    ensures
        spec_parse_publish(s, pos, end, has_pid) == Some((p, end)),
{
    let b1 = spec_encode_binary(p.topic_name);
    let pid = match p.packet_identifier {
        Some(pid) => spec_be16(pid),
        None => Seq::<u8>::empty(),
    };
    let props = spec_encode_properties(p.properties);
    assert(spec_encode_publish(p) == ((b1 + pid) + props) + p.payload);
    lemma_subrange_split(s, pos, (b1 + pid) + props, p.payload);
    lemma_subrange_split(s, pos, b1 + pid, props);
    lemma_subrange_split(s, pos, b1, pid);
    lemma_rt_string(s, pos, end, p.topic_name);
    let p1 = pos + b1.len();
    if has_pid {
        lemma_rt_u16(s, p1, end, p.packet_identifier->0);
    }
    let p2 = p1 + pid.len();
    lemma_rt_properties(s, p2, end, p.properties);
    let p3 = p2 + props.len();
    assert(s.subrange(p3, end) == p.payload);
}

/// SUBSCRIBE entries read back.
pub proof fn lemma_rt_sub_entries(
    s: Seq<u8>,
    pos: int,
    end: int,
    es: Seq<crate::packet::SubscribePayloadView>,
)
    requires
        wf_sub_entries(es),
        0 <= pos,
        end == pos + spec_encode_sub_entries(es).len(),
        end <= s.len(),
        s.subrange(pos, end) == spec_encode_sub_entries(es),
    ensures
        spec_parse_sub_entries(s, pos, end) == Some((es, end)),
    decreases es.len(),
{
    if es.len() == 0 {
        assert(es =~= Seq::<crate::packet::SubscribePayloadView>::empty());
    } else {
        let e0 = es[0];
        let fb = spec_encode_binary(e0.topic_filter);
        let ob = spec_subscription_options_byte(e0.subscription_options);
        let tail = spec_encode_sub_entries(es.skip(1));
        assert(spec_encode_sub_entries(es) == (fb + seq![ob]) + tail);
        lemma_subrange_split(s, pos, fb + seq![ob], tail);
        lemma_subrange_split(s, pos, fb, seq![ob]);
        assert(wf_string(e0.topic_filter) && wf_subscription_options(e0.subscription_options));
        lemma_rt_string(s, pos, end, e0.topic_filter);
        let p1 = pos + fb.len();
        lemma_rt_byte(s, p1, end, ob);
        crate::packet::lemma_subscription_options_round_trip(e0.subscription_options);
        let p2 = p1 + 1;
        assert(forall|i: int| 0 <= i < es.skip(1).len() ==> wf_string(
            (#[trigger] es.skip(1)[i]).topic_filter,
        ) && wf_subscription_options(es.skip(1)[i].subscription_options)) by {
            assert(forall|i: int| 0 <= i < es.skip(1).len() ==> es.skip(1)[i] == es[i + 1]);
        }
        lemma_rt_sub_entries(s, p2, end, es.skip(1));
        assert(seq![e0] + es.skip(1) =~= es);
    }
}

/// A SUBSCRIBE body reads back.
pub proof fn lemma_rt_subscribe(
    s: Seq<u8>,
    pos: int,
    end: int,
    p: crate::packet::SubscribeControlPacketView,
)
    requires
        wf_subscribe(p),
        0 <= pos,
        end == pos + spec_encode_subscribe(p).len(),
        end <= s.len(),
        s.subrange(pos, end) == spec_encode_subscribe(p),
    ensures
        spec_parse_subscribe(s, pos, end) == Some((p, end)),
{
    let b1 = spec_be16(p.packet_identifier);
    let props = spec_encode_properties(p.properties);
    let entries = spec_encode_sub_entries(p.subscribe_payload);
    assert(spec_encode_subscribe(p) == (b1 + props) + entries);
    lemma_subrange_split(s, pos, b1 + props, entries);
    lemma_subrange_split(s, pos, b1, props);
    lemma_rt_u16(s, pos, end, p.packet_identifier);
    lemma_rt_properties(s, pos + 2, end, p.properties);
    lemma_rt_sub_entries(s, pos + 2 + props.len(), end, p.subscribe_payload);
}

/// SUBACK reason codes read back.
pub proof fn lemma_rt_sub_ack_codes(s: Seq<u8>, pos: int, end: int, cs: Seq<SubAckReasonCode>)
    requires
        0 <= pos,
        end == pos + spec_encode_sub_ack_codes(cs).len(),
        end <= s.len(),
        s.subrange(pos, end) == spec_encode_sub_ack_codes(cs),
    ensures
        spec_parse_sub_ack_codes(s, pos, end) == Some((cs, end)),
    decreases cs.len(),
{
    if cs.len() == 0 {
        assert(cs =~= Seq::<SubAckReasonCode>::empty());
    } else {
        let b = spec_sub_ack_reason_u8(cs[0]);
        let tail = spec_encode_sub_ack_codes(cs.skip(1));
        assert(spec_encode_sub_ack_codes(cs) == seq![b] + tail);
        lemma_subrange_split(s, pos, seq![b], tail);
        assert(s.subrange(pos, pos + 1)[0] == b);
        assert(s[pos] == b);
        lemma_sub_ack_reason_round_trip();
        lemma_rt_sub_ack_codes(s, pos + 1, end, cs.skip(1));
        assert(seq![cs[0]] + cs.skip(1) =~= cs);
    }
}

/// A SUBACK body reads back.
pub proof fn lemma_rt_sub_ack(
    s: Seq<u8>,
    pos: int,
    end: int,
    p: crate::packet::SubAckControlPacketView,
)
    requires
        wf_sub_ack(p),
        0 <= pos,
        end == pos + spec_encode_sub_ack(p).len(),
        end <= s.len(),
        s.subrange(pos, end) == spec_encode_sub_ack(p),
    ensures
        spec_parse_sub_ack(s, pos, end) == Some((p, end)),
{
    let b1 = spec_be16(p.packet_identifier);
    let props = spec_encode_properties(p.properties);
    let codes = spec_encode_sub_ack_codes(p.sub_ack_reason_codes);
    assert(spec_encode_sub_ack(p) == (b1 + props) + codes);
    lemma_subrange_split(s, pos, b1 + props, codes);
    lemma_subrange_split(s, pos, b1, props);
    lemma_rt_u16(s, pos, end, p.packet_identifier);
    lemma_rt_properties(s, pos + 2, end, p.properties);
    lemma_rt_sub_ack_codes(s, pos + 2 + props.len(), end, p.sub_ack_reason_codes);
}

/// UNSUBSCRIBE filters read back.
pub proof fn lemma_rt_unsub_filters(s: Seq<u8>, pos: int, end: int, fs: Seq<Seq<u8>>)
    requires
        wf_unsub_filters(fs),
        0 <= pos,
        end == pos + spec_encode_unsub_filters(fs).len(),
        end <= s.len(),
        s.subrange(pos, end) == spec_encode_unsub_filters(fs),
    ensures
        spec_parse_unsub_filters(s, pos, end) == Some((fs, end)),
    decreases fs.len(),
{
    if fs.len() == 0 {
        assert(fs =~= Seq::<Seq<u8>>::empty());
    } else {
        let fb = spec_encode_binary(fs[0]);
        let tail = spec_encode_unsub_filters(fs.skip(1));
        assert(spec_encode_unsub_filters(fs) == fb + tail);
        lemma_subrange_split(s, pos, fb, tail);
        assert(wf_string(fs[0]));
        lemma_rt_string(s, pos, end, fs[0]);
        assert(forall|i: int| 0 <= i < fs.skip(1).len() ==> wf_string(#[trigger] fs.skip(1)[i]))
            by {
            assert(forall|i: int| 0 <= i < fs.skip(1).len() ==> fs.skip(1)[i] == fs[i + 1]);
        }
        lemma_rt_unsub_filters(s, pos + fb.len(), end, fs.skip(1));
        assert(seq![fs[0]] + fs.skip(1) =~= fs);
    }
}

/// An UNSUBSCRIBE body reads back.
pub proof fn lemma_rt_unsubscribe(
    s: Seq<u8>,
    pos: int,
    end: int,
    p: crate::packet::UnsubscribeControlPacketView,
)
    requires
        wf_unsubscribe(p),
        0 <= pos,
        end == pos + spec_encode_unsubscribe(p).len(),
        end <= s.len(),
        s.subrange(pos, end) == spec_encode_unsubscribe(p),
    ensures
        spec_parse_unsubscribe(s, pos, end) == Some((p, end)),
{
    let b1 = spec_be16(p.packet_identifier);
    let props = spec_encode_properties(p.properties);
    let filters = spec_encode_unsub_filters(p.topic_filters);
    assert(spec_encode_unsubscribe(p) == (b1 + props) + filters);
    lemma_subrange_split(s, pos, b1 + props, filters);
    lemma_subrange_split(s, pos, b1, props);
    lemma_rt_u16(s, pos, end, p.packet_identifier);
    lemma_rt_properties(s, pos + 2, end, p.properties);
    lemma_rt_unsub_filters(s, pos + 2 + props.len(), end, p.topic_filters);
}

/// UNSUBACK reason codes read back.
pub proof fn lemma_rt_unsub_ack_codes(s: Seq<u8>, pos: int, end: int, cs: Seq<UnSubAckReasonCode>)
    requires
        0 <= pos,
        end == pos + spec_encode_unsub_ack_codes(cs).len(),
        end <= s.len(),
        s.subrange(pos, end) == spec_encode_unsub_ack_codes(cs),
    ensures
        spec_parse_unsub_ack_codes(s, pos, end) == Some((cs, end)),
    decreases cs.len(),
{
    if cs.len() == 0 {
        assert(cs =~= Seq::<UnSubAckReasonCode>::empty());
    } else {
        let b = spec_un_sub_ack_reason_u8(cs[0]);
        let tail = spec_encode_unsub_ack_codes(cs.skip(1));
        assert(spec_encode_unsub_ack_codes(cs) == seq![b] + tail);
        lemma_subrange_split(s, pos, seq![b], tail);
        assert(s.subrange(pos, pos + 1)[0] == b);
        assert(s[pos] == b);
        lemma_un_sub_ack_reason_round_trip();
        lemma_rt_unsub_ack_codes(s, pos + 1, end, cs.skip(1));
        assert(seq![cs[0]] + cs.skip(1) =~= cs);
    }
}

/// An UNSUBACK body reads back.
pub proof fn lemma_rt_unsub_ack(
    s: Seq<u8>,
    pos: int,
    end: int,
    p: crate::packet::UnsubAckControlPacketView,
)
    requires
        wf_unsub_ack(p),
        0 <= pos,
        end == pos + spec_encode_unsub_ack(p).len(),
        end <= s.len(),
        s.subrange(pos, end) == spec_encode_unsub_ack(p),
    ensures
        spec_parse_unsub_ack(s, pos, end) == Some((p, end)),
{
    let b1 = spec_be16(p.packet_identifier);
    let props = spec_encode_properties(p.properties);
    let codes = spec_encode_unsub_ack_codes(p.reason_codes);
    assert(spec_encode_unsub_ack(p) == (b1 + props) + codes);
    lemma_subrange_split(s, pos, b1 + props, codes);
    lemma_subrange_split(s, pos, b1, props);
    lemma_rt_u16(s, pos, end, p.packet_identifier);
    lemma_rt_properties(s, pos + 2, end, p.properties);
    lemma_rt_unsub_ack_codes(s, pos + 2 + props.len(), end, p.reason_codes);
}

/// A DISCONNECT body reads back.
pub proof fn lemma_rt_disconnect(
    s: Seq<u8>,
    pos: int,
    end: int,
    p: crate::packet::DisconnectControlPacketView,
)
    requires
        wf_disconnect(p),
        0 <= pos,
        end == pos + spec_encode_disconnect(p).len(),
        end <= s.len(),
        s.subrange(pos, end) == spec_encode_disconnect(p),
    ensures
        spec_parse_disconnect(s, pos, end) == Some((p, end)),
{
    let rb = spec_disconnect_reason_u8(p.reason_code);
    let props = spec_encode_properties(p.properties);
    assert(spec_encode_disconnect(p) == seq![rb] + props);
    lemma_subrange_split(s, pos, seq![rb], props);
    assert(s.subrange(pos, pos + 1)[0] == rb);
    assert(s[pos] == rb);
    lemma_disconnect_reason_round_trip();
    lemma_rt_properties(s, pos + 1, end, p.properties);
    assert(spec_varint(spec_encode_property_list(p.properties).len() as nat).len() >= 1);
}

/// An AUTH body reads back.
pub proof fn lemma_rt_auth(s: Seq<u8>, pos: int, end: int, p: crate::packet::AuthControlPacketView)
    requires
        wf_auth(p),
        0 <= pos,
        end == pos + spec_encode_auth(p).len(),
        end <= s.len(),
        s.subrange(pos, end) == spec_encode_auth(p),
    ensures
        spec_parse_auth(s, pos, end) == Some((p, end)),
{
    let rb = spec_auth_reason_u8(p.reason_code);
    let props = spec_encode_properties(p.properties);
    assert(spec_encode_auth(p) == seq![rb] + props);
    lemma_subrange_split(s, pos, seq![rb], props);
    assert(s.subrange(pos, pos + 1)[0] == rb);
    assert(s[pos] == rb);
    lemma_auth_reason_round_trip();
    lemma_rt_properties(s, pos + 1, end, p.properties);
    assert(spec_varint(spec_encode_property_list(p.properties).len() as nat).len() >= 1);
}

/// Any well-formed packet body reads back under its own packet type.
pub proof fn lemma_rt_packet(s: Seq<u8>, pos: int, end: int, cp: ControlPacketView, qos: u8)
    requires
        wf_packet(cp),
        (cp matches ControlPacketView::Publish(p) ==> ((p.packet_identifier is Some) <==> qos
            > 0)),
        0 <= pos,
        end == pos + spec_encode_packet(cp).len(),
        end <= s.len(),
        s.subrange(pos, end) == spec_encode_packet(cp),
    ensures
        spec_parse_packet(spec_packet_type_of(cp), qos, s, pos, end) == Some((cp, end)),
{
    match cp {
        ControlPacketView::Connect(p) => lemma_rt_connect(s, pos, end, p),
        ControlPacketView::ConnAck(p) => lemma_rt_conn_ack(s, pos, end, p),
        ControlPacketView::Publish(p) => lemma_rt_publish(s, pos, end, p, qos > 0),
        ControlPacketView::PubAck(p) => lemma_rt_pub_ack(s, pos, end, p),
        ControlPacketView::PubRec(p) => lemma_rt_pub_rec(s, pos, end, p),
        ControlPacketView::PubRel(p) => lemma_rt_pub_rel(s, pos, end, p),
        ControlPacketView::PubComp(p) => lemma_rt_pub_comp(s, pos, end, p),
        ControlPacketView::Subscribe(p) => lemma_rt_subscribe(s, pos, end, p),
        ControlPacketView::SubAck(p) => lemma_rt_sub_ack(s, pos, end, p),
        ControlPacketView::Unsubscribe(p) => lemma_rt_unsubscribe(s, pos, end, p),
        ControlPacketView::UnsubAck(p) => lemma_rt_unsub_ack(s, pos, end, p),
        ControlPacketView::PingReq => {},
        ControlPacketView::PingResp => {},
        ControlPacketView::Disconnect(p) => lemma_rt_disconnect(s, pos, end, p),
        ControlPacketView::Auth(p) => lemma_rt_auth(s, pos, end, p),
    }
}

/// Law: parsing the encoding of any well-formed frame, with any bytes at
/// all after it, yields exactly that frame and consumes exactly its
/// encoding.
#[verifier::rlimit(100)]
pub proof fn lemma_frame_round_trip(f: FrameView, rest: Seq<u8>)
    requires
        wf_frame(f),
    ensures
        spec_parse_frame(spec_encode_frame(f) + rest) == FrameParse::Parsed(
            f,
            spec_encode_frame(f).len() as int,
        ),
{
    let h = f.fix_header;
    let t = h.control_packet_type;
    let tcode = spec_packet_type_u8(t);
    let body = spec_encode_packet(f.control_packet);
    let blen: u32 = body.len() as u32;
    let vi = spec_varint(blen as nat);
    let hb = spec_header_byte(h);
    let enc = spec_encode_frame(f);
    let s = enc + rest;
    assert(enc == (seq![hb] + vi) + body);
    lemma_varint_len(blen as nat);
    assert(s.subrange(0, enc.len() as int) =~= enc);
    lemma_subrange_split(s, 0, seq![hb] + vi, body);
    lemma_subrange_split(s, 0, seq![hb], vi);
    assert(s.subrange(0, 1)[0] == hb);
    assert(s[0] == hb);
    let low: u8 = (h.flags.0 + h.flags.1 * 2 + h.flags.2 * 4 + h.flags.3 * 8) as u8;
    assert(1 <= tcode <= 15);
    if t is PUBLISH {
        assert(tcode == 3);
        assert(h.flags.0 + h.flags.1 * 2 + h.flags.2 * 4 + h.flags.3 * 8 <= 13);
    } else {
        assert(tcode != 3);
        assert(h.flags.0 + h.flags.1 * 2 + h.flags.2 * 4 + h.flags.3 * 8 <= 2);
    }
    assert(hb == tcode * 16 + low);
    assert(hb / 16 == tcode);
    assert(hb % 16 == low);
    lemma_packet_type_round_trip();
    assert(spec_packet_type_from_u8(tcode) == Some(t));
    assert(spec_flags_of_byte(tcode, low) == h.flags);
    assert(spec_parse_fix_header(s, 0) == Some((h, 1int)));
    assert(spec_flag_check(h) is None);
    assert(crate::varint::pow128(0) == 1);
    assert(crate::varint::pow128(1) == 128);
    assert(crate::varint::pow128(2) == 16384);
    assert(crate::varint::pow128(3) == 2097152);
    assert(crate::varint::pow128(4) == 268435456);
    crate::varint::lemma_varint_round_trip_rec(s, 1, 0, 0, blen as nat);
    assert((0 + (blen as nat) * 1) % 0x100000000 == blen as nat);
    assert(spec_decode_varint(s, 1) == ParsedVarint::Done(blen, 1 + vi.len() as int));
    let bodystart = 1 + vi.len() as int;
    assert(s.len() >= bodystart + blen);
    lemma_rt_packet(s, bodystart, bodystart + blen, f.control_packet, h.flags.1);
}

/// A PUBACK body reads back.
pub proof fn lemma_rt_pub_ack(s: Seq<u8>, pos: int, end: int, p: crate::packet::PubAckControlPacketView)
    requires
        wf_pub_ack(p),
        0 <= pos,
        end == pos + spec_encode_pub_ack(p).len(),
        end <= s.len(),
        s.subrange(pos, end) == spec_encode_pub_ack(p),
    ensures
        spec_parse_pub_ack(s, pos, end) == Some((p, end)),
{
    let rb = spec_pub_ack_reason_u8(p.reason_code);
    let props = spec_encode_properties(p.properties);
    assert(spec_encode_pub_ack(p) == (spec_be16(p.packet_identifier) + seq![rb]) + props);
    lemma_subrange_split(s, pos, spec_be16(p.packet_identifier) + seq![rb], props);
    lemma_subrange_split(s, pos, spec_be16(p.packet_identifier), seq![rb]);
    lemma_rt_u16(s, pos, end, p.packet_identifier);
    lemma_rt_byte(s, pos + 2, end, rb);
    lemma_pub_ack_reason_round_trip();
    lemma_rt_properties(s, pos + 3, end, p.properties);
    assert(spec_varint(spec_encode_property_list(p.properties).len() as nat).len() >= 1);
}

/// A PUBREC body reads back.
pub proof fn lemma_rt_pub_rec(s: Seq<u8>, pos: int, end: int, p: crate::packet::PubRecControlPacketView)
    requires
        wf_pub_rec(p),
        0 <= pos,
        end == pos + spec_encode_pub_rec(p).len(),
        end <= s.len(),
        s.subrange(pos, end) == spec_encode_pub_rec(p),
    ensures
        spec_parse_pub_rec(s, pos, end) == Some((p, end)),
{
    let rb = spec_pub_rec_reason_u8(p.reason_code);
    let props = spec_encode_properties(p.properties);
    assert(spec_encode_pub_rec(p) == (spec_be16(p.packet_identifier) + seq![rb]) + props);
    lemma_subrange_split(s, pos, spec_be16(p.packet_identifier) + seq![rb], props);
    lemma_subrange_split(s, pos, spec_be16(p.packet_identifier), seq![rb]);
    lemma_rt_u16(s, pos, end, p.packet_identifier);
    lemma_rt_byte(s, pos + 2, end, rb);
    lemma_pub_rec_reason_round_trip();
    lemma_rt_properties(s, pos + 3, end, p.properties);
    assert(spec_varint(spec_encode_property_list(p.properties).len() as nat).len() >= 1);
}

/// A PUBREL body reads back.
pub proof fn lemma_rt_pub_rel(s: Seq<u8>, pos: int, end: int, p: crate::packet::PubRelControlPacketView)
    requires
        wf_pub_rel(p),
        0 <= pos,
        end == pos + spec_encode_pub_rel(p).len(),
        end <= s.len(),
        s.subrange(pos, end) == spec_encode_pub_rel(p),
    ensures
        spec_parse_pub_rel(s, pos, end) == Some((p, end)),
{
    let rb = spec_pub_rel_reason_u8(p.reason_code);
    let props = spec_encode_properties(p.properties);
    assert(spec_encode_pub_rel(p) == (spec_be16(p.packet_identifier) + seq![rb]) + props);
    lemma_subrange_split(s, pos, spec_be16(p.packet_identifier) + seq![rb], props);
    lemma_subrange_split(s, pos, spec_be16(p.packet_identifier), seq![rb]);
    lemma_rt_u16(s, pos, end, p.packet_identifier);
    lemma_rt_byte(s, pos + 2, end, rb);
    lemma_pub_rel_reason_round_trip();
    lemma_rt_properties(s, pos + 3, end, p.properties);
    assert(spec_varint(spec_encode_property_list(p.properties).len() as nat).len() >= 1);
}

/// A PUBCOMP body reads back.
pub proof fn lemma_rt_pub_comp(s: Seq<u8>, pos: int, end: int, p: crate::packet::PubCompControlPacketView)
    requires
        wf_pub_comp(p),
        0 <= pos,
        end == pos + spec_encode_pub_comp(p).len(),
        end <= s.len(),
        s.subrange(pos, end) == spec_encode_pub_comp(p),
    ensures
        spec_parse_pub_comp(s, pos, end) == Some((p, end)),
{
    let rb = spec_pub_comp_reason_u8(p.reason_code);
    let props = spec_encode_properties(p.properties);
    assert(spec_encode_pub_comp(p) == (spec_be16(p.packet_identifier) + seq![rb]) + props);
    lemma_subrange_split(s, pos, spec_be16(p.packet_identifier) + seq![rb], props);
    lemma_subrange_split(s, pos, spec_be16(p.packet_identifier), seq![rb]);
    lemma_rt_u16(s, pos, end, p.packet_identifier);
    lemma_rt_byte(s, pos + 2, end, rb);
    lemma_pub_comp_reason_round_trip();
    lemma_rt_properties(s, pos + 3, end, p.properties);
    assert(spec_varint(spec_encode_property_list(p.properties).len() as nat).len() >= 1);
}

} // verus!
