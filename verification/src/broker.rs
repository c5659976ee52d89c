//! Broker hub and per-connection session automaton: owns the topic trie
//! and the session registry, drives the CONNECT handshake, the QoS 0/1/2
//! acknowledgement sequences, SUBSCRIBE/UNSUBSCRIBE, PINGREQ and
//! DISCONNECT, and routes PUBLISH messages to subscriber queues.
use crate::definitions::{
    spec_qos_u8, ConnAckReasonCode, ControlPacketType, DisconnectReasonCode, FixHeader, Flags,
    PubAckReasonCode, PubCompReasonCode, PubRecReasonCode, Qos, SubAckReasonCode,
    UnSubAckReasonCode,
};
use crate::frame::encoder::{no_wildcards, wf_frame, wf_string};
use crate::frame::{ControlPacket, ControlPacketView, Frame};
use crate::packet::{
    ConnAckControlPacket, ConnAckFlags, ConnectControlPacket, DisconnectControlPacket, Property,
    PubAckControlPacket, PubCompControlPacket, PubRecControlPacket, PublishControlPacket,
    SubAckControlPacket, SubAckPayload, SubscribeControlPacket, SubscribePayload,
    UnsubAckControlPacket, UnsubscribeControlPacket,
};
use crate::frame::decoder::copy_range;
use crate::text::{is_utf8, is_valid_utf8_range, u16_to_ascii};
use crate::topic::{
    contains_id, ids_set, match_ids, seg_match, seg_match_exec, segs_view, spec_split,
    split_segments, wf_nodes, TopicTree,
};
use vstd::prelude::*;

verus! {

/// The most acknowledge codes a SUBACK or UNSUBACK body can carry: the
/// largest remaining length (268435455) minus the packet identifier (two
/// bytes) and an empty property block (one byte). A SUBSCRIBE or
/// UNSUBSCRIBE that arrived in a frame is far below this, since each of
/// its entries takes several body bytes.
pub const MAX_ACK_CODES: usize = 268435452;

/// Per-connection protocol automaton state.
#[derive(Debug, Clone, Copy, PartialEq, Eq, Structural)]
pub enum SessionState {
    AwaitingConnect,
    Connected,
    Disconnecting,
}

/// Per-client broker-held state: identity, connect parameters, the will,
/// subscriptions, the QoS 2 packet-identifier book, and the outbound
/// frame queue that the connection's writer drains.
#[derive(Debug, Clone, PartialEq)]
pub struct Session {
    pub client_id: Vec<u8>,
    pub clean_start: bool,
    pub keep_alive: u16,
    pub state: SessionState,
    pub connected: bool,
    pub subscriptions: Vec<SubscribePayload>,
    pub qos2_in_progress: Vec<u16>,
    pub outbound: Vec<Frame>,
    pub will_topic: Option<Vec<u8>>,
    pub will_payload: Option<Vec<u8>>,
    pub will_qos: u8,
    pub will_retain: bool,
}

/// A session with a live connection in the connected state.
pub open spec fn session_live(s: Session) -> bool {
    s.connected && s.state is Connected
}

/// Everything of two sessions agrees except the outbound queue.
pub open spec fn session_eq_but_outbound(a: Session, b: Session) -> bool {
    &&& a.client_id == b.client_id
    &&& a.clean_start == b.clean_start
    &&& a.keep_alive == b.keep_alive
    &&& a.state == b.state
    &&& a.connected == b.connected
    &&& a.subscriptions == b.subscriptions
    &&& a.qos2_in_progress == b.qos2_in_progress
    &&& a.will_topic == b.will_topic
    &&& a.will_payload == b.will_payload
    &&& a.will_qos == b.will_qos
    &&& a.will_retain == b.will_retain
}

/// Everything of two sessions agrees except the stored subscriptions.
pub open spec fn session_eq_but_subscriptions(a: Session, b: Session) -> bool {
    &&& a.client_id == b.client_id
    &&& a.clean_start == b.clean_start
    &&& a.keep_alive == b.keep_alive
    &&& a.state == b.state
    &&& a.connected == b.connected
    &&& a.qos2_in_progress == b.qos2_in_progress
    &&& a.outbound == b.outbound
    &&& a.will_topic == b.will_topic
    &&& a.will_payload == b.will_payload
    &&& a.will_qos == b.will_qos
    &&& a.will_retain == b.will_retain
}

/// Everything of two sessions agrees except the outbound queue, the
/// connection flag and the automaton state.
pub open spec fn session_eq_but_outbound_liveness(a: Session, b: Session) -> bool {
    &&& a.client_id == b.client_id
    &&& a.clean_start == b.clean_start
    &&& a.keep_alive == b.keep_alive
    &&& a.subscriptions == b.subscriptions
    &&& a.qos2_in_progress == b.qos2_in_progress
    &&& a.will_topic == b.will_topic
    &&& a.will_payload == b.will_payload
    &&& a.will_qos == b.will_qos
    &&& a.will_retain == b.will_retain
}

/// A frame that delivers the given application message: a well-formed
/// PUBLISH carrying exactly this topic and payload.
pub open spec fn is_publish_to(f: Frame, topic: Seq<u8>, payload: Seq<u8>) -> bool {
    &&& f.fix_header.control_packet_type is PUBLISH
    &&& (f.control_packet@ matches ControlPacketView::Publish(p) && p.topic_name == topic
        && p.payload == payload)
    &&& wf_frame(f@)
}

/// The smaller of two QoS levels.
pub open spec fn min_qos(a: u8, b: u8) -> u8 {
    if a < b {
        a
    } else {
        b
    }
}

pub open spec fn max_qos_of(a: u8, b: u8) -> u8 {
    if a > b {
        a
    } else {
        b
    }
}

/// The view of a stored subscription list.
pub open spec fn subs_view(v: Seq<SubscribePayload>) -> Seq<crate::packet::SubscribePayloadView> {
    v.map_values(|p: SubscribePayload| p@)
}

/// The highest maximum QoS among the subscriptions (from index `i` on)
/// whose filter matches the topic, or zero when none matches.
pub open spec fn spec_best_sub_qos(
    subs: Seq<crate::packet::SubscribePayloadView>,
    t: Seq<Seq<u8>>,
    i: int,
) -> u8
    decreases subs.len() - i,
{
    if !(0 <= i < subs.len()) {
        0
    } else {
        let q = if seg_match(spec_split(subs[i].topic_filter), 0, t, 0, true) {
            spec_qos_u8(subs[i].subscription_options.maximum_qos)
        } else {
            0
        };
        max_qos_of(q, spec_best_sub_qos(subs, t, i + 1))
    }
}

/// One step of a fan-out, seen from session `j`: a live session whose
/// identifier the topic's match set holds gets exactly one well-formed
/// PUBLISH carrying this message, at the published QoS capped by its best
/// matching subscription; every other session is untouched.
pub open spec fn delivered_or_unchanged(
    pre: Broker,
    post: Broker,
    j: int,
    topic: Seq<u8>,
    payload: Seq<u8>,
    qos: u8,
) -> bool {
    let s = pre.sessions@[j];
    let s2 = post.sessions@[j];
    if session_live(s) && match_ids(pre.trie@, 0, spec_split(topic), 0, true).contains(
        s.client_id@,
    ) {
        &&& s2.outbound@.len() == s.outbound@.len() + 1
        &&& s2.outbound@ == s.outbound@.push(s2.outbound@.last())
        &&& is_publish_to(s2.outbound@.last(), topic, payload)
        &&& s2.outbound@.last().fix_header.flags.1 == min_qos(
            qos,
            spec_best_sub_qos(subs_view(s.subscriptions@), spec_split(topic), 0),
        )
        &&& (s2.outbound@.last().control_packet@ matches ControlPacketView::Publish(pp) && ((
        pp.packet_identifier is Some) <==> s2.outbound@.last().fix_header.flags.1 > 0))
        &&& session_eq_but_outbound(s2, s)
    } else {
        s2 == s
    }
}

/// The PUBLISH rows of the session automaton. Acceptance is owed exactly
/// for a publishable topic and payload with a packet identifier whenever
/// QoS > 0; acceptance fans the message out once per identifier (QoS 2
/// duplicates re-draw PUBREC and touch nobody else) and draws the
/// matching acknowledgement; rejection queues DISCONNECT(MalformedPacket)
/// and closes, touching no other session.
pub open spec fn publish_row(
    pre: Broker,
    post: Broker,
    conn: int,
    p: crate::packet::PublishControlPacketView,
    qos: u8,
    keep: bool,
) -> bool {
    let s = pre.sessions@[conn];
    let s2 = post.sessions@[conn];
    let pid = p.packet_identifier->0;
    &&& (keep <==> publishable(p.topic_name, p.payload) && (qos > 0 ==> p.packet_identifier
        is Some))
    &&& (!keep ==> !s2.connected && s2.state is Disconnecting && is_disconnect_with(
        s2.outbound@.last(),
        DisconnectReasonCode::MalformedPacket,
    ) && others_unchanged(pre, post, conn))
    &&& (keep && qos == 1 ==> s2.outbound@.len() > 0 && is_pub_ack_success(
        s2.outbound@.last(),
        pid,
    ))
    &&& (keep && qos == 2 ==> s2.outbound@.len() > 0 && is_pub_rec_success(
        s2.outbound@.last(),
        pid,
    ) && s2.qos2_in_progress@.contains(pid))
    &&& (keep && qos == 2 && s.qos2_in_progress@.contains(pid) ==> others_unchanged(
        pre,
        post,
        conn,
    ) && s2.outbound@ == s.outbound@.push(s2.outbound@.last()) && session_eq_but_outbound(s2, s))
    &&& (keep && (qos < 2 || !s.qos2_in_progress@.contains(pid)) ==> forall|j: int|
        0 <= j < pre.sessions@.len() && j != conn ==> #[trigger] delivered_or_unchanged(
            pre,
            post,
            j,
            p.topic_name,
            p.payload,
            qos,
        ))
}

/// The PUBREL row: always accepted; PUBCOMP(pid, Success) is queued and
/// the identifier leaves the QoS 2 book; nobody else is touched.
pub open spec fn pub_rel_row(
    pre: Broker,
    post: Broker,
    conn: int,
    p: crate::packet::PubRelControlPacketView,
    keep: bool,
) -> bool {
    let s = pre.sessions@[conn];
    let s2 = post.sessions@[conn];
    &&& keep
    &&& others_unchanged(pre, post, conn)
    &&& s2.outbound@ == s.outbound@.push(s2.outbound@.last())
    &&& is_pub_comp_success(s2.outbound@.last(), p.packet_identifier)
    &&& !s2.qos2_in_progress@.contains(p.packet_identifier)
    &&& forall|x: u16| x != p.packet_identifier ==> (#[trigger] s2.qos2_in_progress@.contains(x)
        <==> s.qos2_in_progress@.contains(x))
}

/// What an ungraceful end of session does with the stored will: a
/// stored, publishable will is fanned out like any other message; absent
/// or unusable wills leave every other session untouched.
pub open spec fn will_fanned_out(pre: Broker, post: Broker, conn: int) -> bool {
    let s = pre.sessions@[conn];
    let has_will = s.will_topic is Some && s.will_payload is Some && publishable(
        s.will_topic->0@,
        s.will_payload->0@,
    );
    &&& (has_will ==> forall|j: int| 0 <= j < pre.sessions@.len() && j != conn ==> #[trigger]
        delivered_or_unchanged(
        pre,
        post,
        j,
        s.will_topic->0@,
        s.will_payload->0@,
        min_qos(s.will_qos, 2),
    ))
    &&& (!has_will ==> others_unchanged(pre, post, conn))
}

/// The DISCONNECT row: never keeps the connection, sends no reply, and
/// publishes the will exactly when the reason is not a normal
/// disconnection.
pub open spec fn disconnect_row(
    pre: Broker,
    post: Broker,
    conn: int,
    p: crate::packet::DisconnectControlPacketView,
    keep: bool,
) -> bool {
    &&& !keep
    &&& !post.sessions@[conn].connected
    &&& post.sessions@[conn].state is Disconnecting
    &&& (p.reason_code != DisconnectReasonCode::NormalDisconnection ==> will_fanned_out(
        pre,
        post,
        conn,
    ))
    &&& (p.reason_code == DisconnectReasonCode::NormalDisconnection ==> others_unchanged(
        pre,
        post,
        conn,
    ))
}

/// A topic name the hub accepts for fan-out: a valid UTF-8 string with no
/// wildcards, and a payload that keeps the frame under the largest
/// remaining length.
pub open spec fn publishable(topic: Seq<u8>, payload: Seq<u8>) -> bool {
    &&& wf_string(topic)
    &&& topic.len() > 0
    &&& no_wildcards(topic)
    &&& payload.len() <= 268369915
}

/// The single logical owner of the topic trie and the session registry.
pub struct Broker {
    pub trie: TopicTree,
    pub sessions: Vec<Session>,
    pub next_packet_id: u16,
    pub maximum_qos: u8,
}

/// At most one live connection per client identifier.
pub open spec fn unique_live_ids(sessions: Seq<Session>) -> bool {
    forall|i: int, j: int|
        0 <= i < j < sessions.len() && session_live(#[trigger] sessions[i]) && session_live(
            #[trigger] sessions[j],
        ) ==> sessions[i].client_id@ != sessions[j].client_id@
}

/// The trie arena is well-formed, the broker grants QoS at most 2, and no
/// client identifier has two live connections.
pub open spec fn wf_broker(b: Broker) -> bool {
    wf_nodes(b.trie@) && b.maximum_qos <= 2 && unique_live_ids(b.sessions@)
}

impl Broker {
    /// An empty broker: a bare trie root and no sessions.
    pub fn new() -> (r: Broker)
        ensures
            wf_broker(r),
            r.sessions@.len() == 0,
            r.trie@.len() == 1,
            r.maximum_qos == 2,
    {
        Broker {
            trie: TopicTree::new_root(),
            sessions: Vec::new(),
            next_packet_id: 1,
            maximum_qos: 2,
        }
    }

    /// Registers a fresh connection and returns its session index. The
    /// session awaits its CONNECT frame.
    pub fn open_connection(&mut self) -> (conn: usize)
        requires
            wf_broker(*old(self)),
        ensures
            wf_broker(*final(self)),
            conn == old(self).sessions@.len(),
            final(self).sessions@.len() == old(self).sessions@.len() + 1,
            forall|j: int| 0 <= j < old(self).sessions@.len() ==> final(self).sessions@[j]
                == old(self).sessions@[j],
            final(self).sessions@[conn as int].state is AwaitingConnect,
            final(self).sessions@[conn as int].connected,
            final(self).sessions@[conn as int].outbound@.len() == 0,
            final(self).trie@ == old(self).trie@,
    {
        let conn = self.sessions.len();
        self.sessions.push(
            Session {
                client_id: Vec::new(),
                clean_start: false,
                keep_alive: 0,
                state: SessionState::AwaitingConnect,
                connected: true,
                subscriptions: Vec::new(),
                qos2_in_progress: Vec::new(),
                outbound: Vec::new(),
                will_topic: None,
                will_payload: None,
                will_qos: 0,
                will_retain: false,
            },
        );
        conn
    }

    /// Routes one application message: every live session whose client
    /// identifier the trie matches for this topic gets exactly one
    /// well-formed PUBLISH appended to its outbound queue, with the QoS
    /// capped at the published QoS; every other session is untouched.
    pub fn publish(&mut self, topic_name: &Vec<u8>, payload: &Vec<u8>, qos: u8, retain: bool)
        requires
            wf_broker(*old(self)),
            publishable(topic_name@, payload@),
            qos <= 2,
        ensures
            wf_broker(*final(self)),
            final(self).trie@ == old(self).trie@,
            final(self).sessions@.len() == old(self).sessions@.len(),
            forall|j: int| 0 <= j < old(self).sessions@.len() ==> #[trigger] delivered_or_unchanged(
                *old(self),
                *final(self),
                j,
                topic_name@,
                payload@,
                qos,
            ),
    {
        let ids = match self.trie.get_subscribers_id(topic_name) {
            Some(v) => v,
            None => {
                let empty_ids: Vec<Vec<u8>> = Vec::new();
                proof {
                    assert(ids_set(empty_ids@) =~= Set::<Seq<u8>>::empty());
                }
                empty_ids
            },
        };
        let topic_segs = split_segments(topic_name);
        let ghost matched = match_ids(old(self).trie@, 0, spec_split(topic_name@), 0, true);
        proof {
            assert(ids_set(ids@) =~= matched);
        }
        let mut j: usize = 0;
        while j < self.sessions.len()
            invariant
                wf_broker(*self),
                ids_set(ids@) == matched,
                matched == match_ids(old(self).trie@, 0, spec_split(topic_name@), 0, true),
                publishable(topic_name@, payload@),
                qos <= 2,
                self.maximum_qos == old(self).maximum_qos,
                self.trie@ == old(self).trie@,
                self.sessions@.len() == old(self).sessions@.len(),
                j <= self.sessions@.len(),
                forall|k: int| j <= k < old(self).sessions@.len() ==> old(self).sessions@[k]
                    == #[trigger] self.sessions@[k],
                segs_view(topic_segs@) == spec_split(topic_name@),
                forall|k: int| 0 <= k < j ==> #[trigger] delivered_or_unchanged(
                    *old(self),
                    *self,
                    k,
                    topic_name@,
                    payload@,
                    qos,
                ),
            decreases self.sessions@.len() - j,
        {
            let ghost prev = *self;
            let live = self.sessions[j].connected && self.sessions[j].state
                == SessionState::Connected;
            let is_target = live && contains_id(&ids, &self.sessions[j].client_id);
            if is_target {
                proof {
                    assert(self.sessions@[j as int] == old(self).sessions@[j as int]);
                }
                let best = best_subscription_qos(&self.sessions[j].subscriptions, &topic_segs);
                let eff: u8 = if qos < best {
                    qos
                } else {
                    best
                };
                let packet_identifier: Option<u16> = if eff > 0 {
                    let pid = self.next_packet_id;
                    self.next_packet_id = if pid == 65535 {
                        1
                    } else {
                        pid + 1
                    };
                    Some(pid)
                } else {
                    None
                };
                let fr = Frame {
                    fix_header: FixHeader {
                        control_packet_type: ControlPacketType::PUBLISH,
                        flags: Flags(
                            if retain {
                                1
                            } else {
                                0
                            },
                            eff,
                            0,
                            0,
                        ),
                    },
                    control_packet: ControlPacket::Publish(
                        PublishControlPacket {
                            topic_name: copy_range(topic_name, 0, topic_name.len()),
                            packet_identifier,
                            properties: Vec::new(),
                            payload: copy_range(payload, 0, payload.len()),
                        },
                    ),
                };
                proof {
                    assert(topic_name@.subrange(0, topic_name@.len() as int) =~= topic_name@);
                    assert(payload@.subrange(0, payload@.len() as int) =~= payload@);
                    lemma_publish_frame_wf(fr, topic_name@, payload@);
                }
                let ghost before = self.sessions@[j as int];
                self.sessions[j].outbound.push(fr);
                proof {
                    assert(self.sessions@[j as int].outbound@ == before.outbound@.push(fr));
                    assert(self.sessions@[j as int].outbound@.last() == fr);
                }
            }
            proof {
                assert forall|k: int| 0 <= k < j + 1 implies #[trigger] delivered_or_unchanged(
                    *old(self),
                    *self,
                    k,
                    topic_name@,
                    payload@,
                    qos,
                ) by {
                    if k < j {
                        assert(delivered_or_unchanged(
                            *old(self),
                            prev,
                            k,
                            topic_name@,
                            payload@,
                            qos,
                        ));
                        assert(self.sessions@[k] == prev.sessions@[k]);
                    } else {
                        assert(prev.sessions@[k] == old(self).sessions@[k]);
                    }
                }
            }
            j = j + 1;
        }
    }
}

/// The highest QoS among the session's subscriptions whose filter
/// matches the topic, or zero when none matches.
fn best_subscription_qos(subs: &Vec<SubscribePayload>, topic_segs: &Vec<Vec<u8>>) -> (r: u8)
    ensures
        r == spec_best_sub_qos(subs_view(subs@), segs_view(topic_segs@), 0),
        r <= 2,
{
    let ghost sv = subs_view(subs@);
    let ghost tv = segs_view(topic_segs@);
    let mut best: u8 = 0;
    let mut i: usize = 0;
    while i < subs.len()
        invariant
            best <= 2,
            i <= subs@.len(),
            sv == subs_view(subs@),
            tv == segs_view(topic_segs@),
            sv.len() == subs@.len(),
            forall|k: int| 0 <= k < sv.len() ==> sv[k] == #[trigger] subs@[k]@,
            max_qos_of(best, spec_best_sub_qos(sv, tv, i as int)) == spec_best_sub_qos(sv, tv, 0),
        decreases subs@.len() - i,
    {
        let fsegs = split_segments(&subs[i].topic_filter);
        proof {
            assert(segs_view(fsegs@) == spec_split(subs@[i as int].topic_filter@));
            assert(sv[i as int].topic_filter == subs@[i as int].topic_filter@);
        }
        let ghost q_spec: u8 = if seg_match(spec_split(sv[i as int].topic_filter), 0, tv, 0, true) {
            spec_qos_u8(sv[i as int].subscription_options.maximum_qos)
        } else {
            0
        };
        if seg_match_exec(&fsegs, 0, topic_segs, 0, true) {
            let q = subs[i].subscription_options.maximum_qos.to_u8();
            proof {
                assert(q == q_spec);
            }
            if q > best {
                best = q;
            }
        }
        proof {
            assert(spec_best_sub_qos(sv, tv, i as int) == max_qos_of(
                q_spec,
                spec_best_sub_qos(sv, tv, i + 1),
            ));
        }
        i = i + 1;
    }
    proof {
        assert(spec_best_sub_qos(sv, tv, subs@.len() as int) == 0);
    }
    best
}

/// A fan-out frame built from an accepted topic and payload is a
/// well-formed PUBLISH that delivers exactly that message.
proof fn lemma_publish_frame_wf(fr: Frame, topic: Seq<u8>, payload: Seq<u8>)
    requires
        publishable(topic, payload),
        fr.fix_header.control_packet_type is PUBLISH,
        fr.fix_header.flags.0 <= 1,
        fr.fix_header.flags.1 <= 2,
        fr.fix_header.flags.2 == 0,
        fr.fix_header.flags.3 == 0,
        fr.control_packet@ matches ControlPacketView::Publish(p) && p.topic_name == topic
            && p.payload == payload && p.properties.len() == 0 && ((p.packet_identifier is Some)
            <==> fr.fix_header.flags.1 > 0),
    ensures
        is_publish_to(fr, topic, payload),
{
    let p = fr.control_packet@->Publish_0;
    assert(p.properties =~= Seq::<crate::packet::PropertyView>::empty());
    assert(crate::frame::encoder::spec_encode_property_list(p.properties) == Seq::<u8>::empty());
    assert(crate::frame::encoder::wf_properties(p.properties));
    assert(crate::frame::encoder::wf_publish(p));
    assert(crate::varint::spec_varint(0) == seq![0u8]);
    assert(crate::frame::encoder::spec_encode_properties(p.properties).len() == 1);
    assert(crate::frame::encoder::spec_encode_binary(p.topic_name).len() == 2 + topic.len());
    assert(crate::frame::encoder::spec_encode_publish(p).len() <= 2 + topic.len() + 2 + 1
        + payload.len());
    assert(crate::frame::encoder::spec_encode_packet(fr.control_packet@).len()
        <= crate::varint::VARINT_MAX);
    assert(wf_frame(fr@));
}

/// Whether a packet-identifier book holds `pid`.
fn contains_pid(v: &Vec<u16>, pid: u16) -> (r: bool)
    ensures
        r == v@.contains(pid),
{
    let mut i: usize = 0;
    while i < v.len()
        invariant
            i <= v@.len(),
            forall|j: int| 0 <= j < i ==> v@[j] != pid,
        decreases v@.len() - i,
    {
        if v[i] == pid {
            return true;
        }
        i = i + 1;
    }
    proof {
        if v@.contains(pid) {
            let w = choose|w: int| 0 <= w < v@.len() && v@[w] == pid;
        }
    }
    false
}

/// Removes every occurrence of `pid` from a packet-identifier book.
fn remove_pid(v: &mut Vec<u16>, pid: u16)
    ensures
        forall|x: u16| #[trigger] final(v)@.contains(x) <==> (old(v)@.contains(x) && x != pid),
{
    let ghost oldv = v@;
    let mut out: Vec<u16> = Vec::new();
    let mut k: usize = 0;
    while k < v.len()
        invariant
            k <= v@.len(),
            v@ == oldv,
            forall|x: u16| #[trigger] out@.contains(x) <==> (oldv.take(k as int).contains(x) && x
                != pid),
        decreases v@.len() - k,
    {
        let ghost out0 = out@;
        if v[k] != pid {
            out.push(v[k]);
        }
        proof {
            assert forall|x: u16| #[trigger] out@.contains(x) implies (oldv.take(k + 1).contains(
                x,
            ) && x != pid) by {
                let w = choose|w: int| 0 <= w < out@.len() && out@[w] == x;
                if w < out0.len() {
                    assert(out0.contains(x));
                    let y = choose|y: int| 0 <= y < k && oldv.take(k as int)[y] == x;
                    assert(oldv.take(k + 1)[y] == x);
                } else {
                    assert(x == oldv[k as int]);
                    assert(oldv.take(k + 1)[k as int] == x);
                }
            }
            assert forall|x: u16| oldv.take(k + 1).contains(x) && x != pid implies #[trigger]
                out@.contains(x) by {
                let y = choose|y: int| 0 <= y < k + 1 && #[trigger] oldv.take(k + 1)[y] == x;
                if y < k {
                    assert(oldv.take(k as int)[y] == x);
                    assert(out0.contains(x));
                    let w = choose|w: int| 0 <= w < out0.len() && out0[w] == x;
                    assert(out@[w] == x);
                } else {
                    assert(x == oldv[k as int]);
                    assert(out@[out@.len() - 1] == x);
                }
            }
        }
        k = k + 1;
    }
    proof {
        assert(oldv.take(oldv.len() as int) =~= oldv);
    }
    *v = out;
}

/// A reply frame with empty properties and zero flags: a well-formed
/// CONNACK, PUBACK, PUBREC, PUBCOMP, SUBACK, UNSUBACK, PINGRESP or
/// DISCONNECT.
proof fn lemma_reply_frame_wf(fr: Frame)
    requires
        fr.fix_header.flags == Flags(0, 0, 0, 0),
        fr.fix_header.control_packet_type == crate::frame::encoder::spec_packet_type_of(
            fr.control_packet@,
        ),
        (match fr.control_packet@ {
            ControlPacketView::ConnAck(p) => p.properties.len() == 0 || (p.properties.len() == 1
                && crate::frame::encoder::wf_property(p.properties[0])
                && crate::frame::encoder::spec_encode_property(p.properties[0]).len() <= 70000),
            ControlPacketView::PubAck(p) => p.properties.len() == 0,
            ControlPacketView::PubRec(p) => p.properties.len() == 0,
            ControlPacketView::PubComp(p) => p.properties.len() == 0,
            ControlPacketView::SubAck(p) => p.properties.len() == 0
                && p.sub_ack_reason_codes.len() <= MAX_ACK_CODES,
            ControlPacketView::UnsubAck(p) => p.properties.len() == 0 && p.reason_codes.len()
                <= MAX_ACK_CODES,
            ControlPacketView::PingResp => true,
            ControlPacketView::Disconnect(p) => p.properties.len() == 0,
            _ => false,
        }),
    ensures
        wf_frame(fr@),
{
    assert(crate::varint::spec_varint(0) == seq![0u8]);
    match fr.control_packet@ {
        ControlPacketView::ConnAck(p) => {
            if p.properties.len() == 0 {
                assert(p.properties =~= Seq::<crate::packet::PropertyView>::empty());
                assert(crate::frame::encoder::spec_encode_property_list(p.properties) == Seq::<
                    u8,
                >::empty());
            } else {
                assert(p.properties =~= seq![p.properties[0]]);
                assert(p.properties.skip(1) =~= Seq::<crate::packet::PropertyView>::empty());
                assert(crate::frame::encoder::spec_encode_property_list(p.properties.skip(1))
                    == Seq::<u8>::empty());
                assert(crate::frame::encoder::spec_encode_property_list(p.properties)
                    =~= crate::frame::encoder::spec_encode_property(p.properties[0]));
                crate::varint::lemma_varint_len(
                    crate::frame::encoder::spec_encode_property_list(p.properties).len() as nat,
                );
            }
        },
        ControlPacketView::PubAck(p) => {
            assert(p.properties =~= Seq::<crate::packet::PropertyView>::empty());
            assert(crate::frame::encoder::spec_encode_property_list(p.properties) == Seq::<
                u8,
            >::empty());
        },
        ControlPacketView::PubRec(p) => {
            assert(p.properties =~= Seq::<crate::packet::PropertyView>::empty());
            assert(crate::frame::encoder::spec_encode_property_list(p.properties) == Seq::<
                u8,
            >::empty());
        },
        ControlPacketView::PubComp(p) => {
            assert(p.properties =~= Seq::<crate::packet::PropertyView>::empty());
            assert(crate::frame::encoder::spec_encode_property_list(p.properties) == Seq::<
                u8,
            >::empty());
        },
        ControlPacketView::SubAck(p) => {
            assert(p.properties =~= Seq::<crate::packet::PropertyView>::empty());
            assert(crate::frame::encoder::spec_encode_property_list(p.properties) == Seq::<
                u8,
            >::empty());
            lemma_sub_ack_codes_len(p.sub_ack_reason_codes);
        },
        ControlPacketView::UnsubAck(p) => {
            assert(p.properties =~= Seq::<crate::packet::PropertyView>::empty());
            assert(crate::frame::encoder::spec_encode_property_list(p.properties) == Seq::<
                u8,
            >::empty());
            lemma_unsub_ack_codes_len(p.reason_codes);
        },
        ControlPacketView::PingResp => {},
        ControlPacketView::Disconnect(p) => {
            assert(p.properties =~= Seq::<crate::packet::PropertyView>::empty());
            assert(crate::frame::encoder::spec_encode_property_list(p.properties) == Seq::<
                u8,
            >::empty());
        },
        _ => {},
    }
}

proof fn lemma_sub_ack_codes_len(cs: Seq<SubAckReasonCode>)
    ensures
        crate::frame::encoder::spec_encode_sub_ack_codes(cs).len() == cs.len(),
    decreases cs.len(),
{
    if cs.len() > 0 {
        lemma_sub_ack_codes_len(cs.skip(1));
    }
}

proof fn lemma_unsub_ack_codes_len(cs: Seq<crate::definitions::UnSubAckReasonCode>)
    ensures
        crate::frame::encoder::spec_encode_unsub_ack_codes(cs).len() == cs.len(),
    decreases cs.len(),
{
    if cs.len() > 0 {
        lemma_unsub_ack_codes_len(cs.skip(1));
    }
}

/// A well-formed DISCONNECT with the given reason and no properties.
pub open spec fn is_disconnect_with(f: Frame, reason: DisconnectReasonCode) -> bool {
    &&& (f.control_packet@ matches ControlPacketView::Disconnect(p) && p.reason_code == reason
        && p.properties.len() == 0)
    &&& wf_frame(f@)
}

/// A well-formed PUBACK with the given identifier and success.
pub open spec fn is_pub_ack_success(f: Frame, pid: u16) -> bool {
    &&& (f.control_packet@ matches ControlPacketView::PubAck(p) && p.packet_identifier == pid
        && p.reason_code == PubAckReasonCode::Success)
    &&& wf_frame(f@)
}

/// A well-formed PUBREC with the given identifier and success.
pub open spec fn is_pub_rec_success(f: Frame, pid: u16) -> bool {
    &&& (f.control_packet@ matches ControlPacketView::PubRec(p) && p.packet_identifier == pid
        && p.reason_code == PubRecReasonCode::Success)
    &&& wf_frame(f@)
}

/// A well-formed PUBCOMP with the given identifier and success.
pub open spec fn is_pub_comp_success(f: Frame, pid: u16) -> bool {
    &&& (f.control_packet@ matches ControlPacketView::PubComp(p) && p.packet_identifier == pid
        && p.reason_code == PubCompReasonCode::Success)
    &&& wf_frame(f@)
}

/// The protocol name every CONNECT must carry.
pub open spec fn mqtt_protocol_name() -> Seq<u8> {
    seq![0x4Du8, 0x51u8, 0x54u8, 0x54u8]
}

/// A CONNECT the broker accepts: protocol name "MQTT", version 5, and a
/// client identifier that is non-empty or accompanied by clean start.
pub open spec fn connect_acceptable(p: crate::packet::ConnectControlPacketView) -> bool {
    &&& p.variable_header.protocol_name == mqtt_protocol_name()
    &&& p.variable_header.protocol_version == 5
    &&& (p.payload.client_identifier.len() > 0 || p.variable_header.connect_flag.clean_start)
}

/// The CONNACK reason a rejected CONNECT draws: an unsupported protocol
/// name or version first, else the invalid (empty, no clean start)
/// client identifier.
pub open spec fn connect_reject_reason(p: crate::packet::ConnectControlPacketView)
    -> ConnAckReasonCode {
    if !(p.variable_header.protocol_name == mqtt_protocol_name()
        && p.variable_header.protocol_version == 5) {
        ConnAckReasonCode::UnsupportedProtocolVersion
    } else {
        ConnAckReasonCode::ClientIdentifierNotValid
    }
}

/// Every session but `conn` is untouched.
pub open spec fn others_unchanged(pre: Broker, post: Broker, conn: int) -> bool {
    forall|j: int| 0 <= j < pre.sessions@.len() && j != conn ==> post.sessions@[j]
        == #[trigger] pre.sessions@[j]
}

/// The CONNECT row of the session automaton. Acceptance is owed exactly
/// for acceptable CONNECTs; acceptance connects the session, queues
/// CONNACK(Success, session_present = 0) and evicts any prior live
/// session holding the same client identifier with SessionTakenOver;
/// rejection queues a CONNACK carrying the matching reason and closes,
/// touching no other session.
pub open spec fn connect_row(
    pre: Broker,
    post: Broker,
    conn: int,
    p: crate::packet::ConnectControlPacketView,
    keep: bool,
) -> bool {
    let s = pre.sessions@[conn];
    let s2 = post.sessions@[conn];
    &&& (keep <==> connect_acceptable(p))
    &&& (keep ==> s2.state is Connected && s2.connected && (
    s2.outbound@.last().control_packet@ matches ControlPacketView::ConnAck(a) && a.reason_code
        == ConnAckReasonCode::Success && !a.conn_ack_flag.session_present_flag) && wf_frame(
        s2.outbound@.last()@,
    ) && s2.outbound@.len() == s.outbound@.len() + 1 && s2.client_id@.len() > 0)
    &&& (keep && p.payload.client_identifier.len() > 0 ==> s2.client_id@
        == p.payload.client_identifier)
    &&& (keep ==> forall|j: int|
        0 <= j < pre.sessions@.len() && j != conn && session_live(#[trigger] pre.sessions@[j])
            && pre.sessions@[j].client_id@ == s2.client_id@ ==> {
            let o2 = post.sessions@[j];
            !o2.connected && o2.state is Disconnecting && is_disconnect_with(
                o2.outbound@.last(),
                DisconnectReasonCode::SessionTakenOver,
            )
        })
    &&& (!keep ==> s2.state is Disconnecting && !s2.connected && others_unchanged(pre, post, conn)
        && (s2.outbound@.last().control_packet@ matches ControlPacketView::ConnAck(a)
        && !a.conn_ack_flag.session_present_flag && a.reason_code == connect_reject_reason(p))
        && wf_frame(s2.outbound@.last()@))
}

impl Broker {
    /// Appends a DISCONNECT with the given reason to the session's queue
    /// and marks the connection closed.
    pub fn close_with_disconnect(&mut self, conn: usize, reason: DisconnectReasonCode)
        requires
            wf_broker(*old(self)),
            conn < old(self).sessions@.len(),
        ensures
            wf_broker(*final(self)),
            final(self).trie@ == old(self).trie@,
            final(self).maximum_qos == old(self).maximum_qos,
            final(self).next_packet_id == old(self).next_packet_id,
            final(self).sessions@.len() == old(self).sessions@.len(),
            forall|j: int| 0 <= j < old(self).sessions@.len() && j != conn ==> final(self).sessions@[j] == old(self).sessions@[j],
            ({
                let s = old(self).sessions@[conn as int];
                let s2 = final(self).sessions@[conn as int];
                &&& s2.outbound@ == s.outbound@.push(s2.outbound@.last())
                &&& is_disconnect_with(s2.outbound@.last(), reason)
                &&& !s2.connected
                &&& s2.state is Disconnecting
                &&& session_eq_but_outbound_liveness(s2, s)
            }),
    {
        let fr = Frame {
            fix_header: FixHeader {
                control_packet_type: ControlPacketType::DISCONNECT,
                flags: Flags(0, 0, 0, 0),
            },
            control_packet: ControlPacket::Disconnect(
                DisconnectControlPacket { reason_code: reason, properties: Vec::new() },
            ),
        };
        proof {
            lemma_reply_frame_wf(fr);
        }
        self.sessions[conn].outbound.push(fr);
        self.sessions[conn].connected = false;
        self.sessions[conn].state = SessionState::Disconnecting;
    }

    /// The row for a malformed or protocol-violating frame: DISCONNECT
    /// with the matching reason, then close. An `Incomplete` signal is not
    /// an error and leaves everything unchanged.
    pub fn handle_decode_error(&mut self, conn: usize, e: crate::frame::Error) -> (keep: bool)
        requires
            wf_broker(*old(self)),
            conn < old(self).sessions@.len(),
        ensures
            wf_broker(*final(self)),
            final(self).sessions@.len() == old(self).sessions@.len(),
            forall|j: int| 0 <= j < old(self).sessions@.len() && j != conn ==> final(self).sessions@[j] == old(self).sessions@[j],
            e == crate::frame::Error::Incomplete ==> final(self).sessions@[conn as int] == old(
                self,
            ).sessions@[conn as int] && keep,
            e != crate::frame::Error::Incomplete ==> !keep && !(final(self).sessions@[conn as int]
                .connected) && is_disconnect_with(
                final(self).sessions@[conn as int].outbound@.last(),
                if e == crate::frame::Error::ProtocolError {
                    DisconnectReasonCode::ProtocolError
                } else {
                    DisconnectReasonCode::MalformedPacket
                },
            ),
    {
        match e {
            crate::frame::Error::Incomplete => true,
            crate::frame::Error::ProtocolError => {
                self.close_with_disconnect(conn, DisconnectReasonCode::ProtocolError);
                false
            },
            crate::frame::Error::MalformedPacket => {
                self.close_with_disconnect(conn, DisconnectReasonCode::MalformedPacket);
                false
            },
        }
    }

    /// Whether the keep-alive deadline has passed: a keep-alive of zero
    /// never expires, otherwise the limit is one and a half times the
    /// keep-alive interval.
    pub fn keep_alive_exceeded(keep_alive: u16, elapsed_secs: u64) -> (r: bool)
        ensures
            r == (keep_alive > 0 && 2 * (elapsed_secs as int) > 3 * (keep_alive as int)),
    {
        if keep_alive == 0 {
            return false;
        }
        if elapsed_secs > 0x7FFFFFFFFFFFFFFF {
            return true;
        }
        elapsed_secs * 2 > 3 * (keep_alive as u64)
    }
}

/// The trie after registering every entry of a SUBSCRIBE, in order.
pub open spec fn spec_subscribe_all(
    nodes: Seq<crate::topic::TopicNodeView>,
    entries: Seq<crate::packet::SubscribePayloadView>,
    i: int,
    id: Seq<u8>,
) -> Seq<crate::topic::TopicNodeView>
    decreases entries.len() - i,
{
    if !(0 <= i <= entries.len()) {
        nodes
    } else if i == entries.len() {
        nodes
    } else {
        spec_subscribe_all(
            crate::topic::spec_subscribe(nodes, 0, spec_split(entries[i].topic_filter), 0, id),
            entries,
            i + 1,
            id,
        )
    }
}

/// The trie after dropping each filter's registration, in order.
pub open spec fn spec_unsubscribe_all(
    nodes: Seq<crate::topic::TopicNodeView>,
    filters: Seq<Seq<u8>>,
    i: int,
    id: Seq<u8>,
) -> Seq<crate::topic::TopicNodeView>
    decreases filters.len() - i,
{
    if !(0 <= i <= filters.len()) {
        nodes
    } else if i == filters.len() {
        nodes
    } else {
        spec_unsubscribe_all(
            crate::topic::spec_unsubscribe(nodes, 0, spec_split(filters[i]), 0, id),
            filters,
            i + 1,
            id,
        )
    }
}

/// The QoS a SUBSCRIBE entry is granted: the requested maximum capped at
/// the broker maximum, as a SUBACK reason code.
pub open spec fn granted_code(requested: Qos, max_qos: u8) -> SubAckReasonCode {
    let g = min_qos(spec_qos_u8(requested), max_qos);
    if g == 0 {
        SubAckReasonCode::GrantedQoS0
    } else if g == 1 {
        SubAckReasonCode::GrantedQoS1
    } else {
        SubAckReasonCode::GrantedQoS2
    }
}

/// The SUBSCRIBE row: acceptance is owed whenever the entry list fits a
/// SUBACK (every wire-decoded SUBSCRIBE does); every filter is registered
/// for this client in order, the options are remembered on the session,
/// and one SUBACK answers with granted = min(requested, broker maximum)
/// per entry, in entry order.
pub open spec fn subscribe_row(
    pre: Broker,
    post: Broker,
    conn: int,
    p: crate::packet::SubscribeControlPacketView,
    keep: bool,
) -> bool {
    let s = pre.sessions@[conn];
    let s2 = post.sessions@[conn];
    &&& (keep <==> p.subscribe_payload.len() <= MAX_ACK_CODES)
    &&& (!keep ==> !s2.connected && s2.state is Disconnecting && is_disconnect_with(
        s2.outbound@.last(),
        DisconnectReasonCode::MalformedPacket,
    ) && others_unchanged(pre, post, conn) && post.trie@ == pre.trie@)
    &&& (keep ==> {
        &&& post.trie@ == spec_subscribe_all(pre.trie@, p.subscribe_payload, 0, s.client_id@)
        &&& others_unchanged(pre, post, conn)
        &&& s2.outbound@.len() == s.outbound@.len() + 1
        &&& (s2.outbound@.last().control_packet@ matches ControlPacketView::SubAck(a)
            && a.packet_identifier == p.packet_identifier && a.sub_ack_reason_codes.len()
            == p.subscribe_payload.len() && (forall|k: int|
            0 <= k < a.sub_ack_reason_codes.len() ==> #[trigger] a.sub_ack_reason_codes[k]
                == granted_code(
                p.subscribe_payload[k].subscription_options.maximum_qos,
                pre.maximum_qos,
            )))
        &&& wf_frame(s2.outbound@.last()@)
        &&& s2.subscriptions@.len() == s.subscriptions@.len() + p.subscribe_payload.len()
    })
}

/// The UNSUBSCRIBE row: acceptance is owed whenever the filter list fits
/// an UNSUBACK; each filter's registration for this client leaves the
/// trie, and one UNSUBACK answers with one success per filter.
pub open spec fn unsubscribe_row(
    pre: Broker,
    post: Broker,
    conn: int,
    p: crate::packet::UnsubscribeControlPacketView,
    keep: bool,
) -> bool {
    let s = pre.sessions@[conn];
    let s2 = post.sessions@[conn];
    &&& (keep <==> p.topic_filters.len() <= MAX_ACK_CODES)
    &&& (!keep ==> !s2.connected && s2.state is Disconnecting && is_disconnect_with(
        s2.outbound@.last(),
        DisconnectReasonCode::MalformedPacket,
    ) && others_unchanged(pre, post, conn) && post.trie@ == pre.trie@)
    &&& (keep ==> {
        &&& post.trie@ == spec_unsubscribe_all(pre.trie@, p.topic_filters, 0, s.client_id@)
        &&& others_unchanged(pre, post, conn)
        &&& s2.outbound@.len() == s.outbound@.len() + 1
        &&& (s2.outbound@.last().control_packet@ matches ControlPacketView::UnsubAck(a)
            && a.packet_identifier == p.packet_identifier && a.reason_codes.len()
            == p.topic_filters.len() && (forall|k: int|
            0 <= k < a.reason_codes.len() ==> #[trigger] a.reason_codes[k]
                == UnSubAckReasonCode::Success))
        &&& wf_frame(s2.outbound@.last()@)
    })
}

impl Broker {
    /// The CONNECT row: on a valid first CONNECT the session becomes
    /// connected and a CONNACK(Success, session_present = 0) is queued; a
    /// prior live session with the same client identifier is disconnected
    /// with SessionTakenOver; an unsupported protocol or an empty
    /// identifier without clean start draw the matching CONNACK and close
    /// the connection.
    #[verifier::rlimit(100)]
    pub fn handle_connect(&mut self, conn: usize, p: &ConnectControlPacket) -> (keep: bool)
        requires
            wf_broker(*old(self)),
            conn < old(self).sessions@.len(),
            old(self).sessions@[conn as int].state is AwaitingConnect,
        ensures
            wf_broker(*final(self)),
            final(self).trie@ == old(self).trie@,
            final(self).sessions@.len() == old(self).sessions@.len(),
            connect_row(*old(self), *final(self), conn as int, p@, keep),
    {
        let vh = &p.variable_header;
        let name_ok = vh.protocol_name.len() == 4 && vh.protocol_name[0] == 0x4D
            && vh.protocol_name[1] == 0x51 && vh.protocol_name[2] == 0x54 && vh.protocol_name[3]
            == 0x54;
        proof {
            if vh.protocol_name@ == mqtt_protocol_name() {
                assert(vh.protocol_name@.len() == 4);
                assert(vh.protocol_name@[0] == 0x4D);
                assert(vh.protocol_name@[1] == 0x51);
                assert(vh.protocol_name@[2] == 0x54);
                assert(vh.protocol_name@[3] == 0x54);
            }
            if name_ok {
                assert(vh.protocol_name@ =~= mqtt_protocol_name());
            }
        }
        if !name_ok || vh.protocol_version != 5 {
            self.reply_conn_ack_and_close(conn, ConnAckReasonCode::UnsupportedProtocolVersion);
            return false;
        }
        if p.payload.client_identifier.len() == 0 && !vh.connect_flag.clean_start {
            self.reply_conn_ack_and_close(conn, ConnAckReasonCode::ClientIdentifierNotValid);
            return false;
        }
        let mut properties: Vec<Property> = Vec::new();
        let client_id: Vec<u8> = if p.payload.client_identifier.len() == 0 {
            let counter = self.next_packet_id;
            self.next_packet_id = if counter == 65535 {
                1
            } else {
                counter + 1
            };
            let cid = make_assigned_id(counter);
            let cid2 = copy_range(&cid, 0, cid.len());
            proof {
                assert(cid2@ =~= cid@);
            }
            properties.push(Property::AssignedClientIdentifier(cid2));
            proof {
                assert(crate::frame::encoder::wf_property(properties@[0]@));
                assert(crate::frame::encoder::spec_encode_property(properties@[0]@) == seq![
                    18u8,
                ] + crate::frame::encoder::spec_encode_binary(cid@));
                assert(crate::frame::encoder::spec_encode_property(properties@[0]@).len()
                    <= 70000);
            }
            cid
        } else {
            copy_range(&p.payload.client_identifier, 0, p.payload.client_identifier.len())
        };
        proof {
            assert(p.payload.client_identifier@.subrange(
                0,
                p.payload.client_identifier@.len() as int,
            ) =~= p.payload.client_identifier@);
            assert(client_id@.len() > 0);
            assert(properties@.len() <= 1);
            assert(properties@.len() == 1 ==> crate::frame::encoder::wf_property(
                properties@[0]@,
            ) && crate::frame::encoder::spec_encode_property(properties@[0]@).len() <= 70000);
        }
        let ghost cidv = client_id@;
        // Evict any prior live session holding the same client identifier.
        let mut j: usize = 0;
        while j < self.sessions.len()
            invariant
                wf_broker(*self),
                conn < self.sessions@.len(),
                j <= self.sessions@.len(),
                self.trie@ == old(self).trie@,
                self.sessions@.len() == old(self).sessions@.len(),
                self.sessions@[conn as int] == old(self).sessions@[conn as int],
                self.maximum_qos == old(self).maximum_qos,
                forall|k: int| j <= k < self.sessions@.len() ==> #[trigger] self.sessions@[k]
                    == old(self).sessions@[k],
                forall|k: int| 0 <= k < j && k != conn && session_live(
                    #[trigger] old(self).sessions@[k],
                ) && old(self).sessions@[k].client_id@ == client_id@ ==> {
                    let o2 = self.sessions@[k];
                    !o2.connected && o2.state is Disconnecting && is_disconnect_with(
                        o2.outbound@.last(),
                        DisconnectReasonCode::SessionTakenOver,
                    )
                },
                forall|k: int| 0 <= k < j && !(k != conn && session_live(
                    #[trigger] old(self).sessions@[k],
                ) && old(self).sessions@[k].client_id@ == client_id@) ==> self.sessions@[k] == old(
                    self,
                ).sessions@[k],
            decreases self.sessions@.len() - j,
        {
            let evict = j != conn && self.sessions[j].connected && self.sessions[j].state
                == SessionState::Connected && crate::text::bytes_eq(
                &self.sessions[j].client_id,
                &client_id,
            );
            if evict {
                self.close_with_disconnect(j, DisconnectReasonCode::SessionTakenOver);
            }
            j = j + 1;
        }
        // Record the session parameters and the will, if one is carried
        // and acceptable for fan-out.
        self.sessions[conn].client_id = client_id;
        self.sessions[conn].clean_start = vh.connect_flag.clean_start;
        self.sessions[conn].keep_alive = vh.keep_alive;
        if vh.connect_flag.will_flag {
            match (&p.payload.will_topic, &p.payload.will_payload) {
                (Some(wt), Some(wp)) => {
                    if will_acceptable(wt, wp) {
                        self.sessions[conn].will_topic = Some(copy_range(wt, 0, wt.len()));
                        self.sessions[conn].will_payload = Some(copy_range(wp, 0, wp.len()));
                        self.sessions[conn].will_qos = if vh.connect_flag.will_qos > 2 {
                            2
                        } else {
                            vh.connect_flag.will_qos
                        };
                        self.sessions[conn].will_retain = vh.connect_flag.will_retain;
                    }
                },
                _ => {},
            }
        }
        self.sessions[conn].connected = true;
        self.sessions[conn].state = SessionState::Connected;
        // CONNACK(Success); a broker-assigned identifier was placed in
        // the AssignedClientIdentifier property when it was generated.
        let fr = Frame {
            fix_header: FixHeader {
                control_packet_type: ControlPacketType::CONNACK,
                flags: Flags(0, 0, 0, 0),
            },
            control_packet: ControlPacket::ConnAck(
                ConnAckControlPacket {
                    conn_ack_flag: ConnAckFlags { session_present_flag: false },
                    reason_code: ConnAckReasonCode::Success,
                    properties,
                },
            ),
        };
        proof {
            match fr.control_packet@ {
                ControlPacketView::ConnAck(a) => {
                    if a.properties.len() == 1 {
                        assert(crate::frame::encoder::wf_property(a.properties[0]));
                        assert(crate::frame::encoder::spec_encode_property(
                            a.properties[0],
                        ).len() <= 70000);
                    }
                },
                _ => {},
            }
            lemma_reply_frame_wf(fr);
        }
        let ghost mid = self.sessions@;
        self.sessions[conn].outbound.push(fr);
        proof {
            let fin = self.sessions@;
            assert forall|a: int, b: int|
                0 <= a < b < fin.len() && session_live(#[trigger] fin[a]) && session_live(
                    #[trigger] fin[b],
                ) implies fin[a].client_id@ != fin[b].client_id@ by {
                if a != conn && b != conn {
                    assert(fin[a] == mid[a] && fin[b] == mid[b]);
                    if session_live(old(self).sessions@[a]) && old(self).sessions@[a].client_id@
                        == cidv {
                        assert(!session_live(mid[a]));
                    }
                    if session_live(old(self).sessions@[b]) && old(self).sessions@[b].client_id@
                        == cidv {
                        assert(!session_live(mid[b]));
                    }
                } else {
                    let o = if a == conn {
                        b
                    } else {
                        a
                    };
                    assert(fin[conn as int].client_id@ == cidv);
                    assert(fin[o] == mid[o]);
                    if session_live(old(self).sessions@[o]) && old(self).sessions@[o].client_id@
                        == cidv {
                        assert(!session_live(mid[o]));
                    }
                }
            }
        }
        true
    }

    /// CONNACK with the given error reason, then close without CONNACK
    /// retries.
    fn reply_conn_ack_and_close(&mut self, conn: usize, reason: ConnAckReasonCode)
        requires
            wf_broker(*old(self)),
            conn < old(self).sessions@.len(),
        ensures
            wf_broker(*final(self)),
            final(self).trie@ == old(self).trie@,
            final(self).sessions@.len() == old(self).sessions@.len(),
            forall|j: int| 0 <= j < old(self).sessions@.len() && j != conn ==> final(
                self).sessions@[j] == old(self).sessions@[j],
            ({
                let s2 = final(self).sessions@[conn as int];
                &&& !s2.connected
                &&& s2.state is Disconnecting
                &&& (s2.outbound@.last().control_packet@ matches ControlPacketView::ConnAck(a)
                    && a.reason_code == reason && !a.conn_ack_flag.session_present_flag)
                &&& wf_frame(s2.outbound@.last()@)
            }),
    {
        let fr = Frame {
            fix_header: FixHeader {
                control_packet_type: ControlPacketType::CONNACK,
                flags: Flags(0, 0, 0, 0),
            },
            control_packet: ControlPacket::ConnAck(
                ConnAckControlPacket {
                    conn_ack_flag: ConnAckFlags { session_present_flag: false },
                    reason_code: reason,
                    properties: Vec::new(),
                },
            ),
        };
        proof {
            lemma_reply_frame_wf(fr);
        }
        self.sessions[conn].outbound.push(fr);
        self.sessions[conn].connected = false;
        self.sessions[conn].state = SessionState::Disconnecting;
    }
}

/// A broker-generated client identifier for an empty one with clean
/// start: ASCII, short, never empty.
fn make_assigned_id(counter: u16) -> (cid: Vec<u8>)
    ensures
        is_utf8(cid@),
        0 < cid@.len() <= 20,
{
    let mut cid: Vec<u8> = Vec::new();
    cid.push(0x61);
    cid.push(0x75);
    cid.push(0x74);
    cid.push(0x6F);
    cid.push(0x2D);
    let mut digits = u16_to_ascii(counter);
    cid.append(&mut digits);
    proof {
        assert(forall|i: int| 0 <= i < cid@.len() ==> cid@[i] < 0x80);
        crate::text::lemma_ascii_utf8(cid@);
    }
    cid
}

/// Drops every stored subscription whose filter equals `filter`.
fn remove_subscription(subs: &mut Vec<SubscribePayload>, filter: &Vec<u8>)
    ensures
        forall|k: int| 0 <= k < final(subs)@.len() ==> (#[trigger] final(subs)@[k]).topic_filter@
            != filter@,
        final(subs)@.len() <= old(subs)@.len(),
{
    let mut out: Vec<SubscribePayload> = Vec::new();
    let mut k: usize = 0;
    while k < subs.len()
        invariant
            k <= subs@.len(),
            out@.len() <= k,
            forall|w: int| 0 <= w < out@.len() ==> (#[trigger] out@[w]).topic_filter@ != filter@,
        decreases subs@.len() - k,
    {
        if !crate::text::bytes_eq(&subs[k].topic_filter, filter) {
            let entry = SubscribePayload {
                subscription_options: subs[k].subscription_options,
                topic_filter: copy_range(&subs[k].topic_filter, 0, subs[k].topic_filter.len()),
            };
            proof {
                assert(entry.topic_filter@ =~= subs@[k as int].topic_filter@);
            }
            out.push(entry);
        }
        k = k + 1;
    }
    *subs = out;
}

/// Whether a will can be fanned out later.
fn will_acceptable(topic: &Vec<u8>, payload: &Vec<u8>) -> (r: bool)
    ensures
        r == publishable(topic@, payload@),
{
    if topic.len() == 0 || topic.len() > 0xFFFF {
        return false;
    }
    if payload.len() > 268369915 {
        return false;
    }
    let mut i: usize = 0;
    while i < topic.len()
        invariant
            i <= topic@.len(),
            forall|j: int| 0 <= j < i ==> topic@[j] != 0x2B && topic@[j] != 0x23,
        decreases topic@.len() - i,
    {
        let b = topic[i];
        if b == 0x2B || b == 0x23 {
            proof {
                assert(topic@[i as int] == b);
                assert(!no_wildcards(topic@));
            }
            return false;
        }
        i = i + 1;
    }
    if !is_valid_utf8_range(topic, 0, topic.len()) {
        proof {
            assert(topic@.subrange(0, topic@.len() as int) =~= topic@);
        }
        return false;
    }
    proof {
        assert(topic@.subrange(0, topic@.len() as int) =~= topic@);
    }
    true
}

impl Broker {
    /// The PUBLISH rows: fan the message out (exactly once per packet
    /// identifier for QoS 2), then acknowledge per the QoS: nothing for
    /// QoS 0, PUBACK for QoS 1, PUBREC for QoS 2. A duplicate QoS 2
    /// identifier re-emits PUBREC without re-delivering. A malformed
    /// packet (bad topic, missing identifier, oversized payload) draws
    /// DISCONNECT(MalformedPacket) and closes.
    pub fn handle_publish(&mut self, conn: usize, pk: &PublishControlPacket, qos: u8, retain: bool)
        -> (keep: bool)
        requires
            wf_broker(*old(self)),
            conn < old(self).sessions@.len(),
            old(self).sessions@[conn as int].state is Connected,
            qos <= 2,
        ensures
            wf_broker(*final(self)),
            final(self).trie@ == old(self).trie@,
            final(self).sessions@.len() == old(self).sessions@.len(),
            publish_row(*old(self), *final(self), conn as int, pk@, qos, keep),
    {
        if !will_acceptable(&pk.topic_name, &pk.payload) {
            self.close_with_disconnect(conn, DisconnectReasonCode::MalformedPacket);
            return false;
        }
        let pid: u16 = if qos > 0 {
            match pk.packet_identifier {
                Some(pid) => pid,
                None => {
                    self.close_with_disconnect(conn, DisconnectReasonCode::MalformedPacket);
                    return false;
                },
            }
        } else {
            0
        };
        if qos == 2 {
            if contains_pid(&self.sessions[conn].qos2_in_progress, pid) {
                self.push_pub_rec(conn, pid);
                return true;
            }
        }
        self.publish(&pk.topic_name, &pk.payload, qos, retain);
        let ghost mid = *self;
        if qos == 1 {
            let fr = Frame {
                fix_header: FixHeader {
                    control_packet_type: ControlPacketType::PUBACK,
                    flags: Flags(0, 0, 0, 0),
                },
                control_packet: ControlPacket::PubAck(
                    PubAckControlPacket {
                        packet_identifier: pid,
                        reason_code: PubAckReasonCode::Success,
                        properties: Vec::new(),
                    },
                ),
            };
            proof {
                lemma_reply_frame_wf(fr);
            }
            self.sessions[conn].outbound.push(fr);
        } else if qos == 2 {
            self.sessions[conn].qos2_in_progress.push(pid);
            proof {
                let book = self.sessions@[conn as int].qos2_in_progress@;
                assert(book[book.len() - 1] == pid);
                assert(book.contains(pid));
            }
            self.push_pub_rec(conn, pid);
        }
        proof {
            assert forall|j: int| 0 <= j < old(self).sessions@.len() && j != conn implies
                #[trigger] delivered_or_unchanged(
                *old(self),
                *self,
                j,
                pk@.topic_name,
                pk@.payload,
                qos,
            ) by {
                assert(delivered_or_unchanged(
                    *old(self),
                    mid,
                    j,
                    pk@.topic_name,
                    pk@.payload,
                    qos,
                ));
                assert(self.sessions@[j] == mid.sessions@[j]);
            }
        }
        true
    }

    /// Appends PUBREC(pid, Success) to the session's queue.
    fn push_pub_rec(&mut self, conn: usize, pid: u16)
        requires
            wf_broker(*old(self)),
            conn < old(self).sessions@.len(),
        ensures
            wf_broker(*final(self)),
            final(self).trie@ == old(self).trie@,
            final(self).sessions@.len() == old(self).sessions@.len(),
            forall|j: int| 0 <= j < old(self).sessions@.len() && j != conn ==> final(
                self).sessions@[j] == old(self).sessions@[j],
            ({
                let s = old(self).sessions@[conn as int];
                let s2 = final(self).sessions@[conn as int];
                &&& s2.outbound@ == s.outbound@.push(s2.outbound@.last())
                &&& is_pub_rec_success(s2.outbound@.last(), pid)
                &&& session_eq_but_outbound(s2, s)
            }),
    {
        let fr = Frame {
            fix_header: FixHeader {
                control_packet_type: ControlPacketType::PUBREC,
                flags: Flags(0, 0, 0, 0),
            },
            control_packet: ControlPacket::PubRec(
                PubRecControlPacket {
                    packet_identifier: pid,
                    reason_code: PubRecReasonCode::Success,
                    properties: Vec::new(),
                },
            ),
        };
        proof {
            lemma_reply_frame_wf(fr);
        }
        self.sessions[conn].outbound.push(fr);
    }

    /// The PUBREL row: reply PUBCOMP(pid, Success) and clear the
    /// identifier from the QoS 2 book.
    pub fn handle_pub_rel(&mut self, conn: usize, pk: &crate::packet::PubRelControlPacket) -> (
        keep: bool)
        requires
            wf_broker(*old(self)),
            conn < old(self).sessions@.len(),
            old(self).sessions@[conn as int].state is Connected,
        ensures
            wf_broker(*final(self)),
            final(self).trie@ == old(self).trie@,
            final(self).sessions@.len() == old(self).sessions@.len(),
            pub_rel_row(*old(self), *final(self), conn as int, pk@, keep),
    {
        remove_pid(&mut self.sessions[conn].qos2_in_progress, pk.packet_identifier);
        let fr = Frame {
            fix_header: FixHeader {
                control_packet_type: ControlPacketType::PUBCOMP,
                flags: Flags(0, 0, 0, 0),
            },
            control_packet: ControlPacket::PubComp(
                PubCompControlPacket {
                    packet_identifier: pk.packet_identifier,
                    reason_code: PubCompReasonCode::Success,
                    properties: Vec::new(),
                },
            ),
        };
        proof {
            lemma_reply_frame_wf(fr);
        }
        self.sessions[conn].outbound.push(fr);
        true
    }

    /// The SUBSCRIBE row: register every filter in the trie for this
    /// client, remember the options on the session, and reply SUBACK with
    /// one granted QoS per filter, capped at the broker maximum.
    pub fn handle_subscribe(&mut self, conn: usize, pk: &SubscribeControlPacket) -> (keep: bool)
        requires
            wf_broker(*old(self)),
            conn < old(self).sessions@.len(),
            old(self).sessions@[conn as int].state is Connected,
        ensures
            wf_broker(*final(self)),
            final(self).sessions@.len() == old(self).sessions@.len(),
            subscribe_row(*old(self), *final(self), conn as int, pk@, keep),
    {
        if pk.subscribe_payload.len() > MAX_ACK_CODES {
            self.close_with_disconnect(conn, DisconnectReasonCode::MalformedPacket);
            return false;
        }
        let ghost entries = pk@.subscribe_payload;
        let mut codes: Vec<SubAckReasonCode> = Vec::new();
        let mut i: usize = 0;
        while i < pk.subscribe_payload.len()
            invariant
                wf_broker(*self),
                conn < self.sessions@.len(),
                i <= pk.subscribe_payload@.len(),
                pk.subscribe_payload@.len() <= MAX_ACK_CODES,
                entries == pk@.subscribe_payload,
                entries.len() == pk.subscribe_payload@.len(),
                forall|k: int| 0 <= k < entries.len() ==> entries[k]
                    == #[trigger] pk.subscribe_payload@[k]@,
                self.sessions@.len() == old(self).sessions@.len(),
                forall|k: int| 0 <= k < self.sessions@.len() && k != conn
                    ==> #[trigger] self.sessions@[k] == old(self).sessions@[k],
                session_eq_but_subscriptions(
                    self.sessions@[conn as int],
                    old(self).sessions@[conn as int],
                ),
                self.sessions@[conn as int].subscriptions@.len() == old(
                    self,
                ).sessions@[conn as int].subscriptions@.len() + i,
                self.maximum_qos == old(self).maximum_qos,
                self.next_packet_id == old(self).next_packet_id,
                spec_subscribe_all(self.trie@, entries, i as int, old(
                    self,
                ).sessions@[conn as int].client_id@) == spec_subscribe_all(
                    old(self).trie@,
                    entries,
                    0,
                    old(self).sessions@[conn as int].client_id@,
                ),
                codes@.len() == i,
                forall|k: int| 0 <= k < i ==> #[trigger] codes@[k] == granted_code(
                    entries[k].subscription_options.maximum_qos,
                    old(self).maximum_qos,
                ),
            decreases pk.subscribe_payload@.len() - i,
        {
            let requested = pk.subscribe_payload[i].subscription_options.maximum_qos.to_u8();
            let granted: u8 = if requested < self.maximum_qos {
                requested
            } else {
                self.maximum_qos
            };
            codes.push(
                if granted == 0 {
                    SubAckReasonCode::GrantedQoS0
                } else if granted == 1 {
                    SubAckReasonCode::GrantedQoS1
                } else {
                    SubAckReasonCode::GrantedQoS2
                },
            );
            proof {
                assert(entries[i as int].subscription_options == pk.subscribe_payload@[i as int]@
                    .subscription_options);
                assert(codes@[i as int] == granted_code(
                    entries[i as int].subscription_options.maximum_qos,
                    old(self).maximum_qos,
                ));
            }
            let filter = &pk.subscribe_payload[i].topic_filter;
            let cid = copy_range(&self.sessions[conn].client_id, 0, self.sessions[conn].client_id
                .len());
            proof {
                assert(cid@ =~= old(self).sessions@[conn as int].client_id@);
            }
            self.trie.subscribe(filter, &cid);
            let stored = SubscribePayload {
                subscription_options: pk.subscribe_payload[i].subscription_options,
                topic_filter: copy_range(filter, 0, filter.len()),
            };
            self.sessions[conn].subscriptions.push(stored);
            i = i + 1;
        }
        proof {
            assert(spec_subscribe_all(self.trie@, entries, i as int, old(
                self,
            ).sessions@[conn as int].client_id@) == self.trie@);
        }
        let fr = Frame {
            fix_header: FixHeader {
                control_packet_type: ControlPacketType::SUBACK,
                flags: Flags(0, 0, 0, 0),
            },
            control_packet: ControlPacket::SubAck(
                SubAckControlPacket {
                    packet_identifier: pk.packet_identifier,
                    properties: Vec::new(),
                    sub_ack_payload: SubAckPayload { sub_ack_reason_codes: codes },
                },
            ),
        };
        proof {
            lemma_reply_frame_wf(fr);
        }
        self.sessions[conn].outbound.push(fr);
        true
    }

    /// The UNSUBSCRIBE row: drop each filter's registration for this
    /// client and reply UNSUBACK with one success per filter.
    pub fn handle_unsubscribe(&mut self, conn: usize, pk: &UnsubscribeControlPacket) -> (keep:
        bool)
        requires
            wf_broker(*old(self)),
            conn < old(self).sessions@.len(),
            old(self).sessions@[conn as int].state is Connected,
        ensures
            wf_broker(*final(self)),
            final(self).sessions@.len() == old(self).sessions@.len(),
            unsubscribe_row(*old(self), *final(self), conn as int, pk@, keep),
    {
        if pk.topic_filters.len() > MAX_ACK_CODES {
            self.close_with_disconnect(conn, DisconnectReasonCode::MalformedPacket);
            return false;
        }
        let ghost filters = pk@.topic_filters;
        let mut codes: Vec<UnSubAckReasonCode> = Vec::new();
        let mut i: usize = 0;
        while i < pk.topic_filters.len()
            invariant
                wf_broker(*self),
                conn < self.sessions@.len(),
                i <= pk.topic_filters@.len(),
                pk.topic_filters@.len() <= MAX_ACK_CODES,
                filters == pk@.topic_filters,
                filters.len() == pk.topic_filters@.len(),
                forall|k: int| 0 <= k < filters.len() ==> filters[k]
                    == #[trigger] pk.topic_filters@[k]@,
                self.sessions@.len() == old(self).sessions@.len(),
                forall|k: int| 0 <= k < self.sessions@.len() && k != conn
                    ==> #[trigger] self.sessions@[k] == old(self).sessions@[k],
                session_eq_but_subscriptions(
                    self.sessions@[conn as int],
                    old(self).sessions@[conn as int],
                ),
                self.maximum_qos == old(self).maximum_qos,
                spec_unsubscribe_all(self.trie@, filters, i as int, old(
                    self,
                ).sessions@[conn as int].client_id@) == spec_unsubscribe_all(
                    old(self).trie@,
                    filters,
                    0,
                    old(self).sessions@[conn as int].client_id@,
                ),
                codes@.len() == i,
                forall|k: int| 0 <= k < codes@.len() ==> #[trigger] codes@[k]
                    == UnSubAckReasonCode::Success,
            decreases pk.topic_filters@.len() - i,
        {
            let cid = copy_range(&self.sessions[conn].client_id, 0, self.sessions[conn].client_id
                .len());
            proof {
                assert(cid@ =~= old(self).sessions@[conn as int].client_id@);
            }
            self.trie.unsubscribe(&pk.topic_filters[i], &cid);
            remove_subscription(&mut self.sessions[conn].subscriptions, &pk.topic_filters[i]);
            codes.push(UnSubAckReasonCode::Success);
            i = i + 1;
        }
        proof {
            assert(spec_unsubscribe_all(self.trie@, filters, i as int, old(
                self,
            ).sessions@[conn as int].client_id@) == self.trie@);
        }
        let fr = Frame {
            fix_header: FixHeader {
                control_packet_type: ControlPacketType::UNSUBACK,
                flags: Flags(0, 0, 0, 0),
            },
            control_packet: ControlPacket::UnsubAck(
                UnsubAckControlPacket {
                    packet_identifier: pk.packet_identifier,
                    properties: Vec::new(),
                    reason_codes: codes,
                },
            ),
        };
        proof {
            lemma_reply_frame_wf(fr);
        }
        self.sessions[conn].outbound.push(fr);
        true
    }

    /// The DISCONNECT row: no reply; when the reason is not a normal
    /// disconnection and a will was stored, the will is fanned out; the
    /// connection closes.
    pub fn handle_disconnect(&mut self, conn: usize, pk: &DisconnectControlPacket) -> (keep: bool)
        requires
            wf_broker(*old(self)),
            conn < old(self).sessions@.len(),
            old(self).sessions@[conn as int].state is Connected,
        ensures
            wf_broker(*final(self)),
            final(self).trie@ == old(self).trie@,
            final(self).sessions@.len() == old(self).sessions@.len(),
            disconnect_row(*old(self), *final(self), conn as int, pk@, keep),
    {
        let mut publish_will = false;
        match pk.reason_code {
            DisconnectReasonCode::NormalDisconnection => (),
            _ => {
                publish_will = true;
            },
        }
        if publish_will {
            self.publish_will_of(conn);
        }
        let ghost mid = *self;
        self.sessions[conn].connected = false;
        self.sessions[conn].state = SessionState::Disconnecting;
        proof {
            if publish_will {
                lemma_transfer_will_clause(*old(self), mid, *self, conn as int);
            }
        }
        false
    }

    /// The keep-alive row: when no frame arrived within one and a half
    /// keep-alive intervals, the connection is closed with
    /// KeepAliveTimeout and the will, if any, is published.
    pub fn handle_keep_alive_timeout(&mut self, conn: usize)
        requires
            wf_broker(*old(self)),
            conn < old(self).sessions@.len(),
        ensures
            wf_broker(*final(self)),
            final(self).trie@ == old(self).trie@,
            final(self).sessions@.len() == old(self).sessions@.len(),
            !final(self).sessions@[conn as int].connected,
            final(self).sessions@[conn as int].state is Disconnecting,
            is_disconnect_with(
                final(self).sessions@[conn as int].outbound@.last(),
                DisconnectReasonCode::KeepAliveTimeout,
            ),
            will_fanned_out(*old(self), *final(self), conn as int),
    {
        self.publish_will_of(conn);
        let ghost mid = *self;
        self.close_with_disconnect(conn, DisconnectReasonCode::KeepAliveTimeout);
        proof {
            lemma_transfer_will_clause(*old(self), mid, *self, conn as int);
        }
    }

    /// The connection-loss row: an abrupt peer close or socket error ends
    /// the session without any reply frame; the will, if any, is
    /// published.
    pub fn handle_connection_lost(&mut self, conn: usize)
        requires
            wf_broker(*old(self)),
            conn < old(self).sessions@.len(),
        ensures
            wf_broker(*final(self)),
            final(self).trie@ == old(self).trie@,
            final(self).sessions@.len() == old(self).sessions@.len(),
            !final(self).sessions@[conn as int].connected,
            final(self).sessions@[conn as int].state is Disconnecting,
            will_fanned_out(*old(self), *final(self), conn as int),
    {
        self.publish_will_of(conn);
        let ghost mid = *self;
        self.sessions[conn].connected = false;
        self.sessions[conn].state = SessionState::Disconnecting;
        proof {
            lemma_transfer_will_clause(*old(self), mid, *self, conn as int);
        }
    }

    /// Fans out the session's will, when one is stored and publishable.
    fn publish_will_of(&mut self, conn: usize)
        requires
            wf_broker(*old(self)),
            conn < old(self).sessions@.len(),
        ensures
            wf_broker(*final(self)),
            final(self).trie@ == old(self).trie@,
            final(self).sessions@.len() == old(self).sessions@.len(),
            final(self).sessions@[conn as int].connected == old(self).sessions@[conn as int]
                .connected,
            final(self).sessions@[conn as int].state == old(self).sessions@[conn as int].state,
            will_fanned_out(*old(self), *final(self), conn as int),
    {
        let wt = match &self.sessions[conn].will_topic {
            Some(wt) => Some(copy_range(wt, 0, wt.len())),
            None => None,
        };
        let wp = match &self.sessions[conn].will_payload {
            Some(wp) => Some(copy_range(wp, 0, wp.len())),
            None => None,
        };
        proof {
            match old(self).sessions@[conn as int].will_topic {
                Some(v) => {
                    assert(v@.subrange(0, v@.len() as int) =~= v@);
                },
                None => {},
            }
            match old(self).sessions@[conn as int].will_payload {
                Some(v) => {
                    assert(v@.subrange(0, v@.len() as int) =~= v@);
                },
                None => {},
            }
        }
        match (wt, wp) {
            (Some(wt), Some(wp)) => {
                if will_acceptable(&wt, &wp) {
                    let wq = self.sessions[conn].will_qos;
                    let wr = self.sessions[conn].will_retain;
                    let q = if wq > 2 {
                        2
                    } else {
                        wq
                    };
                    self.publish(&wt, &wp, q, wr);
                    proof {
                        assert(delivered_or_unchanged(
                            *old(self),
                            *self,
                            conn as int,
                            wt@,
                            wp@,
                            q,
                        ));
                    }
                }
            },
            _ => {},
        }
    }

    /// Hands the caller everything queued for the connection's socket,
    /// leaving the queue empty and the session otherwise untouched.
    pub fn take_outbound(&mut self, conn: usize) -> (frames: Vec<Frame>)
        requires
            wf_broker(*old(self)),
            conn < old(self).sessions@.len(),
        ensures
            wf_broker(*final(self)),
            final(self).trie@ == old(self).trie@,
            final(self).sessions@.len() == old(self).sessions@.len(),
            others_unchanged(*old(self), *final(self), conn as int),
            frames@ == old(self).sessions@[conn as int].outbound@,
            final(self).sessions@[conn as int].outbound@ == Seq::<Frame>::empty(),
            session_eq_but_outbound(
                final(self).sessions@[conn as int],
                old(self).sessions@[conn as int],
            ),
    {
        let mut frames: Vec<Frame> = Vec::new();
        core::mem::swap(&mut frames, &mut self.sessions[conn].outbound);
        frames
    }

    /// Whether the connection is still live.
    pub fn is_connected(&self, conn: usize) -> (r: bool)
        requires
            conn < self.sessions@.len(),
        ensures
            r == self.sessions@[conn as int].connected,
    {
        self.sessions[conn].connected
    }

    /// The keep-alive interval the session negotiated, in seconds.
    pub fn keep_alive_of(&self, conn: usize) -> (r: u16)
        requires
            conn < self.sessions@.len(),
        ensures
            r == self.sessions@[conn as int].keep_alive,
    {
        self.sessions[conn].keep_alive
    }

    /// How many sessions the registry holds.
    pub fn connection_count(&self) -> (r: usize)
        ensures
            r == self.sessions@.len(),
    {
        self.sessions.len()
    }

    /// The shutdown trigger: every live session is sent
    /// DISCONNECT(ServerShuttingDown) and closed; everything else is left
    /// alone.
    pub fn shutdown(&mut self)
        requires
            wf_broker(*old(self)),
        ensures
            wf_broker(*final(self)),
            final(self).trie@ == old(self).trie@,
            final(self).sessions@.len() == old(self).sessions@.len(),
            forall|j: int| 0 <= j < old(self).sessions@.len() ==> {
                let s = old(self).sessions@[j];
                let s2 = #[trigger] final(self).sessions@[j];
                if session_live(s) {
                    &&& !s2.connected
                    &&& s2.state is Disconnecting
                    &&& s2.outbound@ == s.outbound@.push(s2.outbound@.last())
                    &&& is_disconnect_with(
                        s2.outbound@.last(),
                        DisconnectReasonCode::ServerShuttingDown,
                    )
                } else {
                    s2 == s
                }
            },
    {
        let mut j: usize = 0;
        while j < self.sessions.len()
            invariant
                wf_broker(*self),
                self.trie@ == old(self).trie@,
                self.sessions@.len() == old(self).sessions@.len(),
                j <= self.sessions@.len(),
                forall|k: int| j <= k < old(self).sessions@.len() ==> old(self).sessions@[k]
                    == #[trigger] self.sessions@[k],
                forall|k: int| 0 <= k < j ==> {
                    let s = old(self).sessions@[k];
                    let s2 = #[trigger] self.sessions@[k];
                    if session_live(s) {
                        &&& !s2.connected
                        &&& s2.state is Disconnecting
                        &&& s2.outbound@ == s.outbound@.push(s2.outbound@.last())
                        &&& is_disconnect_with(
                            s2.outbound@.last(),
                            DisconnectReasonCode::ServerShuttingDown,
                        )
                    } else {
                        s2 == s
                    }
                },
            decreases self.sessions@.len() - j,
        {
            let live = self.sessions[j].connected && self.sessions[j].state
                == SessionState::Connected;
            if live {
                self.close_with_disconnect(j, DisconnectReasonCode::ServerShuttingDown);
            }
            j = j + 1;
        }
    }

    /// The per-connection protocol automaton: dispatches one
    /// arriving frame against the session state. The first frame must be
    /// CONNECT; a second CONNECT is a protocol error; PINGREQ draws
    /// PINGRESP; every other row is handled by its own function, whose
    /// contract states the row. Returns whether the connection stays open.
    pub fn handle_frame(&mut self, conn: usize, frame: &Frame) -> (keep: bool)
        requires
            wf_broker(*old(self)),
            conn < old(self).sessions@.len(),
        ensures
            wf_broker(*final(self)),
            final(self).sessions@.len() == old(self).sessions@.len(),
            ({
                let s = old(self).sessions@[conn as int];
                let s2 = final(self).sessions@[conn as int];
                &&& (s.state is Disconnecting ==> !keep)
                &&& (s.state is AwaitingConnect && !(frame.control_packet@ is Connect) ==> !keep
                    && !s2.connected && s2.outbound@ == s.outbound@)
                &&& match frame.control_packet@ {
                    ControlPacketView::Connect(p) => {
                        &&& (s.state is AwaitingConnect ==> connect_row(
                            *old(self),
                            *final(self),
                            conn as int,
                            p,
                            keep,
                        ))
                        &&& (s.state is Connected ==> !keep && !s2.connected
                            && is_disconnect_with(
                            s2.outbound@.last(),
                            DisconnectReasonCode::ProtocolError,
                        ))
                    },
                    ControlPacketView::Publish(p) => {
                        &&& (s.state is Connected && frame.fix_header.flags.1 <= 2
                            ==> publish_row(
                            *old(self),
                            *final(self),
                            conn as int,
                            p,
                            frame.fix_header.flags.1,
                            keep,
                        ))
                        &&& (s.state is Connected && frame.fix_header.flags.1 > 2 ==> !keep
                            && !s2.connected && is_disconnect_with(
                            s2.outbound@.last(),
                            DisconnectReasonCode::ProtocolError,
                        ))
                    },
                    ControlPacketView::PubRel(p) => s.state is Connected ==> pub_rel_row(
                        *old(self),
                        *final(self),
                        conn as int,
                        p,
                        keep,
                    ),
                    ControlPacketView::Subscribe(p) => s.state is Connected ==> subscribe_row(
                        *old(self),
                        *final(self),
                        conn as int,
                        p,
                        keep,
                    ),
                    ControlPacketView::Unsubscribe(p) => s.state is Connected
                        ==> unsubscribe_row(
                        *old(self),
                        *final(self),
                        conn as int,
                        p,
                        keep,
                    ),
                    ControlPacketView::Disconnect(p) => s.state is Connected ==> disconnect_row(
                        *old(self),
                        *final(self),
                        conn as int,
                        p,
                        keep,
                    ),
                    ControlPacketView::PingReq => s.state is Connected ==> keep && s2.outbound@
                        == s.outbound@.push(s2.outbound@.last())
                        && s2.outbound@.last().control_packet@ is PingResp && wf_frame(
                        s2.outbound@.last()@,
                    ),
                    _ => true,
                }
            }),
    {
        let state = self.sessions[conn].state;
        match state {
            SessionState::AwaitingConnect => {
                match &frame.control_packet {
                    ControlPacket::Connect(p) => self.handle_connect(conn, p),
                    _ => {
                        // First frame was not CONNECT: close without reply.
                        self.sessions[conn].connected = false;
                        self.sessions[conn].state = SessionState::Disconnecting;
                        false
                    },
                }
            },
            SessionState::Connected => {
                match &frame.control_packet {
                    ControlPacket::Connect(_) => {
                        self.close_with_disconnect(conn, DisconnectReasonCode::ProtocolError);
                        false
                    },
                    ControlPacket::Publish(p) => {
                        let qos = frame.fix_header.flags.1;
                        if qos > 2 {
                            self.close_with_disconnect(conn, DisconnectReasonCode::ProtocolError);
                            return false;
                        }
                        let retain = frame.fix_header.flags.0 == 1;
                        self.handle_publish(conn, p, qos, retain)
                    },
                    ControlPacket::PubRel(p) => self.handle_pub_rel(conn, p),
                    ControlPacket::Subscribe(p) => self.handle_subscribe(conn, p),
                    ControlPacket::Unsubscribe(p) => self.handle_unsubscribe(conn, p),
                    ControlPacket::PingReq => {
                        let fr = Frame {
                            fix_header: FixHeader {
                                control_packet_type: ControlPacketType::PINGRESP,
                                flags: Flags(0, 0, 0, 0),
                            },
                            control_packet: ControlPacket::PingResp,
                        };
                        proof {
                            lemma_reply_frame_wf(fr);
                        }
                        self.sessions[conn].outbound.push(fr);
                        true
                    },
                    ControlPacket::Disconnect(p) => self.handle_disconnect(conn, p),
                    _ => true,
                }
            },
            SessionState::Disconnecting => false,
        }
    }
}

/// A will clause survives later changes to the closing session itself,
/// since it speaks only of the other sessions.
proof fn lemma_transfer_will_clause(pre: Broker, mid: Broker, post: Broker, conn: int)
    requires
        0 <= conn < pre.sessions@.len(),
        mid.sessions@.len() == pre.sessions@.len(),
        post.sessions@.len() == pre.sessions@.len(),
        will_fanned_out(pre, mid, conn),
        forall|j: int| 0 <= j < pre.sessions@.len() && j != conn ==> post.sessions@[j]
            == #[trigger] mid.sessions@[j],
    ensures
        will_fanned_out(pre, post, conn),
{
    let s = pre.sessions@[conn];
    let has_will = s.will_topic is Some && s.will_payload is Some && publishable(
        s.will_topic->0@,
        s.will_payload->0@,
    );
    if has_will {
        assert forall|j: int| 0 <= j < pre.sessions@.len() && j != conn implies #[trigger]
            delivered_or_unchanged(
            pre,
            post,
            j,
            s.will_topic->0@,
            s.will_payload->0@,
            min_qos(s.will_qos, 2),
        ) by {
            assert(delivered_or_unchanged(
                pre,
                mid,
                j,
                s.will_topic->0@,
                s.will_payload->0@,
                min_qos(s.will_qos, 2),
            ));
            assert(post.sessions@[j] == mid.sessions@[j]);
        }
    }
}

/// Law: messages fanned out to the same subscriber stand in its queue in
/// fan-out order: after delivering first one message and then another,
/// the first sits at the lower index.
pub proof fn lemma_delivery_order(
    q0: Seq<Frame>,
    f1: Frame,
    f2: Frame,
    t1: Seq<u8>,
    pl1: Seq<u8>,
    t2: Seq<u8>,
    pl2: Seq<u8>,
)
    requires
        is_publish_to(f1, t1, pl1),
        is_publish_to(f2, t2, pl2),
    ensures
        ({
            let q2 = q0.push(f1).push(f2);
            &&& q2.len() == q0.len() + 2
            &&& is_publish_to(q2[q0.len() as int], t1, pl1)
            &&& is_publish_to(q2[q0.len() as int + 1], t2, pl2)
        }),
{
}

/// Law: for every topic name T and subscription (filter F, id S) such
/// that T matches F, a SUBSCRIBE carrying that one filter puts S into the
/// trie's match set for T; `publish`, whose contract appends one PUBLISH
/// to the queue of every live session whose identifier that match set
/// holds, therefore enqueues the message to S.
pub proof fn lemma_subscription_reaches_subscriber(
    nodes: Seq<crate::topic::TopicNodeView>,
    entry: crate::packet::SubscribePayloadView,
    topic: Seq<u8>,
    id: Seq<u8>,
)
    requires
        wf_nodes(nodes),
        crate::topic::filter_matches(spec_split(entry.topic_filter), spec_split(topic)),
    ensures
        spec_subscribe_all(nodes, seq![entry], 0, id) == crate::topic::spec_subscribe(
            nodes,
            0,
            spec_split(entry.topic_filter),
            0,
            id,
        ),
        match_ids(spec_subscribe_all(nodes, seq![entry], 0, id), 0, spec_split(topic), 0, true)
            .contains(id),
{
    assert(seq![entry][0] == entry);
    let sub1 = crate::topic::spec_subscribe(nodes, 0, spec_split(entry.topic_filter), 0, id);
    assert(spec_subscribe_all(sub1, seq![entry], 1, id) == sub1);
    assert(spec_subscribe_all(nodes, seq![entry], 0, id) == spec_subscribe_all(
        sub1,
        seq![entry],
        1,
        id,
    ));
    crate::topic::lemma_subscribe_match(nodes, spec_split(entry.topic_filter), spec_split(topic), id);
}

} // verus!
