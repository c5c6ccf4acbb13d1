//! The messages between a client and the rendezvous server.
//!
//! A message is one tag byte, then the payload with its length in front.
//! The payload is the text that the message carries; a `Start` carries two
//! texts, of which the first has its own length in front.

use crate::wire::{
    copy_range, lemma_parse_prefixed_of_prefixed, lemma_prefixed_of_parse_prefixed,
    parse_prefixed, prefixed, put_bytes, put_prefixed, take_prefixed,
};
use vstd::prelude::*;

verus! {

/// Joins the session `session_id`, and offers `offer_sdp` if it is the first
/// to join.
#[derive(Clone, Debug)]
pub struct Start {
    pub session_id: Vec<u8>,
    pub offer_sdp: Vec<u8>,
}

/// The first client's offer, as the server hands it to the second.
#[derive(Clone, Debug)]
pub struct Offer {
    pub sdp: Vec<u8>,
}

/// The second client's answer to the offer.
#[derive(Clone, Debug)]
pub struct Answer {
    pub sdp: Vec<u8>,
}

/// A candidate address, for the other client.
#[derive(Clone, Debug)]
pub struct ICECandidate {
    pub ice_candidate: Vec<u8>,
}

/// One message on the rendezvous stream.
#[derive(Clone, Debug)]
pub enum Packet {
    Start(Start),
    Offer(Offer),
    Answer(Answer),
    ICECandidate(ICECandidate),
}

/// A `Packet` as a mathematical value.
pub enum PacketView {
    Start { session_id: Seq<u8>, offer_sdp: Seq<u8> },
    Offer { sdp: Seq<u8> },
    Answer { sdp: Seq<u8> },
    ICECandidate { ice_candidate: Seq<u8> },
}

impl View for Packet {
    type V = PacketView;

    open spec fn view(&self) -> PacketView {
        match *self {
            Packet::Start(s) => PacketView::Start {
                session_id: s.session_id@,
                offer_sdp: s.offer_sdp@,
            },
            Packet::Offer(o) => PacketView::Offer { sdp: o.sdp@ },
            Packet::Answer(a) => PacketView::Answer { sdp: a.sdp@ },
            Packet::ICECandidate(c) => PacketView::ICECandidate {
                ice_candidate: c.ice_candidate@,
            },
        }
    }
}

/// The tag byte of each message.
pub const TAG_START: u8 = 1;

pub const TAG_OFFER: u8 = 2;

pub const TAG_ANSWER: u8 = 3;

pub const TAG_ICE_CANDIDATE: u8 = 4;

/// The tag byte of a message.
pub open spec fn tag_of(p: PacketView) -> u8 {
    match p {
        PacketView::Start { .. } => TAG_START,
        PacketView::Offer { .. } => TAG_OFFER,
        PacketView::Answer { .. } => TAG_ANSWER,
        PacketView::ICECandidate { .. } => TAG_ICE_CANDIDATE,
    }
}

/// The payload of a message.
pub open spec fn payload_of(p: PacketView) -> Seq<u8> {
    match p {
        PacketView::Start { session_id, offer_sdp } => prefixed(session_id) + offer_sdp,
        PacketView::Offer { sdp } => sdp,
        PacketView::Answer { sdp } => sdp,
        PacketView::ICECandidate { ice_candidate } => ice_candidate,
    }
}

/// A message as bytes.
pub open spec fn serialized(p: PacketView) -> Seq<u8> {
    seq![tag_of(p)] + prefixed(payload_of(p))
}

/// Whether a message is small enough for its lengths to be written down.
pub open spec fn fits(p: PacketView) -> bool {
    payload_of(p).len() <= u64::MAX
}

/// The message that `bytes` hold, if they hold one.
pub open spec fn deserialized(bytes: Seq<u8>) -> Option<PacketView> {
    if exists|p: PacketView| fits(p) && serialized(p) == bytes {
        Some(choose|p: PacketView| fits(p) && serialized(p) == bytes)
    } else {
        None
    }
}

/// What a message slot holds, as a mathematical value.
pub open spec fn packet_view(slot: Option<Packet>) -> Option<PacketView> {
    match slot {
        Some(p) => Some(p@),
        None => None,
    }
}

spec fn shape(bytes: Seq<u8>) -> bool {
    &&& bytes.len() >= 1
    &&& TAG_START <= bytes[0] <= TAG_ICE_CANDIDATE
    &&& parse_prefixed(bytes.skip(1)) matches Some((payload, n))
    &&& bytes.len() == 1 + n
    &&& bytes[0] == TAG_START ==> parse_prefixed(payload).is_some()
}

proof fn lemma_layout(p: PacketView)
    requires
        fits(p),
    ensures
        ({
            let s = serialized(p);
            &&& s.len() >= 1
            &&& s[0] == tag_of(p)
            &&& parse_prefixed(s.skip(1)) == Some((payload_of(p), (s.len() - 1) as nat))
            &&& p matches PacketView::Start { session_id, offer_sdp } ==> {
                &&& parse_prefixed(payload_of(p)) == Some((session_id, prefixed(session_id).len()))
                &&& payload_of(p).skip(prefixed(session_id).len() as int) == offer_sdp
            }
            &&& shape(s)
        }),
{
    let s = serialized(p);
    let empty = Seq::<u8>::empty();
    assert(s.skip(1) =~= prefixed(payload_of(p)) + empty);
    lemma_parse_prefixed_of_prefixed(payload_of(p), empty);
    match p {
        PacketView::Start { session_id, offer_sdp } => {
            lemma_parse_prefixed_of_prefixed(session_id, offer_sdp);
            assert(payload_of(p).skip(prefixed(session_id).len() as int) =~= offer_sdp);
        },
        _ => {},
    }
}

/// Two messages with the same bytes are the same message.
pub proof fn lemma_injective(p: PacketView, q: PacketView)
    requires
        fits(p),
        fits(q),
        serialized(p) == serialized(q),
    ensures
        p == q,
{
    lemma_layout(p);
    lemma_layout(q);
}

/// Reading the bytes of a message gives the message back.
pub proof fn law_deserialize_serialize(p: PacketView)
    requires
        fits(p),
    ensures
        deserialized(serialized(p)) == Some(p),
{
    let q = deserialized(serialized(p)).unwrap();
    lemma_injective(p, q);
}

/// Only the bytes that were written for a message read back as it.
pub proof fn law_serialize_deserialize(bytes: Seq<u8>, p: PacketView)
    requires
        deserialized(bytes) == Some(p),
    ensures
        serialized(p) == bytes,
        fits(p),
{
}

impl Packet {
    /// The bytes of this message.
    pub fn serialize(&self) -> (bytes: Vec<u8>)
        ensures
            bytes@ == serialized(self@),
    {
        let mut bytes: Vec<u8> = Vec::new();
        match self {
            Packet::Start(s) => {
                let mut payload: Vec<u8> = Vec::new();
                put_prefixed(&mut payload, s.session_id.as_slice());
                put_bytes(&mut payload, s.offer_sdp.as_slice());
                bytes.push(TAG_START);
                put_prefixed(&mut bytes, payload.as_slice());
            },
            Packet::Offer(o) => {
                bytes.push(TAG_OFFER);
                put_prefixed(&mut bytes, o.sdp.as_slice());
            },
            Packet::Answer(a) => {
                bytes.push(TAG_ANSWER);
                put_prefixed(&mut bytes, a.sdp.as_slice());
            },
            Packet::ICECandidate(c) => {
                bytes.push(TAG_ICE_CANDIDATE);
                put_prefixed(&mut bytes, c.ice_candidate.as_slice());
            },
        }
        assert(bytes@ =~= serialized(self@));
        bytes
    }

    /// The message that `bytes` hold, or `None` where they hold none: only
    /// what `serialize` writes is taken.
    pub fn deserialize(bytes: &[u8]) -> (r: Option<Packet>)
        ensures
            packet_view(r) == deserialized(bytes@),
    {
        proof {
            assert forall|q: PacketView| fits(q) && serialized(q) == bytes@ implies shape(
                bytes@,
            ) by {
                lemma_layout(q);
            }
        }
        if bytes.len() < 1 {
            return None;
        }
        let tag = bytes[0];
        if tag < TAG_START || tag > TAG_ICE_CANDIDATE {
            return None;
        }
        let (payload, next) = match take_prefixed(bytes, 1) {
            Some(out) => out,
            None => {
                return None;
            },
        };
        if next != bytes.len() {
            return None;
        }
        proof {
            lemma_prefixed_of_parse_prefixed(bytes@.skip(1));
            assert(bytes@.skip(1).take(next - 1) =~= bytes@.skip(1));
            assert(bytes@ =~= seq![tag] + prefixed(payload@));
        }
        let packet = if tag == TAG_START {
            let (session_id, at) = match take_prefixed(payload.as_slice(), 0) {
                Some(out) => out,
                None => {
                    assert(payload@.skip(0) =~= payload@);
                    return None;
                },
            };
            let offer_sdp = copy_range(payload.as_slice(), at, payload.len());
            proof {
                assert(payload@.skip(0) =~= payload@);
                lemma_prefixed_of_parse_prefixed(payload@);
                assert(payload@ =~= prefixed(session_id@) + offer_sdp@);
            }
            Packet::Start(Start { session_id, offer_sdp })
        } else if tag == TAG_OFFER {
            Packet::Offer(Offer { sdp: payload })
        } else if tag == TAG_ANSWER {
            Packet::Answer(Answer { sdp: payload })
        } else {
            Packet::ICECandidate(ICECandidate { ice_candidate: payload })
        };
        proof {
            assert(serialized(packet@) == bytes@);
            law_deserialize_serialize(packet@);
        }
        Some(packet)
    }
}

} // verus!
