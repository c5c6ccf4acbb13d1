//! What two peers say to each other over the datagram channel.
//!
//! A datagram holds one packet: the length of the body, then the body.  The
//! body begins with a byte that says which packet it is.  Numbers are
//! little-endian; the game title carries its length in front; commitment,
//! nonce and turn have fixed lengths and carry none.

use crate::input::Input;
use crate::wire::{
    copy_array, lemma_parse_prefixed_of_prefixed, lemma_prefixed_of_parse_prefixed,
    lemma_u16_le_injective, lemma_u32_le_injective, parse_prefixed, prefixed, put_bytes,
    put_prefixed, put_u16, put_u32, take_prefixed, take_u16, take_u32, u16_le, u32_le,
};
use vstd::prelude::*;

verus! {

/// Opens the handshake: who we are, and a commitment to our nonce.
#[derive(Debug)]
pub struct Hello {
    pub protocol_version: u32,
    /// The ROM's title, as its bytes.
    pub game_title: Vec<u8>,
    pub game_crc32: u32,
    pub match_type: u32,
    pub rng_commitment: [u8; 32],
}

/// Closes the handshake: the nonce that the commitment was made to.
#[derive(Clone, Copy, Debug)]
pub struct Hola {
    pub rng_nonce: [u8; 16],
}

/// One datagram between peers.
#[derive(Debug)]
pub enum Packet {
    Hello(Hello),
    Hola(Hola),
    Input(Input),
}

/// A `Hello` as a mathematical value.
pub struct HelloView {
    pub protocol_version: u32,
    pub game_title: Seq<u8>,
    pub game_crc32: u32,
    pub match_type: u32,
    pub rng_commitment: [u8; 32],
}

/// A `Packet` as a mathematical value.
pub enum PacketView {
    Hello(HelloView),
    Hola(Hola),
    Input(Input),
}

impl View for Hello {
    type V = HelloView;

    open spec fn view(&self) -> HelloView {
        HelloView {
            protocol_version: self.protocol_version,
            game_title: self.game_title@,
            game_crc32: self.game_crc32,
            match_type: self.match_type,
            rng_commitment: self.rng_commitment,
        }
    }
}

impl View for Packet {
    type V = PacketView;

    open spec fn view(&self) -> PacketView {
        match *self {
            Packet::Hello(h) => PacketView::Hello(h@),
            Packet::Hola(h) => PacketView::Hola(h),
            Packet::Input(i) => PacketView::Input(i),
        }
    }
}

/// The byte that opens the body of each packet.
pub const TAG_HELLO: u8 = 1;

pub const TAG_HOLA: u8 = 2;

pub const TAG_INPUT: u8 = 3;

/// An optional turn on the wire: a flag byte, then the turn if there is one.
pub open spec fn encode_turn(turn: Option<[u8; 256]>) -> Seq<u8> {
    match turn {
        Some(t) => seq![1u8] + t@,
        None => seq![0u8],
    }
}

/// An input on the wire: 12 bytes without a turn, 268 with one.
pub open spec fn encode_input(i: Input) -> Seq<u8> {
    u32_le(i.local_tick) + u32_le(i.remote_tick) + u16_le(i.joyflags) + seq![
        i.custom_screen_state,
    ] + encode_turn(i.turn)
}

/// The fields of a `Hello`, in order.
pub open spec fn hello_body(h: HelloView) -> Seq<u8> {
    u32_le(h.protocol_version) + prefixed(h.game_title) + u32_le(h.game_crc32) + u32_le(
        h.match_type,
    ) + h.rng_commitment@
}

/// The body of a packet: its tag, then its fields.
pub open spec fn packet_body(p: PacketView) -> Seq<u8> {
    match p {
        PacketView::Hello(h) => seq![TAG_HELLO] + hello_body(h),
        PacketView::Hola(h) => seq![TAG_HOLA] + h.rng_nonce@,
        PacketView::Input(i) => seq![TAG_INPUT] + encode_input(i),
    }
}

/// A packet as one datagram.
pub open spec fn encode_packet(p: PacketView) -> Seq<u8> {
    prefixed(packet_body(p))
}

/// Whether a packet is small enough for its length to be written down.
pub open spec fn packet_fits(p: PacketView) -> bool {
    packet_body(p).len() <= u64::MAX
}

/// The packet that a datagram holds, if it holds one.
pub open spec fn decoded(bytes: Seq<u8>) -> Option<PacketView> {
    if exists|p: PacketView| packet_fits(p) && encode_packet(p) == bytes {
        Some(choose|p: PacketView| packet_fits(p) && encode_packet(p) == bytes)
    } else {
        None
    }
}

/// What a packet slot holds, as a mathematical value.
pub open spec fn packet_view(slot: Option<Packet>) -> Option<PacketView> {
    match slot {
        Some(p) => Some(p@),
        None => None,
    }
}

/// Whether `s` has the length and the flag byte of an input on the wire.
pub open spec fn input_shape(s: Seq<u8>) -> bool {
    (s.len() == 12 && s[11] == 0) || (s.len() == 268 && s[11] == 1)
}

/// Whether `s` begins with the flag byte of an input and is long enough for
/// what the flag announces.
pub open spec fn input_prefix_shape(s: Seq<u8>) -> bool {
    s.len() >= 12 && (s[11] == 0 || (s[11] == 1 && s.len() >= 268))
}

spec fn hello_shape(s: Seq<u8>) -> bool {
    &&& s.len() >= 4
    &&& parse_prefixed(s.skip(4)) matches Some((title, n))
    &&& s.len() == 4 + n + 40
}

spec fn body_shape(b: Seq<u8>) -> bool {
    &&& b.len() >= 1
    &&& if b[0] == TAG_HELLO {
        hello_shape(b.skip(1))
    } else if b[0] == TAG_HOLA {
        b.len() == 17
    } else if b[0] == TAG_INPUT {
        input_shape(b.skip(1))
    } else {
        false
    }
}

/// Where the fields of an input lie in its encoding.
pub proof fn lemma_input_layout(i: Input)
    ensures
        ({
            let s = encode_input(i);
            &&& s.subrange(0, 4) == u32_le(i.local_tick)
            &&& s.subrange(4, 8) == u32_le(i.remote_tick)
            &&& s.subrange(8, 10) == u16_le(i.joyflags)
            &&& s[10] == i.custom_screen_state
            &&& i.turn is None ==> s.len() == 12 && s[11] == 0
            &&& i.turn matches Some(t) ==> s.len() == 268 && s[11] == 1 && s.subrange(12, 268)
                == t@
            &&& input_shape(s)
        }),
{
    let s = encode_input(i);
    assert(s.subrange(0, 4) =~= u32_le(i.local_tick));
    assert(s.subrange(4, 8) =~= u32_le(i.remote_tick));
    assert(s.subrange(8, 10) =~= u16_le(i.joyflags));
    match i.turn {
        Some(t) => {
            assert(s.subrange(12, 268) =~= t@);
        },
        None => {},
    }
}

/// Two inputs with the same encoding are the same input.
pub proof fn lemma_input_injective(a: Input, b: Input)
    requires
        encode_input(a) == encode_input(b),
    ensures
        a == b,
{
    lemma_input_layout(a);
    lemma_input_layout(b);
    lemma_u32_le_injective(a.local_tick, b.local_tick);
    lemma_u32_le_injective(a.remote_tick, b.remote_tick);
    lemma_u16_le_injective(a.joyflags, b.joyflags);
    match (a.turn, b.turn) {
        (Some(x), Some(y)) => {
            assert(x =~= y);
        },
        _ => {},
    }
}

proof fn lemma_hello_layout(h: HelloView)
    requires
        h.game_title.len() <= u64::MAX,
    ensures
        ({
            let s = hello_body(h);
            let n = prefixed(h.game_title).len() as int;
            &&& s.len() == 4 + n + 40
            &&& s.subrange(0, 4) == u32_le(h.protocol_version)
            &&& parse_prefixed(s.skip(4)) == Some((h.game_title, n as nat))
            &&& s.subrange(4 + n, 8 + n) == u32_le(h.game_crc32)
            &&& s.subrange(8 + n, 12 + n) == u32_le(h.match_type)
            &&& s.subrange(12 + n, 44 + n) == h.rng_commitment@
            &&& hello_shape(s)
        }),
{
    let s = hello_body(h);
    let n = prefixed(h.game_title).len() as int;
    let rest = u32_le(h.game_crc32) + u32_le(h.match_type) + h.rng_commitment@;
    assert(s.skip(4) =~= prefixed(h.game_title) + rest);
    lemma_parse_prefixed_of_prefixed(h.game_title, rest);
    assert(s.subrange(0, 4) =~= u32_le(h.protocol_version));
    assert(s.subrange(4 + n, 8 + n) =~= u32_le(h.game_crc32));
    assert(s.subrange(8 + n, 12 + n) =~= u32_le(h.match_type));
    assert(s.subrange(12 + n, 44 + n) =~= h.rng_commitment@);
}

proof fn lemma_hello_injective(a: HelloView, b: HelloView)
    requires
        a.game_title.len() <= u64::MAX,
        b.game_title.len() <= u64::MAX,
        hello_body(a) == hello_body(b),
    ensures
        a == b,
{
    lemma_hello_layout(a);
    lemma_hello_layout(b);
    lemma_u32_le_injective(a.protocol_version, b.protocol_version);
    lemma_u32_le_injective(a.game_crc32, b.game_crc32);
    lemma_u32_le_injective(a.match_type, b.match_type);
    assert(a.rng_commitment =~= b.rng_commitment);
}

proof fn lemma_body_layout(p: PacketView)
    requires
        packet_fits(p),
    ensures
        body_shape(packet_body(p)),
        packet_body(p).len() >= 1,
        p is Hello ==> packet_body(p)[0] == TAG_HELLO && packet_body(p).skip(1) == hello_body(
            p->Hello_0,
        ),
        p is Hola ==> packet_body(p)[0] == TAG_HOLA && packet_body(p).skip(1)
            == p->Hola_0.rng_nonce@,
        p is Input ==> packet_body(p)[0] == TAG_INPUT && packet_body(p).skip(1) == encode_input(
            p->Input_0,
        ),
{
    let b = packet_body(p);
    match p {
        PacketView::Hello(h) => {
            assert(b.skip(1) =~= hello_body(h));
            lemma_hello_layout(h);
        },
        PacketView::Hola(h) => {
            assert(b.skip(1) =~= h.rng_nonce@);
        },
        PacketView::Input(i) => {
            assert(b.skip(1) =~= encode_input(i));
            lemma_input_layout(i);
        },
    }
}

proof fn lemma_body_injective(p: PacketView, q: PacketView)
    requires
        packet_fits(p),
        packet_fits(q),
        packet_body(p) == packet_body(q),
    ensures
        p == q,
{
    lemma_body_layout(p);
    lemma_body_layout(q);
    match (p, q) {
        (PacketView::Hello(a), PacketView::Hello(b)) => {
            lemma_hello_injective(a, b);
        },
        (PacketView::Hola(a), PacketView::Hola(b)) => {
            assert(a.rng_nonce =~= b.rng_nonce);
        },
        (PacketView::Input(a), PacketView::Input(b)) => {
            lemma_input_injective(a, b);
        },
        _ => {},
    }
}

/// Two packets with the same datagram are the same packet.
pub proof fn lemma_packet_injective(p: PacketView, q: PacketView)
    requires
        packet_fits(p),
        packet_fits(q),
        encode_packet(p) == encode_packet(q),
    ensures
        p == q,
{
    let empty = Seq::<u8>::empty();
    lemma_parse_prefixed_of_prefixed(packet_body(p), empty);
    lemma_parse_prefixed_of_prefixed(packet_body(q), empty);
    assert(encode_packet(p) + empty =~= encode_packet(p));
    assert(encode_packet(q) + empty =~= encode_packet(q));
    lemma_body_injective(p, q);
}

/// Decoding the datagram of a packet gives the packet back.
pub proof fn law_decode_encode(p: PacketView)
    requires
        packet_fits(p),
    ensures
        decoded(encode_packet(p)) == Some(p),
{
    let q = decoded(encode_packet(p)).unwrap();
    lemma_packet_injective(p, q);
}

/// Only the datagram that the encoder writes for a packet decodes to it.
pub proof fn law_encode_decode(bytes: Seq<u8>, p: PacketView)
    requires
        decoded(bytes) == Some(p),
    ensures
        encode_packet(p) == bytes,
        packet_fits(p),
{
}

/// Appends an input.
pub fn put_input(buf: &mut Vec<u8>, input: &Input)
    ensures
        final(buf)@ == old(buf)@ + encode_input(*input),
{
    put_u32(buf, input.local_tick);
    put_u32(buf, input.remote_tick);
    put_u16(buf, input.joyflags);
    buf.push(input.custom_screen_state);
    match &input.turn {
        Some(t) => {
            buf.push(1);
            put_bytes(buf, t.as_slice());
        },
        None => {
            buf.push(0);
        },
    }
    assert(buf@ =~= old(buf)@ + encode_input(*input));
}

/// Reads an input at `pos`: the input and the position after it.
pub fn take_input_prefix(bytes: &[u8], pos: usize) -> (r: Option<(Input, usize)>)
    ensures
        match r {
            Some((i, next)) => pos < next <= bytes@.len() && encode_input(i) == bytes@.subrange(
                pos as int,
                next as int,
            ),
            None => pos > bytes@.len() || !input_prefix_shape(bytes@.skip(pos as int)),
        },
{
    if pos > bytes.len() {
        return None;
    }
    let ghost s = bytes@.skip(pos as int);
    let left = bytes.len() - pos;
    if left < 12 {
        return None;
    }
    let local_tick = take_u32(bytes, pos).unwrap();
    let remote_tick = take_u32(bytes, pos + 4).unwrap();
    let joyflags = take_u16(bytes, pos + 8).unwrap();
    let custom_screen_state = bytes[pos + 10];
    let flag = bytes[pos + 11];
    assert(s[11] == flag);
    let (turn, next) = if flag == 0 {
        (None, pos + 12)
    } else if flag == 1 && left >= 268 {
        let t = copy_array([0u8; 256], bytes, pos + 12);
        (Some(t), pos + 268)
    } else {
        return None;
    };
    let input = Input { local_tick, remote_tick, joyflags, custom_screen_state, turn };
    proof {
        let e = encode_input(input);
        let t = bytes@.subrange(pos as int, next as int);
        assert(e.len() == t.len());
        assert forall|k: int| 0 <= k < e.len() implies e[k] == t[k] by {
            if k < 4 {
                assert(e[k] == bytes@.subrange(pos as int, pos + 4)[k]);
            } else if k < 8 {
                assert(e[k] == bytes@.subrange(pos + 4, pos + 8)[k - 4]);
            } else if k < 10 {
                assert(e[k] == bytes@.subrange(pos + 8, pos + 10)[k - 8]);
            } else if k >= 12 {
                assert(e[k] == bytes@.subrange(pos + 12, pos + 268)[k - 12]);
            }
        }
        assert(e =~= t);
    }
    Some((input, next))
}

/// Reads an input that fills `bytes` from `pos` to the end.
pub fn take_input(bytes: &[u8], pos: usize) -> (r: Option<Input>)
    ensures
        match r {
            Some(i) => pos < bytes@.len() && encode_input(i) == bytes@.skip(pos as int),
            None => pos > bytes@.len() || !input_shape(bytes@.skip(pos as int)),
        },
{
    match take_input_prefix(bytes, pos) {
        Some((input, next)) => {
            if next == bytes.len() {
                assert(bytes@.subrange(pos as int, next as int) =~= bytes@.skip(pos as int));
                Some(input)
            } else {
                proof {
                    lemma_input_layout(input);
                    assert(bytes@.skip(pos as int)[11] == bytes@.subrange(
                        pos as int,
                        next as int,
                    )[11]);
                }
                None
            }
        },
        None => None,
    }
}

fn put_hello(buf: &mut Vec<u8>, hello: &Hello)
    ensures
        final(buf)@ == old(buf)@ + hello_body(hello@),
{
    put_u32(buf, hello.protocol_version);
    put_prefixed(buf, hello.game_title.as_slice());
    put_u32(buf, hello.game_crc32);
    put_u32(buf, hello.match_type);
    put_bytes(buf, hello.rng_commitment.as_slice());
    assert(buf@ =~= old(buf)@ + hello_body(hello@));
}

fn take_hello(bytes: &[u8], pos: usize) -> (r: Option<Hello>)
    requires
        pos <= bytes@.len(),
    ensures
        match r {
            Some(h) => hello_body(h@) == bytes@.skip(pos as int) && h@.game_title.len()
                <= u64::MAX,
            None => !hello_shape(bytes@.skip(pos as int)),
        },
{
    let ghost s = bytes@.skip(pos as int);
    let len = bytes.len();
    let protocol_version = match take_u32(bytes, pos) {
        Some(v) => v,
        None => {
            return None;
        },
    };
    assert(s.skip(4) =~= bytes@.skip(pos + 4));
    let (game_title, after_title) = match take_prefixed(bytes, pos + 4) {
        Some(out) => out,
        None => {
            return None;
        },
    };
    if len - after_title != 40 {
        return None;
    }
    let game_crc32 = take_u32(bytes, after_title).unwrap();
    let match_type = take_u32(bytes, after_title + 4).unwrap();
    let rng_commitment = copy_array([0u8; 32], bytes, after_title + 8);
    let hello = Hello { protocol_version, game_title, game_crc32, match_type, rng_commitment };
    proof {
        lemma_prefixed_of_parse_prefixed(s.skip(4));
        let n = (after_title - pos - 4) as int;
        let e = hello_body(hello@);
        assert(prefixed(game_title@) == s.skip(4).take(n));
        assert(e.len() == s.len());
        assert forall|k: int| 0 <= k < e.len() implies e[k] == s[k] by {
            if k < 4 {
                assert(e[k] == bytes@.subrange(pos as int, pos + 4)[k]);
            } else if k < 4 + n {
                assert(e[k] == s.skip(4).take(n)[k - 4]);
            } else if k < 8 + n {
                assert(e[k] == bytes@.subrange(after_title as int, after_title + 4)[k - 4 - n]);
            } else if k < 12 + n {
                assert(e[k] == bytes@.subrange(after_title + 4, after_title + 8)[k - 8 - n]);
            } else {
                assert(e[k] == bytes@.subrange(after_title + 8, after_title + 40)[k - 12 - n]);
            }
        }
        assert(e =~= s);
    }
    Some(hello)
}

fn take_body(body: &[u8]) -> (r: Option<Packet>)
    ensures
        match r {
            Some(p) => packet_body(p@) == body@ && packet_fits(p@),
            None => !body_shape(body@),
        },
{
    if body.len() < 1 {
        return None;
    }
    let tag = body[0];
    if tag == TAG_HELLO {
        match take_hello(body, 1) {
            Some(h) => {
                assert(packet_body(PacketView::Hello(h@)) =~= body@);
                Some(Packet::Hello(h))
            },
            None => None,
        }
    } else if tag == TAG_HOLA {
        if body.len() != 17 {
            return None;
        }
        let rng_nonce = copy_array([0u8; 16], body, 1);
        let hola = Hola { rng_nonce };
        assert(packet_body(PacketView::Hola(hola)) =~= body@);
        Some(Packet::Hola(hola))
    } else if tag == TAG_INPUT {
        match take_input(body, 1) {
            Some(i) => {
                assert(packet_body(PacketView::Input(i)) =~= body@);
                Some(Packet::Input(i))
            },
            None => None,
        }
    } else {
        None
    }
}

impl Packet {
    /// The datagram for this packet.
    pub fn encode(&self) -> (bytes: Vec<u8>)
        ensures
            bytes@ == encode_packet(self@),
    {
        let mut body: Vec<u8> = Vec::new();
        match self {
            Packet::Hello(h) => {
                body.push(TAG_HELLO);
                put_hello(&mut body, h);
            },
            Packet::Hola(h) => {
                body.push(TAG_HOLA);
                put_bytes(&mut body, h.rng_nonce.as_slice());
            },
            Packet::Input(i) => {
                body.push(TAG_INPUT);
                put_input(&mut body, i);
            },
        }
        assert(body@ =~= packet_body(self@));
        let mut bytes: Vec<u8> = Vec::new();
        put_prefixed(&mut bytes, body.as_slice());
        assert(bytes@ =~= encode_packet(self@));
        bytes
    }

    /// The packet that the datagram `bytes` holds, or `None` where it holds
    /// none: only what `encode` writes is taken.
    pub fn decode(bytes: &[u8]) -> (r: Option<Packet>)
        ensures
            packet_view(r) == decoded(bytes@),
    {
        let ghost empty = Seq::<u8>::empty();
        proof {
            assert(bytes@.skip(0) =~= bytes@);
            assert forall|q: PacketView| packet_fits(q) && encode_packet(q) == bytes@ implies {
                &&& parse_prefixed(bytes@) == Some((packet_body(q), bytes@.len()))
                &&& body_shape(packet_body(q))
            } by {
                lemma_parse_prefixed_of_prefixed(packet_body(q), empty);
                assert(encode_packet(q) + empty =~= encode_packet(q));
                lemma_body_layout(q);
            }
        }
        let (body, next) = match take_prefixed(bytes, 0) {
            Some(out) => out,
            None => {
                return None;
            },
        };
        if next != bytes.len() {
            return None;
        }
        match take_body(body.as_slice()) {
            Some(p) => {
                proof {
                    lemma_prefixed_of_parse_prefixed(bytes@);
                    assert(bytes@.take(bytes@.len() as int) =~= bytes@);
                    assert(encode_packet(p@) == bytes@);
                    law_decode_encode(p@);
                }
                Some(p)
            },
            None => None,
        }
    }
}

} // verus!
