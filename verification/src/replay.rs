//! The record of a battle: the save state it began from and every committed
//! input pair, enough to play it again.
//!
//! A replay file is a header of one byte for the local player's index, the
//! ROM's 12-byte title and its CRC-32, then the length of the save state and
//! the state itself, then one length-delimited input pair after the other
//! until the file ends.  Numbers are little-endian.

use crate::input::{Input, Pair};
use crate::protocol::{
    encode_input, input_prefix_shape, input_shape, lemma_input_injective, lemma_input_layout,
    put_input, take_input, take_input_prefix,
};
use crate::wire::{
    copy_array, copy_range, lemma_parse_prefixed_of_prefixed, lemma_prefixed_of_parse_prefixed,
    lemma_u32_le_injective, parse_prefixed, prefixed, put_bytes, put_prefixed, put_u32,
    same_bytes, take_prefixed, take_u32, u32_le,
};
use vstd::prelude::*;

verus! {

/// Length in bytes of the header, up to and including the state's length.
pub const HEADER_LEN: usize = 21;

/// A recorded battle.
#[derive(Debug)]
pub struct Replay {
    pub local_player_index: u8,
    /// The ROM's title: 12 bytes of ASCII.
    pub rom_title: [u8; 12],
    pub rom_crc32: u32,
    /// The save state that the battle began from, as the emulator wrote it.
    pub initial_state: Vec<u8>,
    /// Every committed pair, oldest first.
    pub input_pairs: Vec<Pair<Input>>,
}

/// A `Replay` as a mathematical value.
pub struct ReplayView {
    pub local_player_index: u8,
    pub rom_title: [u8; 12],
    pub rom_crc32: u32,
    pub initial_state: Seq<u8>,
    pub input_pairs: Seq<Pair<Input>>,
}

impl View for Replay {
    type V = ReplayView;

    open spec fn view(&self) -> ReplayView {
        ReplayView {
            local_player_index: self.local_player_index,
            rom_title: self.rom_title,
            rom_crc32: self.rom_crc32,
            initial_state: self.initial_state@,
            input_pairs: self.input_pairs@,
        }
    }
}

/// What a replay slot holds, as a mathematical value.
pub open spec fn replay_view(slot: Option<Replay>) -> Option<ReplayView> {
    match slot {
        Some(r) => Some(r@),
        None => None,
    }
}

/// Whether every byte of a title is ASCII.
pub open spec fn is_ascii(title: Seq<u8>) -> bool {
    forall|i: int| 0 <= i < title.len() ==> title[i] < 128
}

/// Whether a replay can be written: its title is ASCII, and the length of its
/// save state fits the header.
pub open spec fn well_formed(r: ReplayView) -> bool {
    is_ascii(r.rom_title@) && r.initial_state.len() <= u32::MAX
}

/// The two inputs of a pair, local first.
#[verifier::opaque]
pub open spec fn pair_body(p: Pair<Input>) -> Seq<u8> {
    encode_input(p.local) + encode_input(p.remote)
}

/// A pair with its length in front.
pub open spec fn encode_pair(p: Pair<Input>) -> Seq<u8> {
    prefixed(pair_body(p))
}

/// Pair after pair, oldest first.
pub open spec fn encode_pairs(pairs: Seq<Pair<Input>>) -> Seq<u8>
    decreases pairs.len(),
{
    if pairs.len() == 0 {
        Seq::empty()
    } else {
        encode_pair(pairs[0]) + encode_pairs(pairs.drop_first())
    }
}

/// A replay as a file.
pub open spec fn encode_replay(r: ReplayView) -> Seq<u8> {
    seq![r.local_player_index] + r.rom_title@ + u32_le(r.rom_crc32) + u32_le(
        r.initial_state.len() as u32,
    ) + r.initial_state + encode_pairs(r.input_pairs)
}

/// The replay that a file holds, if it holds one.
pub open spec fn decoded_replay(bytes: Seq<u8>) -> Option<ReplayView> {
    if exists|r: ReplayView| well_formed(r) && encode_replay(r) == bytes {
        Some(choose|r: ReplayView| well_formed(r) && encode_replay(r) == bytes)
    } else {
        None
    }
}

spec fn pair_shape(body: Seq<u8>) -> bool {
    input_prefix_shape(body) && input_shape(
        body.skip(
            if body[11] == 0 {
                12
            } else {
                268
            },
        ),
    )
}

spec fn pairs_shape(s: Seq<u8>) -> bool
    decreases s.len(),
{
    s.len() == 0 || match parse_prefixed(s) {
        Some((body, n)) => 0 < n <= s.len() && pair_shape(body) && pairs_shape(s.skip(n as int)),
        None => false,
    }
}

spec fn replay_shape(bytes: Seq<u8>) -> bool {
    &&& bytes.len() >= 21
    &&& is_ascii(bytes.subrange(1, 13))
    &&& forall|v: u32| #[trigger]
        u32_le(v) == bytes.subrange(17, 21) ==> 21 + v <= bytes.len() && pairs_shape(
            bytes.skip(21 + v),
        )
}

proof fn lemma_pair_layout(p: Pair<Input>)
    ensures
        ({
            let b = pair_body(p);
            let n = encode_input(p.local).len() as int;
            &&& b.len() <= 536
            &&& (n == 12 || n == 268)
            &&& n == if b[11] == 0 {
                12int
            } else {
                268int
            }
            &&& b.subrange(0, n) == encode_input(p.local)
            &&& b.skip(n) == encode_input(p.remote)
            &&& pair_shape(b)
        }),
{
    reveal(pair_body);
    let b = pair_body(p);
    let n = encode_input(p.local).len() as int;
    lemma_input_layout(p.local);
    lemma_input_layout(p.remote);
    assert(b[11] == encode_input(p.local)[11]);
    assert(b.subrange(0, n) =~= encode_input(p.local));
    assert(b.skip(n) =~= encode_input(p.remote));
}

proof fn lemma_pair_injective(p: Pair<Input>, q: Pair<Input>)
    requires
        pair_body(p) == pair_body(q),
    ensures
        p == q,
{
    lemma_pair_layout(p);
    lemma_pair_layout(q);
    lemma_input_injective(p.local, q.local);
    lemma_input_injective(p.remote, q.remote);
}

proof fn lemma_pairs_head(pairs: Seq<Pair<Input>>)
    requires
        pairs.len() > 0,
    ensures
        ({
            let s = encode_pairs(pairs);
            let n = encode_pair(pairs[0]).len();
            &&& 0 < n <= s.len()
            &&& parse_prefixed(s) == Some((pair_body(pairs[0]), n))
            &&& s.skip(n as int) == encode_pairs(pairs.drop_first())
        }),
{
    let s = encode_pairs(pairs);
    let rest = encode_pairs(pairs.drop_first());
    lemma_pair_layout(pairs[0]);
    lemma_parse_prefixed_of_prefixed(pair_body(pairs[0]), rest);
    assert(s.skip(encode_pair(pairs[0]).len() as int) =~= rest);
}

proof fn lemma_pairs_shape(pairs: Seq<Pair<Input>>)
    ensures
        pairs_shape(encode_pairs(pairs)),
    decreases pairs.len(),
{
    if pairs.len() > 0 {
        lemma_pairs_head(pairs);
        lemma_pair_layout(pairs[0]);
        lemma_pairs_shape(pairs.drop_first());
    }
}

proof fn lemma_pairs_injective(a: Seq<Pair<Input>>, b: Seq<Pair<Input>>)
    requires
        encode_pairs(a) == encode_pairs(b),
    ensures
        a == b,
    decreases a.len(),
{
    if a.len() == 0 {
        if b.len() > 0 {
            lemma_pairs_head(b);
        }
        assert(a =~= b);
    } else {
        lemma_pairs_head(a);
        if b.len() > 0 {
            lemma_pairs_head(b);
            lemma_pair_injective(a[0], b[0]);
            lemma_pairs_injective(a.drop_first(), b.drop_first());
            assert(a =~= seq![a[0]] + a.drop_first());
            assert(b =~= seq![b[0]] + b.drop_first());
        }
    }
}

/// Writing one more pair appends its bytes to what was written before.
pub proof fn lemma_pairs_push(pairs: Seq<Pair<Input>>, p: Pair<Input>)
    ensures
        encode_pairs(pairs.push(p)) == encode_pairs(pairs) + encode_pair(p),
    decreases pairs.len(),
{
    let more = pairs.push(p);
    let last = encode_pair(p);
    if pairs.len() == 0 {
        assert(more.drop_first() =~= Seq::<Pair<Input>>::empty());
        assert(encode_pairs(more.drop_first()) =~= Seq::<u8>::empty());
        assert(encode_pairs(more) == last + Seq::<u8>::empty());
        assert(last + Seq::<u8>::empty() =~= Seq::<u8>::empty() + last);
    } else {
        let first = encode_pair(pairs[0]);
        let middle = encode_pairs(pairs.drop_first());
        assert(more.drop_first() =~= pairs.drop_first().push(p));
        lemma_pairs_push(pairs.drop_first(), p);
        assert(encode_pairs(more) == first + (middle + last));
        assert(first + (middle + last) =~= (first + middle) + last);
    }
}

proof fn lemma_replay_layout(r: ReplayView)
    requires
        well_formed(r),
    ensures
        ({
            let s = encode_replay(r);
            let n = r.initial_state.len() as int;
            &&& s.len() >= 21 + n
            &&& s[0] == r.local_player_index
            &&& s.subrange(1, 13) == r.rom_title@
            &&& s.subrange(13, 17) == u32_le(r.rom_crc32)
            &&& s.subrange(17, 21) == u32_le(n as u32)
            &&& s.subrange(21, 21 + n) == r.initial_state
            &&& s.skip(21 + n) == encode_pairs(r.input_pairs)
            &&& replay_shape(s)
        }),
{
    let s = encode_replay(r);
    let n = r.initial_state.len() as int;
    assert(s.subrange(1, 13) =~= r.rom_title@);
    assert(s.subrange(13, 17) =~= u32_le(r.rom_crc32));
    assert(s.subrange(17, 21) =~= u32_le(n as u32));
    assert(s.subrange(21, 21 + n) =~= r.initial_state);
    assert(s.skip(21 + n) =~= encode_pairs(r.input_pairs));
    lemma_pairs_shape(r.input_pairs);
    assert forall|v: u32| #[trigger] u32_le(v) == s.subrange(17, 21) implies 21 + v <= s.len()
        && pairs_shape(s.skip(21 + v)) by {
        lemma_u32_le_injective(v, n as u32);
    }
}

/// Two replays with the same file are the same replay.
pub proof fn lemma_replay_injective(a: ReplayView, b: ReplayView)
    requires
        well_formed(a),
        well_formed(b),
        encode_replay(a) == encode_replay(b),
    ensures
        a == b,
{
    lemma_replay_layout(a);
    lemma_replay_layout(b);
    assert(a.rom_title =~= b.rom_title);
    lemma_u32_le_injective(a.rom_crc32, b.rom_crc32);
    lemma_u32_le_injective(a.initial_state.len() as u32, b.initial_state.len() as u32);
    lemma_pairs_injective(a.input_pairs, b.input_pairs);
}

/// Decoding the file of a replay gives the replay back, field by field and
/// pair by pair.
pub proof fn law_replay_roundtrip(r: ReplayView)
    requires
        well_formed(r),
    ensures
        decoded_replay(encode_replay(r)) == Some(r),
{
    let q = decoded_replay(encode_replay(r)).unwrap();
    lemma_replay_injective(r, q);
}

/// Only the file that the encoder writes for a replay decodes to it.
pub proof fn law_replay_canonical(bytes: Seq<u8>, r: ReplayView)
    requires
        decoded_replay(bytes) == Some(r),
    ensures
        encode_replay(r) == bytes,
        well_formed(r),
{
}

fn title_is_ascii(title: &[u8; 12]) -> (ok: bool)
    ensures
        ok == is_ascii(title@),
{
    let mut i: usize = 0;
    while i < 12
        invariant
            i <= 12,
            forall|k: int| 0 <= k < i ==> title@[k] < 128,
        decreases 12 - i,
    {
        if title[i] >= 128 {
            return false;
        }
        i += 1;
    }
    true
}

fn put_pair(buf: &mut Vec<u8>, pair: &Pair<Input>)
    ensures
        final(buf)@ == old(buf)@ + encode_pair(*pair),
{
    let mut body: Vec<u8> = Vec::new();
    put_input(&mut body, &pair.local);
    put_input(&mut body, &pair.remote);
    assert(body@ =~= pair_body(*pair)) by {
        reveal(pair_body);
    }
    put_prefixed(buf, body.as_slice());
}

fn take_pair_body(body: &[u8]) -> (r: Option<Pair<Input>>)
    ensures
        match r {
            Some(p) => pair_body(p) == body@,
            None => !pair_shape(body@),
        },
{
    assert(body@.skip(0) =~= body@);
    let (local, next) = match take_input_prefix(body, 0) {
        Some(out) => out,
        None => {
            return None;
        },
    };
    proof {
        lemma_input_layout(local);
        assert(body@[11] == body@.subrange(0, next as int)[11]);
    }
    match take_input(body, next) {
        Some(remote) => {
            assert(body@ =~= body@.subrange(0, next as int) + body@.skip(next as int));
            assert(pair_body(Pair { local, remote }) == body@) by {
                reveal(pair_body);
            }
            Some(Pair { local, remote })
        },
        None => None,
    }
}

fn take_pairs(bytes: &[u8], start: usize) -> (r: Option<Vec<Pair<Input>>>)
    requires
        start <= bytes@.len(),
    ensures
        match r {
            Some(pairs) => encode_pairs(pairs@) == bytes@.skip(start as int),
            None => !pairs_shape(bytes@.skip(start as int)),
        },
{
    let mut pairs: Vec<Pair<Input>> = Vec::new();
    let mut pos: usize = start;
    assert(bytes@.subrange(start as int, start as int) =~= encode_pairs(pairs@));
    while pos < bytes.len()
        invariant
            start <= pos <= bytes@.len(),
            bytes@.subrange(start as int, pos as int) == encode_pairs(pairs@),
            pairs_shape(bytes@.skip(start as int)) ==> pairs_shape(bytes@.skip(pos as int)),
        decreases bytes@.len() - pos,
    {
        let ghost s = bytes@.skip(pos as int);
        let (body, next) = match take_prefixed(bytes, pos) {
            Some(out) => out,
            None => {
                return None;
            },
        };
        let pair = match take_pair_body(body.as_slice()) {
            Some(p) => p,
            None => {
                return None;
            },
        };
        proof {
            lemma_prefixed_of_parse_prefixed(s);
            assert(s.take(next - pos) =~= bytes@.subrange(pos as int, next as int));
            assert(s.skip(next - pos) =~= bytes@.skip(next as int));
            assert(bytes@.subrange(pos as int, next as int) == encode_pair(pair));
            lemma_pairs_push(pairs@, pair);
            assert(bytes@.subrange(start as int, next as int) =~= bytes@.subrange(
                start as int,
                pos as int,
            ) + bytes@.subrange(pos as int, next as int));
            assert(pairs_shape(s) ==> pairs_shape(s.skip(next - pos)));
        }
        pairs.push(pair);
        pos = next;
    }
    assert(bytes@.subrange(start as int, pos as int) =~= bytes@.skip(start as int));
    Some(pairs)
}

/// Whether a ROM is the one that a replay was recorded on.
#[derive(Clone, Copy, Debug, PartialEq, Eq, Structural)]
pub enum Eligibility {
    Eligible,
    /// The ROM has another title.
    WrongTitle,
    /// The ROM has the title, and another checksum.
    WrongCrc32,
}

impl ReplayView {
    /// Whether the ROM with this title and checksum is the one recorded on.
    pub open spec fn eligibility(self, title: Seq<u8>, crc32: u32) -> Eligibility {
        if self.rom_title@ != title {
            Eligibility::WrongTitle
        } else if self.rom_crc32 != crc32 {
            Eligibility::WrongCrc32
        } else {
            Eligibility::Eligible
        }
    }
}

impl Replay {
    /// Whether the ROM with this title and checksum is the one that the
    /// replay was recorded on.
    pub fn eligibility(&self, title: &[u8], crc32: u32) -> (e: Eligibility)
        ensures
            e == self@.eligibility(title@, crc32),
    {
        if !same_bytes(self.rom_title.as_slice(), title) {
            Eligibility::WrongTitle
        } else if self.rom_crc32 != crc32 {
            Eligibility::WrongCrc32
        } else {
            Eligibility::Eligible
        }
    }

    /// The file for this replay, or `None` where it cannot be written: the
    /// title is not ASCII, or the save state is too long for its length
    /// field.
    pub fn encode(&self) -> (r: Option<Vec<u8>>)
        ensures
            match r {
                Some(bytes) => well_formed(self@) && bytes@ == encode_replay(self@),
                None => !well_formed(self@),
            },
    {
        if !title_is_ascii(&self.rom_title) || self.initial_state.len() > u32::MAX as usize {
            return None;
        }
        let mut bytes: Vec<u8> = Vec::new();
        bytes.push(self.local_player_index);
        put_bytes(&mut bytes, self.rom_title.as_slice());
        put_u32(&mut bytes, self.rom_crc32);
        put_u32(&mut bytes, self.initial_state.len() as u32);
        put_bytes(&mut bytes, self.initial_state.as_slice());
        let ghost head = bytes@;
        let mut i: usize = 0;
        assert(bytes@ =~= head + encode_pairs(self.input_pairs@.take(0)));
        while i < self.input_pairs.len()
            invariant
                i <= self.input_pairs@.len(),
                bytes@ == head + encode_pairs(self.input_pairs@.take(i as int)),
            decreases self.input_pairs@.len() - i,
        {
            proof {
                lemma_pairs_push(self.input_pairs@.take(i as int), self.input_pairs@[i as int]);
                assert(self.input_pairs@.take(i as int).push(self.input_pairs@[i as int])
                    =~= self.input_pairs@.take(i + 1));
            }
            put_pair(&mut bytes, &self.input_pairs[i]);
            i += 1;
        }
        assert(self.input_pairs@.take(i as int) =~= self.input_pairs@);
        assert(bytes@ =~= encode_replay(self@));
        Some(bytes)
    }

    /// The replay that the file `bytes` holds, or `None` where it holds none:
    /// only what `encode` writes is taken.
    pub fn decode(bytes: &[u8]) -> (r: Option<Replay>)
        ensures
            replay_view(r) == decoded_replay(bytes@),
    {
        proof {
            assert forall|q: ReplayView|
                well_formed(q) && encode_replay(q) == bytes@ implies replay_shape(bytes@) by {
                lemma_replay_layout(q);
            }
        }
        if bytes.len() < HEADER_LEN {
            return None;
        }
        let local_player_index = bytes[0];
        let rom_title = copy_array([0u8; 12], bytes, 1);
        if !title_is_ascii(&rom_title) {
            return None;
        }
        let rom_crc32 = take_u32(bytes, 13).unwrap();
        let state_len = take_u32(bytes, 17).unwrap();
        if state_len as usize > bytes.len() - HEADER_LEN {
            return None;
        }
        let state_end = HEADER_LEN + state_len as usize;
        let initial_state = copy_range(bytes, HEADER_LEN, state_end);
        let input_pairs = match take_pairs(bytes, state_end) {
            Some(pairs) => pairs,
            None => {
                return None;
            },
        };
        let replay = Replay {
            local_player_index,
            rom_title,
            rom_crc32,
            initial_state,
            input_pairs,
        };
        proof {
            let e = encode_replay(replay@);
            let n = state_len as int;
            assert(e.len() == bytes@.len());
            assert forall|k: int| 0 <= k < e.len() implies e[k] == bytes@[k] by {
                if 1 <= k < 13 {
                    assert(e[k] == bytes@.subrange(1, 13)[k - 1]);
                } else if 13 <= k < 17 {
                    assert(e[k] == bytes@.subrange(13, 17)[k - 13]);
                } else if 17 <= k < 21 {
                    assert(e[k] == bytes@.subrange(17, 21)[k - 17]);
                } else if 21 <= k < 21 + n {
                    assert(e[k] == bytes@.subrange(21, 21 + n)[k - 21]);
                } else if k >= 21 + n {
                    assert(e[k] == bytes@.skip(21 + n)[k - 21 - n]);
                }
            }
            assert(e =~= bytes@);
            law_replay_roundtrip(replay@);
        }
        Some(replay)
    }
}

} // verus!
