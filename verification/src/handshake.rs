//! The commit-reveal handshake that two peers run before any game traffic.
//!
//! Each side draws a nonce, sends a commitment to it, checks that the other
//! side speaks the same protocol about the same game, reveals its nonce and
//! checks the other's nonce against the commitment received earlier.  The
//! two nonces, XOR-ed, seed the generator that both sides share from then on.

use crate::protocol::{decoded, Hello, HelloView, Hola, Packet, PacketView};
use rand::Rng;
use rand::SeedableRng;
use sha3::digest::ExtendableOutput;
use subtle::ConstantTimeEq;
use vstd::prelude::*;

verus! {

/// `rand_pcg::Mcg128Xsl64`: a generator with 128 bits of state.  It is
/// carried along as it is; nothing is read from it.
#[verifier::external_type_specification]
#[verifier::external_body]
pub struct ExMcg128Xsl64(rand_pcg::Mcg128Xsl64);

/// `rand::Error`: why the operating system gave no random bytes.  Nothing
/// is read from it.
#[verifier::external_type_specification]
#[verifier::external_body]
pub struct ExRandError(rand::Error);

/// The first 32 bytes that SHAKE128 squeezes out after absorbing `input`.
pub uninterp spec fn shake128_32(input: Seq<u8>) -> Seq<u8>;

/// The generator that `rand_pcg` builds from a 16-byte seed.
pub uninterp spec fn pcg_seeded(seed: Seq<u8>) -> rand_pcg::Mcg128Xsl64;

/// `sha3::Shake128::digest_xof`: absorbs `input` into a fresh SHAKE128
/// sponge and reads 32 bytes of output.  The digest is a function of the
/// input alone; nothing else is claimed of it.
#[verifier::external_body]
fn shake128_digest(input: &[u8]) -> (out: [u8; 32])
    ensures
        out@ == shake128_32(input@),
{
    let mut out = [0u8; 32];
    sha3::Shake128::digest_xof(input, &mut out);
    out
}

/// `subtle::ConstantTimeEq::ct_eq` on byte slices, converted to `bool`:
/// true exactly when both slices have the same length and the same bytes.
/// The comparison looks at every byte, wherever the first difference is.
#[verifier::external_body]
fn ct_eq(a: &[u8], b: &[u8]) -> (same: bool)
    ensures
        same == (a@ == b@),
{
    a.ct_eq(b).into()
}

/// `rand::Rng::try_fill` on `rand::rngs::OsRng`: 16 bytes from the operating
/// system's generator, or its error.  Nothing is claimed of the bytes.
#[verifier::external_body]
fn os_random_nonce() -> (r: Result<[u8; 16], rand::Error>) {
    let mut nonce = [0u8; 16];
    match rand::rngs::OsRng.try_fill(&mut nonce[..]) {
        Ok(()) => Ok(nonce),
        Err(e) => Err(e),
    }
}

/// `rand_pcg::Mcg128Xsl64::from_seed`: the generator whose state is the seed
/// read as a little-endian number.  Equal seeds give equal generators.
#[verifier::external_body]
pub(crate) fn rng_from_seed(seed: [u8; 16]) -> (rng: rand_pcg::Mcg128Xsl64)
    ensures
        rng == pcg_seeded(seed@),
{
    rand_pcg::Mcg128Xsl64::from_seed(seed)
}

/// The broad classes of failure, by what the caller can do about them.
#[derive(Clone, Copy, Debug, PartialEq, Eq, Structural)]
pub enum ErrorKind {
    /// The channel is gone.
    Transport,
    /// The peer broke the protocol.
    Protocol,
    /// The game is in a state that the request does not fit.
    Game,
    /// The machine failed us.
    Platform,
    /// The user gave up.
    Cancelled,
}

/// Why a handshake failed.
#[derive(Clone, Copy, Debug, PartialEq, Eq, Structural)]
pub enum NegotiationError {
    /// The channel closed before the peer's packet came.
    ChannelClosed,
    /// The peer's datagram is no packet.
    Malformed,
    /// The peer sent a packet of the wrong kind for this step.
    UnexpectedPacket,
    /// The peer sent our own commitment back.
    ReplayedCommitment,
    ProtocolVersionMismatch { theirs: u32, ours: u32 },
    MatchTypeMismatch { theirs: u32, ours: u32 },
    GameMismatch,
    /// The peer's nonce does not open its commitment.
    CommitmentMismatch,
    /// The operating system gave no random bytes.
    EntropyUnavailable,
}

impl NegotiationError {
    /// The class that the error belongs to.
    pub open spec fn spec_kind(self) -> ErrorKind {
        match self {
            NegotiationError::ChannelClosed => ErrorKind::Transport,
            NegotiationError::EntropyUnavailable => ErrorKind::Platform,
            _ => ErrorKind::Protocol,
        }
    }

    /// The class that the error belongs to.
    #[verifier::when_used_as_spec(spec_kind)]
    pub fn kind(self) -> (k: ErrorKind)
        ensures
            k == self.spec_kind(),
    {
        match self {
            NegotiationError::ChannelClosed => ErrorKind::Transport,
            NegotiationError::EntropyUnavailable => ErrorKind::Platform,
            _ => ErrorKind::Protocol,
        }
    }
}

/// The bytes of `syncrand:nonce:`, which go into the sponge before the nonce.
pub open spec fn commitment_label() -> Seq<u8> {
    seq![
        0x73u8, 0x79u8, 0x6eu8, 0x63u8, 0x72u8, 0x61u8, 0x6eu8, 0x64u8, 0x3au8, 0x6eu8, 0x6fu8,
        0x6eu8, 0x63u8, 0x65u8, 0x3au8,
    ]
}

/// The commitment to a nonce.
pub open spec fn commitment_of(nonce: Seq<u8>) -> Seq<u8> {
    shake128_32(commitment_label() + nonce)
}

/// The seed that two nonces give: their bytewise XOR.
pub open spec fn seed_of(a: [u8; 16], b: [u8; 16]) -> Seq<u8> {
    Seq::new(16, |i: int| a[i] ^ b[i])
}

/// The part of a title that two peers must agree on: its first 8 bytes, or
/// all of it where it is shorter.
pub open spec fn title_stem(title: Seq<u8>) -> Seq<u8> {
    if title.len() <= 8 {
        title
    } else {
        title.take(8)
    }
}

/// Commits to `nonce`.
pub fn make_rng_commitment(nonce: &[u8]) -> (commitment: [u8; 32])
    ensures
        commitment@ == commitment_of(nonce@),
{
    let label: [u8; 15] = [
        0x73, 0x79, 0x6e, 0x63, 0x72, 0x61, 0x6e, 0x64, 0x3a, 0x6e, 0x6f, 0x6e, 0x63, 0x65, 0x3a,
    ];
    let mut message: Vec<u8> = Vec::new();
    let mut i: usize = 0;
    while i < 15
        invariant
            i <= 15,
            label@ == commitment_label(),
            message@ == commitment_label().take(i as int),
        decreases 15 - i,
    {
        message.push(label[i]);
        i += 1;
    }
    let mut j: usize = 0;
    while j < nonce.len()
        invariant
            j <= nonce@.len(),
            message@ == commitment_label() + nonce@.take(j as int),
        decreases nonce@.len() - j,
    {
        message.push(nonce[j]);
        j += 1;
    }
    assert(nonce@.take(nonce@.len() as int) == nonce@);
    shake128_digest(message.as_slice())
}

/// Whether `claimed` is the commitment `expected`, compared in constant
/// time.
pub fn commitment_matches(expected: &[u8; 32], claimed: &[u8]) -> (same: bool)
    ensures
        same == (expected@ == claimed@),
{
    ct_eq(expected.as_slice(), claimed)
}

/// Whether `nonce` opens `commitment`.
pub fn verify_rng_commitment(nonce: &[u8], commitment: &[u8]) -> (ok: bool)
    ensures
        ok == (commitment_of(nonce@) == commitment@),
{
    let expected = make_rng_commitment(nonce);
    commitment_matches(&expected, commitment)
}

/// The seed that both sides share once the nonces are known.
pub fn derive_seed(ours: &[u8; 16], theirs: &[u8; 16]) -> (seed: [u8; 16])
    ensures
        seed@ == seed_of(*ours, *theirs),
{
    let mut seed = [0u8; 16];
    let mut i: usize = 0;
    while i < 16
        invariant
            i <= 16,
            forall|k: int| 0 <= k < i ==> seed@[k] == ours@[k] ^ theirs@[k],
        decreases 16 - i,
    {
        seed[i] = ours[i] ^ theirs[i];
        i += 1;
    }
    assert(seed@ =~= seed_of(*ours, *theirs));
    seed
}

/// Whether two titles name the same game.
pub fn same_game(ours: &[u8], theirs: &[u8]) -> (same: bool)
    ensures
        same == (title_stem(ours@) == title_stem(theirs@)),
{
    let n: usize = if ours.len() <= 8 { ours.len() } else { 8 };
    let m: usize = if theirs.len() <= 8 { theirs.len() } else { 8 };
    if n != m {
        return false;
    }
    let mut i: usize = 0;
    while i < n
        invariant
            i <= n,
            n == title_stem(ours@).len(),
            n == title_stem(theirs@).len(),
            forall|k: int| 0 <= k < i ==> title_stem(ours@)[k] == title_stem(theirs@)[k],
        decreases n - i,
    {
        assert(title_stem(ours@)[i as int] == ours@[i as int]);
        assert(title_stem(theirs@)[i as int] == theirs@[i as int]);
        if ours[i] != theirs[i] {
            return false;
        }
        i += 1;
    }
    assert(title_stem(ours@) =~= title_stem(theirs@));
    true
}

/// What a side announces about itself.
#[derive(Debug)]
pub struct Identity {
    pub protocol_version: u32,
    /// The ROM's title, as its bytes.
    pub game_title: Vec<u8>,
    pub game_crc32: u32,
    pub match_type: u16,
}

/// An `Identity` as a mathematical value.
pub struct IdentityView {
    pub protocol_version: u32,
    pub game_title: Seq<u8>,
    pub game_crc32: u32,
    pub match_type: u16,
}

impl View for Identity {
    type V = IdentityView;

    open spec fn view(&self) -> IdentityView {
        IdentityView {
            protocol_version: self.protocol_version,
            game_title: self.game_title@,
            game_crc32: self.game_crc32,
            match_type: self.match_type,
        }
    }
}

/// The `Hello` that a side with this identity and commitment sends.
pub open spec fn hello_of(identity: IdentityView, commitment: [u8; 32]) -> HelloView {
    HelloView {
        protocol_version: identity.protocol_version,
        game_title: identity.game_title,
        game_crc32: identity.game_crc32,
        match_type: identity.match_type as u32,
        rng_commitment: commitment,
    }
}

/// What is wrong with the peer's `Hello`, if anything.  The checks run in
/// this order, and the first that fails decides.
pub open spec fn hello_fault(
    identity: IdentityView,
    commitment: [u8; 32],
    hello: HelloView,
) -> Option<NegotiationError> {
    if hello.rng_commitment == commitment {
        Some(NegotiationError::ReplayedCommitment)
    } else if hello.protocol_version != identity.protocol_version {
        Some(
            NegotiationError::ProtocolVersionMismatch {
                theirs: hello.protocol_version,
                ours: identity.protocol_version,
            },
        )
    } else if hello.match_type != identity.match_type as u32 {
        Some(
            NegotiationError::MatchTypeMismatch {
                theirs: hello.match_type,
                ours: identity.match_type as u32,
            },
        )
    } else if title_stem(hello.game_title) != title_stem(identity.game_title) {
        Some(NegotiationError::GameMismatch)
    } else {
        None
    }
}

/// Checks the peer's `Hello` against what we announced ourselves.
pub fn check_hello(identity: &Identity, commitment: &[u8; 32], hello: &Hello) -> (r: Result<
    (),
    NegotiationError,
>)
    ensures
        match r {
            Ok(()) => hello_fault(identity@, *commitment, hello@).is_none(),
            Err(e) => hello_fault(identity@, *commitment, hello@) == Some(e),
        },
{
    if commitment_matches(commitment, hello.rng_commitment.as_slice()) {
        assert(hello.rng_commitment =~= *commitment);
        return Err(NegotiationError::ReplayedCommitment);
    }
    if hello.protocol_version != identity.protocol_version {
        return Err(
            NegotiationError::ProtocolVersionMismatch {
                theirs: hello.protocol_version,
                ours: identity.protocol_version,
            },
        );
    }
    if hello.match_type != identity.match_type as u32 {
        return Err(
            NegotiationError::MatchTypeMismatch {
                theirs: hello.match_type,
                ours: identity.match_type as u32,
            },
        );
    }
    if !same_game(identity.game_title.as_slice(), hello.game_title.as_slice()) {
        return Err(NegotiationError::GameMismatch);
    }
    Ok(())
}

/// How far a handshake has come.
#[derive(Clone, Copy, Debug)]
pub enum Phase {
    /// Our `Hello` is out, the peer's has not come yet.
    AwaitingHello,
    /// Our nonce is out, the peer's has not come yet.
    AwaitingHola { peer_commitment: [u8; 32] },
    /// Both nonces are known and checked.
    Negotiated { seed: [u8; 16] },
    Failed(NegotiationError),
}

/// What the channel delivered.
#[derive(Debug)]
pub enum Event {
    /// The channel closed.
    Closed,
    /// A datagram came that is no packet.
    Garbled,
    Received(Packet),
}

/// An `Event` as a mathematical value.
pub enum EventView {
    Closed,
    Garbled,
    Received(PacketView),
}

impl View for Event {
    type V = EventView;

    open spec fn view(&self) -> EventView {
        match *self {
            Event::Closed => EventView::Closed,
            Event::Garbled => EventView::Garbled,
            Event::Received(p) => EventView::Received(p@),
        }
    }
}

/// What a delivery holds, as a mathematical value.
pub open spec fn delivery(data: Option<&[u8]>) -> Option<Seq<u8>> {
    match data {
        Some(bytes) => Some(bytes@),
        None => None,
    }
}

/// The event that a delivery stands for: the end of the channel, a packet,
/// or garbage.
pub open spec fn event_of(data: Option<Seq<u8>>) -> EventView {
    match data {
        None => EventView::Closed,
        Some(bytes) => match decoded(bytes) {
            Some(p) => EventView::Received(p),
            None => EventView::Garbled,
        },
    }
}

/// What the caller does after a step.
#[derive(Clone, Copy, Debug)]
pub enum Reply {
    /// Send this `Hola` to the peer and wait for the next event.
    Reveal(Hola),
    /// The handshake is done; both sides now hold this seed.
    Ready { seed: [u8; 16] },
    /// The handshake failed for good.
    Fail(NegotiationError),
    /// The handshake had ended before; nothing happens.
    Idle,
}

/// Mathematical state of one side's handshake.
pub struct HandshakeView {
    pub identity: IdentityView,
    pub nonce: [u8; 16],
    pub commitment: [u8; 32],
    pub phase: Phase,
}

impl HandshakeView {
    /// The phase after `event`, and what the caller is told to do.
    pub open spec fn react(self, event: EventView) -> (Phase, Reply) {
        match self.phase {
            Phase::AwaitingHello => match event {
                EventView::Closed => fail(NegotiationError::ChannelClosed),
                EventView::Garbled => fail(NegotiationError::Malformed),
                EventView::Received(PacketView::Hello(hello)) => match hello_fault(
                    self.identity,
                    self.commitment,
                    hello,
                ) {
                    Some(e) => fail(e),
                    None => (
                        Phase::AwaitingHola { peer_commitment: hello.rng_commitment },
                        Reply::Reveal(Hola { rng_nonce: self.nonce }),
                    ),
                },
                EventView::Received(_) => fail(NegotiationError::UnexpectedPacket),
            },
            Phase::AwaitingHola { peer_commitment } => match event {
                EventView::Closed => fail(NegotiationError::ChannelClosed),
                EventView::Garbled => fail(NegotiationError::Malformed),
                EventView::Received(PacketView::Hola(hola)) => if commitment_of(hola.rng_nonce@)
                    == peer_commitment@ {
                    let seed = seed_array(self.nonce, hola.rng_nonce);
                    (Phase::Negotiated { seed }, Reply::Ready { seed })
                } else {
                    fail(NegotiationError::CommitmentMismatch)
                },
                EventView::Received(_) => fail(NegotiationError::UnexpectedPacket),
            },
            Phase::Negotiated { seed } => (self.phase, Reply::Idle),
            Phase::Failed(e) => (self.phase, Reply::Idle),
        }
    }
}

/// The failed phase and the reply that reports it.
pub open spec fn fail(e: NegotiationError) -> (Phase, Reply) {
    (Phase::Failed(e), Reply::Fail(e))
}

/// The array whose bytes are the XOR of the two nonces.
pub open spec fn seed_array(a: [u8; 16], b: [u8; 16]) -> [u8; 16] {
    choose|s: [u8; 16]| s@ == seed_of(a, b)
}

/// One side's handshake.
pub struct Handshake {
    identity: Identity,
    nonce: [u8; 16],
    commitment: [u8; 32],
    phase: Phase,
}

impl View for Handshake {
    type V = HandshakeView;

    closed spec fn view(&self) -> HandshakeView {
        HandshakeView {
            identity: self.identity@,
            nonce: self.nonce,
            commitment: self.commitment,
            phase: self.phase,
        }
    }
}

impl Handshake {
    /// Opens a handshake with a nonce that the caller drew, and returns the
    /// `Hello` to send.
    pub fn begin(identity: Identity, nonce: [u8; 16]) -> (out: (Handshake, Hello))
        ensures
            out.0@.identity == identity@,
            out.0@.nonce == nonce,
            out.0@.commitment@ == commitment_of(nonce@),
            out.0@.phase == Phase::AwaitingHello,
            out.1@ == hello_of(identity@, out.0@.commitment),
    {
        let commitment = make_rng_commitment(nonce.as_slice());
        let hello = Hello {
            protocol_version: identity.protocol_version,
            game_title: identity.game_title.clone(),
            game_crc32: identity.game_crc32,
            match_type: identity.match_type as u32,
            rng_commitment: commitment,
        };
        (Handshake { identity, nonce, commitment, phase: Phase::AwaitingHello }, hello)
    }

    /// Opens a handshake with a fresh nonce from the operating system, and
    /// returns the `Hello` to send.  Fails only where the operating system
    /// gives no random bytes.
    pub fn start(identity: Identity) -> (r: Result<(Handshake, Hello), NegotiationError>)
        ensures
            match r {
                Ok(out) => {
                    &&& out.0@.identity == identity@
                    &&& out.0@.commitment@ == commitment_of(out.0@.nonce@)
                    &&& out.0@.phase == Phase::AwaitingHello
                    &&& out.1@ == hello_of(identity@, out.0@.commitment)
                },
                Err(e) => e == NegotiationError::EntropyUnavailable,
            },
    {
        match os_random_nonce() {
            Ok(nonce) => Ok(Handshake::begin(identity, nonce)),
            Err(_) => Err(NegotiationError::EntropyUnavailable),
        }
    }

    /// How far the handshake has come.
    pub fn phase(&self) -> (p: Phase)
        ensures
            p == self@.phase,
    {
        self.phase
    }

    /// Our commitment, as sent in the `Hello`.
    pub fn commitment(&self) -> (c: [u8; 32])
        ensures
            c == self@.commitment,
    {
        self.commitment
    }

    /// Takes the next event from the channel and says what to do.
    pub fn step(&mut self, event: Event) -> (reply: Reply)
        ensures
            final(self)@.identity == old(self)@.identity,
            final(self)@.nonce == old(self)@.nonce,
            final(self)@.commitment == old(self)@.commitment,
            (final(self)@.phase, reply) == old(self)@.react(event@),
    {
        let (phase, reply) = match self.phase {
            Phase::AwaitingHello => match event {
                Event::Closed => Self::failed(NegotiationError::ChannelClosed),
                Event::Garbled => Self::failed(NegotiationError::Malformed),
                Event::Received(Packet::Hello(hello)) => match check_hello(
                    &self.identity,
                    &self.commitment,
                    &hello,
                ) {
                    Err(e) => Self::failed(e),
                    Ok(()) => (
                        Phase::AwaitingHola { peer_commitment: hello.rng_commitment },
                        Reply::Reveal(Hola { rng_nonce: self.nonce }),
                    ),
                },
                Event::Received(_) => Self::failed(NegotiationError::UnexpectedPacket),
            },
            Phase::AwaitingHola { peer_commitment } => match event {
                Event::Closed => Self::failed(NegotiationError::ChannelClosed),
                Event::Garbled => Self::failed(NegotiationError::Malformed),
                Event::Received(Packet::Hola(hola)) => {
                    if verify_rng_commitment(hola.rng_nonce.as_slice(), peer_commitment.as_slice()) {
                        let seed = derive_seed(&self.nonce, &hola.rng_nonce);
                        assert(seed =~= seed_array(self.nonce, hola.rng_nonce));
                        (Phase::Negotiated { seed }, Reply::Ready { seed })
                    } else {
                        Self::failed(NegotiationError::CommitmentMismatch)
                    }
                },
                Event::Received(_) => Self::failed(NegotiationError::UnexpectedPacket),
            },
            Phase::Negotiated { seed } => (self.phase, Reply::Idle),
            Phase::Failed(e) => (self.phase, Reply::Idle),
        };
        self.phase = phase;
        reply
    }

    /// Takes what the channel delivered, a datagram or `None` for its end,
    /// and says what to do.
    pub fn receive(&mut self, data: Option<&[u8]>) -> (reply: Reply)
        ensures
            final(self)@.identity == old(self)@.identity,
            final(self)@.nonce == old(self)@.nonce,
            final(self)@.commitment == old(self)@.commitment,
            (final(self)@.phase, reply) == old(self)@.react(event_of(delivery(data))),
    {
        let event = match data {
            None => Event::Closed,
            Some(bytes) => match Packet::decode(bytes) {
                Some(p) => Event::Received(p),
                None => Event::Garbled,
            },
        };
        self.step(event)
    }

    fn failed(e: NegotiationError) -> (out: (Phase, Reply))
        ensures
            out == fail(e),
    {
        (Phase::Failed(e), Reply::Fail(e))
    }
}

/// Whether `nonce` opens `commitment`.
pub open spec fn opens(nonce: Seq<u8>, commitment: Seq<u8>) -> bool {
    commitment_of(nonce) == commitment
}

/// Every nonce opens the commitment made to it, and another nonce opens it
/// only where the two collide under SHAKE128.
pub proof fn law_commitment_opens(nonce: Seq<u8>, other: Seq<u8>)
    ensures
        opens(nonce, commitment_of(nonce)),
        opens(other, commitment_of(nonce)) <==> shake128_32(commitment_label() + other)
            == shake128_32(commitment_label() + nonce),
{
}

/// Both sides derive the same seed, whichever of the two nonces is whose.
pub proof fn law_seed_symmetric(a: [u8; 16], b: [u8; 16])
    ensures
        seed_of(a, b) == seed_of(b, a),
        seed_array(a, b) == seed_array(b, a),
{
    assert forall|i: int| 0 <= i < 16 implies a[i] ^ b[i] == b[i] ^ a[i] by {
        let x = a[i];
        let y = b[i];
        assert(x ^ y == y ^ x) by (bit_vector);
    }
    assert(seed_of(a, b) =~= seed_of(b, a));
}

/// A peer that sends our own commitment back is turned away with a protocol
/// error, whatever else its `Hello` says.
pub proof fn law_replay_rejected(h: HandshakeView, hello: HelloView)
    requires
        h.phase == Phase::AwaitingHello,
        hello.rng_commitment == h.commitment,
    ensures
        h.react(EventView::Received(PacketView::Hello(hello))) == fail(
            NegotiationError::ReplayedCommitment,
        ),
        NegotiationError::ReplayedCommitment.spec_kind() == ErrorKind::Protocol,
{
}

/// Two sides that announce the same protocol version, match type and game,
/// with different commitments, each reveal their nonce on the other's
/// `Hello` and end with the same seed on the other's `Hola`.
pub proof fn law_handshake_agrees(a: HandshakeView, b: HandshakeView)
    requires
        a.phase == Phase::AwaitingHello,
        b.phase == Phase::AwaitingHello,
        a.commitment@ == commitment_of(a.nonce@),
        b.commitment@ == commitment_of(b.nonce@),
        a.commitment != b.commitment,
        a.identity.protocol_version == b.identity.protocol_version,
        a.identity.match_type == b.identity.match_type,
        title_stem(a.identity.game_title) == title_stem(b.identity.game_title),
    ensures
        ({
            let hello_a = PacketView::Hello(hello_of(a.identity, a.commitment));
            let hello_b = PacketView::Hello(hello_of(b.identity, b.commitment));
            let hola_a = PacketView::Hola(Hola { rng_nonce: a.nonce });
            let hola_b = PacketView::Hola(Hola { rng_nonce: b.nonce });
            let a1 = a.react(EventView::Received(hello_b));
            let b1 = b.react(EventView::Received(hello_a));
            let a2 = (HandshakeView { phase: a1.0, ..a }).react(EventView::Received(hola_b));
            let b2 = (HandshakeView { phase: b1.0, ..b }).react(EventView::Received(hola_a));
            let seed = seed_array(a.nonce, b.nonce);
            &&& a1.1 == Reply::Reveal(Hola { rng_nonce: a.nonce })
            &&& b1.1 == Reply::Reveal(Hola { rng_nonce: b.nonce })
            &&& a2 == (Phase::Negotiated { seed }, Reply::Ready { seed })
            &&& b2 == (Phase::Negotiated { seed }, Reply::Ready { seed })
        }),
{
    law_seed_symmetric(a.nonce, b.nonce);
}

/// A handshake that has ended stays as it is, whatever comes.
pub proof fn law_ended_stays(h: HandshakeView, event: EventView)
    requires
        h.phase is Negotiated || h.phase is Failed,
    ensures
        h.react(event) == (h.phase, Reply::Idle),
{
}

} // verus!
