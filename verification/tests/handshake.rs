use rand::RngCore;
use rand::SeedableRng;
use sha3::digest::{ExtendableOutput, Update, XofReader};
use tango::battle::{Match, Negotiation};
use tango::handshake::{
    check_hello, commitment_matches, derive_seed, make_rng_commitment, same_game,
    verify_rng_commitment, ErrorKind, Event, Handshake, Identity, NegotiationError, Phase, Reply,
};
use tango::input::Input;
use tango::protocol::{Hello, Hola, Packet};

fn identity(version: u32, title: &[u8], match_type: u16) -> Identity {
    Identity { protocol_version: version, game_title: title.to_vec(), game_crc32: 1, match_type }
}

fn nonce(seed: u8) -> [u8; 16] {
    let mut n = [0u8; 16];
    for (i, b) in n.iter_mut().enumerate() {
        *b = seed.wrapping_mul(31).wrapping_add(i as u8);
    }
    n
}

fn shake(nonce: &[u8]) -> [u8; 32] {
    let mut hasher = sha3::Shake128::default();
    hasher.update(b"syncrand:nonce:");
    hasher.update(nonce);
    let mut out = [0u8; 32];
    hasher.finalize_xof().read(&mut out);
    out
}

fn blank_input() -> Input {
    Input { local_tick: 0, remote_tick: 0, joyflags: 0, custom_screen_state: 0, turn: None }
}

#[test]
fn commitment_is_shake128_of_label_and_nonce() {
    let n = nonce(1);
    assert_eq!(make_rng_commitment(&n), shake(&n));
    assert_eq!(make_rng_commitment(&[]), shake(&[]));
    assert_ne!(make_rng_commitment(&n), make_rng_commitment(&nonce(2)));
    assert_ne!(&make_rng_commitment(&n)[..16], &n[..]);
}

#[test]
fn every_nonce_opens_its_own_commitment() {
    for seed in 0..20u8 {
        let n = nonce(seed);
        let c = make_rng_commitment(&n);
        assert!(verify_rng_commitment(&n, &c));
        assert!(!verify_rng_commitment(&nonce(seed.wrapping_add(1)), &c));
    }
}

#[test]
fn commitment_of_the_wrong_length_never_verifies() {
    let n = nonce(3);
    let c = make_rng_commitment(&n);
    assert!(!verify_rng_commitment(&n, &c[..31]));
    assert!(!verify_rng_commitment(&n, &[]));
}

#[test]
fn commitments_match_byte_for_byte() {
    let c = [7u8; 32];
    assert!(commitment_matches(&c, &[7u8; 32]));
    let mut other = [7u8; 32];
    other[31] = 8;
    assert!(!commitment_matches(&c, &other));
    assert!(!commitment_matches(&c, &[7u8; 31]));
}

#[test]
fn seed_is_the_xor_of_the_nonces() {
    let a = [0x0fu8; 16];
    let mut b = [0xf0u8; 16];
    b[0] = 0x0f;
    let seed = derive_seed(&a, &b);
    assert_eq!(seed[0], 0x00);
    assert_eq!(&seed[1..], &[0xffu8; 15][..]);
    assert_eq!(derive_seed(&b, &a), seed);
}

#[test]
fn games_are_told_apart_by_the_first_eight_bytes() {
    assert!(same_game(b"ROCKEXE6_GXX", b"ROCKEXE6_RXX"));
    assert!(!same_game(b"ROCKEXE6_GXX", b"ROCKEXE5_GXX"));
    assert!(same_game(b"SHORT", b"SHORT"));
    assert!(!same_game(b"SHORT", b"SHORTER"));
    assert!(!same_game(b"12345678", b"1234567"));
    assert!(same_game(b"", b""));
}

#[test]
fn error_kinds_follow_the_taxonomy() {
    assert_eq!(NegotiationError::ChannelClosed.kind(), ErrorKind::Transport);
    assert_eq!(NegotiationError::EntropyUnavailable.kind(), ErrorKind::Platform);
    assert_eq!(NegotiationError::Malformed.kind(), ErrorKind::Protocol);
    assert_eq!(NegotiationError::UnexpectedPacket.kind(), ErrorKind::Protocol);
    assert_eq!(NegotiationError::ReplayedCommitment.kind(), ErrorKind::Protocol);
    assert_eq!(NegotiationError::GameMismatch.kind(), ErrorKind::Protocol);
    assert_eq!(NegotiationError::CommitmentMismatch.kind(), ErrorKind::Protocol);
    assert_eq!(
        NegotiationError::ProtocolVersionMismatch { theirs: 1, ours: 2 }.kind(),
        ErrorKind::Protocol
    );
    assert_eq!(
        NegotiationError::MatchTypeMismatch { theirs: 1, ours: 2 }.kind(),
        ErrorKind::Protocol
    );
}

#[test]
fn hello_checks_run_in_order() {
    let ours = identity(3, b"ROCKEXE6_GXX", 1);
    let commitment = [1u8; 32];
    let hello = |version: u32, title: &[u8], match_type: u32, c: [u8; 32]| Hello {
        protocol_version: version,
        game_title: title.to_vec(),
        game_crc32: 99,
        match_type,
        rng_commitment: c,
    };
    assert_eq!(check_hello(&ours, &commitment, &hello(3, b"ROCKEXE6_RXX", 1, [2u8; 32])), Ok(()));
    assert_eq!(
        check_hello(&ours, &commitment, &hello(4, b"OTHER", 2, commitment)),
        Err(NegotiationError::ReplayedCommitment)
    );
    assert_eq!(
        check_hello(&ours, &commitment, &hello(4, b"OTHER", 2, [2u8; 32])),
        Err(NegotiationError::ProtocolVersionMismatch { theirs: 4, ours: 3 })
    );
    assert_eq!(
        check_hello(&ours, &commitment, &hello(3, b"OTHER", 2, [2u8; 32])),
        Err(NegotiationError::MatchTypeMismatch { theirs: 2, ours: 1 })
    );
    assert_eq!(
        check_hello(&ours, &commitment, &hello(3, b"OTHER", 1, [2u8; 32])),
        Err(NegotiationError::GameMismatch)
    );
}

#[test]
fn begin_sends_a_hello_with_our_identity_and_commitment() {
    let n = nonce(5);
    let (h, hello) = Handshake::begin(identity(3, b"ROCKEXE6_GXX", 2), n);
    assert!(matches!(h.phase(), Phase::AwaitingHello));
    assert_eq!(h.commitment(), shake(&n));
    assert_eq!(hello.protocol_version, 3);
    assert_eq!(hello.game_title, b"ROCKEXE6_GXX".to_vec());
    assert_eq!(hello.game_crc32, 1);
    assert_eq!(hello.match_type, 2);
    assert_eq!(hello.rng_commitment, shake(&n));
}

#[test]
fn start_draws_a_fresh_nonce_each_time() {
    let (a, hello_a) = Handshake::start(identity(3, b"T", 0)).unwrap();
    let (b, hello_b) = Handshake::start(identity(3, b"T", 0)).unwrap();
    assert_ne!(a.commitment(), b.commitment());
    assert_eq!(hello_a.rng_commitment, a.commitment());
    assert_eq!(hello_b.rng_commitment, b.commitment());
}

#[test]
fn two_peers_complete_the_handshake_with_the_same_seed() {
    let (na, nb) = (nonce(1), nonce(2));
    let (mut a, hello_a) = Handshake::begin(identity(3, b"ROCKEXE6_GXX", 1), na);
    let (mut b, hello_b) = Handshake::begin(identity(3, b"ROCKEXE6_GXX", 1), nb);
    let datagram_a = Packet::Hello(hello_a).encode();
    let datagram_b = Packet::Hello(hello_b).encode();
    let hola_a = match a.receive(Some(&datagram_b)) {
        Reply::Reveal(hola) => hola,
        other => panic!("{:?}", other),
    };
    let hola_b = match b.receive(Some(&datagram_a)) {
        Reply::Reveal(hola) => hola,
        other => panic!("{:?}", other),
    };
    assert_eq!(hola_a.rng_nonce, na);
    assert_eq!(hola_b.rng_nonce, nb);
    let seed_a = match a.receive(Some(&Packet::Hola(hola_b).encode())) {
        Reply::Ready { seed } => seed,
        other => panic!("{:?}", other),
    };
    let seed_b = match b.receive(Some(&Packet::Hola(hola_a).encode())) {
        Reply::Ready { seed } => seed,
        other => panic!("{:?}", other),
    };
    let mut expected = [0u8; 16];
    for i in 0..16 {
        expected[i] = na[i] ^ nb[i];
    }
    assert_eq!(seed_a, expected);
    assert_eq!(seed_b, expected);
    assert!(matches!(a.phase(), Phase::Negotiated { seed } if seed == expected));

    let mut match_a = Match::new(b"s".to_vec(), 1, b"ROCKEXE6_GXX".to_vec(), 1);
    let mut match_b = Match::new(b"s".to_vec(), 1, b"ROCKEXE6_GXX".to_vec(), 1);
    assert_eq!(match_a.poll_for_ready(), Ok(false));
    match_a.negotiated(seed_a);
    match_b.negotiated(seed_b);
    assert_eq!(match_a.poll_for_ready(), Ok(true));
    assert_eq!(match_b.poll_for_ready(), Ok(true));
    let draw = |m: &Match| match m.negotiation() {
        Negotiation::Negotiated { rng, .. } => {
            let mut rng = rng.clone();
            (rng.next_u64(), rng.next_u64())
        }
        _ => panic!("not negotiated"),
    };
    let mut reference = rand_pcg::Mcg128Xsl64::from_seed(expected);
    assert_eq!(draw(&match_a), (reference.next_u64(), reference.next_u64()));
    assert_eq!(draw(&match_a), draw(&match_b));
}

#[test]
fn version_mismatch_fails_both_sides() {
    let (mut a, hello_a) = Handshake::begin(identity(3, b"ROCKEXE6_GXX", 1), nonce(1));
    let (mut b, hello_b) = Handshake::begin(identity(4, b"ROCKEXE6_GXX", 1), nonce(2));
    let reply_a = a.step(Event::Received(Packet::Hello(hello_b)));
    let reply_b = b.step(Event::Received(Packet::Hello(hello_a)));
    let error_a = NegotiationError::ProtocolVersionMismatch { theirs: 4, ours: 3 };
    let error_b = NegotiationError::ProtocolVersionMismatch { theirs: 3, ours: 4 };
    assert!(matches!(reply_a, Reply::Fail(e) if e == error_a));
    assert!(matches!(reply_b, Reply::Fail(e) if e == error_b));
    assert_eq!(error_a.kind(), ErrorKind::Protocol);
    assert!(matches!(a.phase(), Phase::Failed(e) if e == error_a));
    assert!(matches!(b.phase(), Phase::Failed(e) if e == error_b));
    assert!(matches!(a.step(Event::Closed), Reply::Idle));
}

#[test]
fn replayed_commitment_is_a_protocol_error() {
    let (mut a, hello_a) = Handshake::begin(identity(3, b"ROCKEXE6_GXX", 1), nonce(1));
    let reply = a.step(Event::Received(Packet::Hello(hello_a)));
    assert!(matches!(reply, Reply::Fail(NegotiationError::ReplayedCommitment)));
    assert_eq!(NegotiationError::ReplayedCommitment.kind(), ErrorKind::Protocol);
    assert!(matches!(a.phase(), Phase::Failed(NegotiationError::ReplayedCommitment)));
}

#[test]
fn wrong_nonce_fails_the_reveal() {
    let (mut a, _) = Handshake::begin(identity(3, b"ROCKEXE6_GXX", 1), nonce(1));
    let (_, hello_b) = Handshake::begin(identity(3, b"ROCKEXE6_GXX", 1), nonce(2));
    assert!(matches!(a.step(Event::Received(Packet::Hello(hello_b))), Reply::Reveal(_)));
    let reply = a.step(Event::Received(Packet::Hola(Hola { rng_nonce: nonce(3) })));
    assert!(matches!(reply, Reply::Fail(NegotiationError::CommitmentMismatch)));
}

#[test]
fn closed_channel_and_garbage_fail_the_handshake() {
    let (mut a, _) = Handshake::begin(identity(3, b"T", 1), nonce(1));
    assert!(matches!(a.receive(None), Reply::Fail(NegotiationError::ChannelClosed)));
    let (mut a, _) = Handshake::begin(identity(3, b"T", 1), nonce(1));
    assert!(matches!(a.receive(Some(&[1, 2, 3])), Reply::Fail(NegotiationError::Malformed)));
    let (mut a, _) = Handshake::begin(identity(3, b"T", 1), nonce(1));
    assert!(matches!(a.step(Event::Garbled), Reply::Fail(NegotiationError::Malformed)));
}

#[test]
fn packets_out_of_turn_fail_the_handshake() {
    let (mut a, _) = Handshake::begin(identity(3, b"T", 1), nonce(1));
    let hola = Packet::Hola(Hola { rng_nonce: nonce(2) });
    assert!(matches!(
        a.step(Event::Received(hola)),
        Reply::Fail(NegotiationError::UnexpectedPacket)
    ));
    let (mut a, _) = Handshake::begin(identity(3, b"T", 1), nonce(1));
    let (_, hello_b) = Handshake::begin(identity(3, b"T", 1), nonce(2));
    assert!(matches!(a.step(Event::Received(Packet::Hello(hello_b))), Reply::Reveal(_)));
    assert!(matches!(
        a.step(Event::Received(Packet::Input(blank_input()))),
        Reply::Fail(NegotiationError::UnexpectedPacket)
    ));
}
