use tango::input::Input;
use tango::protocol::{put_input, take_input, take_input_prefix, Hello, Hola, Packet};
use tango::wire::{
    copy_array, copy_range, put_bytes, put_prefixed, put_u16, put_u32, put_varint, same_bytes,
    take_prefixed, take_u16, take_u32, take_varint,
};

fn varint(v: u64) -> Vec<u8> {
    let mut buf = Vec::new();
    put_varint(&mut buf, v);
    buf
}

fn input_with_turn() -> Input {
    let mut turn = [0u8; 256];
    for (i, b) in turn.iter_mut().enumerate() {
        *b = i as u8;
    }
    Input {
        local_tick: 0x01020304,
        remote_tick: 0x0a0b0c0d,
        joyflags: 0x03ff,
        custom_screen_state: 5,
        turn: Some(turn),
    }
}

fn same_input(a: &Input, b: &Input) -> bool {
    a.local_tick == b.local_tick
        && a.remote_tick == b.remote_tick
        && a.joyflags == b.joyflags
        && a.custom_screen_state == b.custom_screen_state
        && a.turn == b.turn
}

#[test]
fn fixed_width_integers_are_little_endian() {
    let mut buf = vec![0xee];
    put_u16(&mut buf, 0x1234);
    put_u32(&mut buf, 0xdeadbeef);
    assert_eq!(buf, vec![0xee, 0x34, 0x12, 0xef, 0xbe, 0xad, 0xde]);
    assert_eq!(take_u16(&buf, 1), Some(0x1234));
    assert_eq!(take_u32(&buf, 3), Some(0xdeadbeef));
    assert_eq!(take_u32(&buf, 4), None);
    assert_eq!(take_u16(&buf, 6), None);
    assert_eq!(take_u16(&buf, 7), None);
}

#[test]
fn varints_have_seven_bits_per_byte() {
    assert_eq!(varint(0), vec![0x00]);
    assert_eq!(varint(1), vec![0x01]);
    assert_eq!(varint(127), vec![0x7f]);
    assert_eq!(varint(128), vec![0x80, 0x01]);
    assert_eq!(varint(300), vec![0xac, 0x02]);
    assert_eq!(varint(16383), vec![0xff, 0x7f]);
    assert_eq!(varint(16384), vec![0x80, 0x80, 0x01]);
    assert_eq!(
        varint(u64::MAX),
        vec![0xff, 0xff, 0xff, 0xff, 0xff, 0xff, 0xff, 0xff, 0xff, 0x01]
    );
}

#[test]
fn varints_read_back() {
    for v in [0u64, 1, 127, 128, 255, 300, 16383, 16384, 1 << 32, u64::MAX - 1, u64::MAX] {
        let mut buf = vec![0x55];
        put_varint(&mut buf, v);
        let end = buf.len();
        buf.push(0x99);
        assert_eq!(take_varint(&buf, 1), Some((v, end)));
    }
}

#[test]
fn varint_reader_is_strict() {
    assert_eq!(take_varint(&[], 0), None);
    assert_eq!(take_varint(&[0x80], 0), None);
    assert_eq!(take_varint(&[0x80, 0x00], 0), None);
    assert_eq!(take_varint(&[0xff, 0x80, 0x00], 0), None);
    assert_eq!(
        take_varint(&[0xff, 0xff, 0xff, 0xff, 0xff, 0xff, 0xff, 0xff, 0xff, 0x02], 0),
        None
    );
    assert_eq!(
        take_varint(&[0x80, 0x80, 0x80, 0x80, 0x80, 0x80, 0x80, 0x80, 0x80, 0x80, 0x01], 0),
        None
    );
    assert_eq!(take_varint(&[0x05], 1), None);
}

#[test]
fn prefixed_strings_carry_their_length() {
    let mut buf = Vec::new();
    put_prefixed(&mut buf, b"abc");
    put_prefixed(&mut buf, b"");
    assert_eq!(buf, vec![3, b'a', b'b', b'c', 0]);
    assert_eq!(take_prefixed(&buf, 0), Some((b"abc".to_vec(), 4)));
    assert_eq!(take_prefixed(&buf, 4), Some((Vec::new(), 5)));
    assert_eq!(take_prefixed(&buf, 5), None);
    assert_eq!(take_prefixed(&[4, b'a', b'b', b'c'], 0), None);
    let long = vec![7u8; 200];
    let mut buf = Vec::new();
    put_prefixed(&mut buf, &long);
    assert_eq!(&buf[..2], &[0xc8, 0x01]);
    assert_eq!(take_prefixed(&buf, 0), Some((long, 202)));
}

#[test]
fn byte_helpers_copy_and_compare() {
    let bytes = [1u8, 2, 3, 4, 5];
    assert_eq!(copy_range(&bytes, 1, 4), vec![2, 3, 4]);
    assert_eq!(copy_range(&bytes, 2, 2), Vec::<u8>::new());
    assert_eq!(copy_array([0u8; 3], &bytes, 2), [3, 4, 5]);
    let mut buf = vec![9];
    put_bytes(&mut buf, &bytes);
    assert_eq!(buf, vec![9, 1, 2, 3, 4, 5]);
    assert!(same_bytes(b"abc", b"abc"));
    assert!(!same_bytes(b"abc", b"abd"));
    assert!(!same_bytes(b"abc", b"ab"));
    assert!(same_bytes(b"", b""));
}

#[test]
fn input_without_turn_takes_twelve_bytes() {
    let input = Input {
        local_tick: 0x01020304,
        remote_tick: 0x0a0b0c0d,
        joyflags: 0x03ff,
        custom_screen_state: 5,
        turn: None,
    };
    let mut buf = Vec::new();
    put_input(&mut buf, &input);
    assert_eq!(
        buf,
        vec![0x04, 0x03, 0x02, 0x01, 0x0d, 0x0c, 0x0b, 0x0a, 0xff, 0x03, 0x05, 0x00]
    );
    assert!(same_input(&take_input(&buf, 0).unwrap(), &input));
}

#[test]
fn input_with_turn_takes_268_bytes() {
    let input = input_with_turn();
    let mut buf = vec![0xaa];
    put_input(&mut buf, &input);
    assert_eq!(buf.len(), 269);
    assert_eq!(buf[12], 1);
    assert_eq!(buf[13], 0);
    assert_eq!(buf[268], 255);
    assert!(same_input(&take_input(&buf, 1).unwrap(), &input));
    buf.push(0);
    assert!(take_input(&buf, 1).is_none());
    let (read, next) = take_input_prefix(&buf, 1).unwrap();
    assert!(same_input(&read, &input));
    assert_eq!(next, 269);
}

#[test]
fn input_reader_refuses_bad_flags_and_short_input() {
    let mut buf = vec![0u8; 12];
    assert!(take_input(&buf, 0).is_some());
    buf[11] = 2;
    assert!(take_input(&buf, 0).is_none());
    buf[11] = 1;
    assert!(take_input(&buf, 0).is_none());
    assert!(take_input_prefix(&buf, 0).is_none());
    assert!(take_input(&buf[..11], 0).is_none());
    let mut long = vec![0u8; 268];
    assert!(take_input(&long, 0).is_none());
    long[11] = 1;
    assert!(take_input(&long, 0).is_some());
}

#[test]
fn hola_is_a_tag_and_the_nonce() {
    let mut rng_nonce = [0u8; 16];
    rng_nonce[0] = 0xab;
    let bytes = Packet::Hola(Hola { rng_nonce }).encode();
    let mut expected = vec![17, 2, 0xab];
    expected.extend_from_slice(&[0u8; 15]);
    assert_eq!(bytes, expected);
    match Packet::decode(&bytes) {
        Some(Packet::Hola(h)) => assert_eq!(h.rng_nonce, rng_nonce),
        other => panic!("{:?}", other),
    }
}

#[test]
fn hello_round_trips() {
    let hello = Hello {
        protocol_version: 3,
        game_title: b"ROCKEXE6_GXX".to_vec(),
        game_crc32: 0x79452182,
        match_type: 1,
        rng_commitment: [0x42; 32],
    };
    let bytes = Packet::Hello(hello).encode();
    assert_eq!(bytes.len(), 1 + 1 + 4 + 1 + 12 + 4 + 4 + 32);
    assert_eq!(&bytes[..7], &[58, 1, 3, 0, 0, 0, 12]);
    assert_eq!(&bytes[7..19], b"ROCKEXE6_GXX");
    assert_eq!(&bytes[19..27], &[0x82, 0x21, 0x45, 0x79, 1, 0, 0, 0]);
    match Packet::decode(&bytes) {
        Some(Packet::Hello(h)) => {
            assert_eq!(h.protocol_version, 3);
            assert_eq!(h.game_title, b"ROCKEXE6_GXX".to_vec());
            assert_eq!(h.game_crc32, 0x79452182);
            assert_eq!(h.match_type, 1);
            assert_eq!(h.rng_commitment, [0x42; 32]);
        }
        other => panic!("{:?}", other),
    }
}

#[test]
fn input_packet_round_trips_with_and_without_turn() {
    for input in [input_with_turn(), Input { turn: None, ..input_with_turn() }] {
        let bytes = Packet::Input(input).encode();
        match Packet::decode(&bytes) {
            Some(Packet::Input(read)) => assert!(same_input(&read, &input)),
            other => panic!("{:?}", other),
        }
    }
    let bytes = Packet::Input(input_with_turn()).encode();
    assert_eq!(&bytes[..3], &[0x8d, 0x02, 3]);
}

#[test]
fn decoder_refuses_what_the_encoder_never_writes() {
    let good = Packet::Hola(Hola { rng_nonce: [1u8; 16] }).encode();
    assert!(Packet::decode(&good).is_some());
    assert!(Packet::decode(&[]).is_none());
    assert!(Packet::decode(&good[..good.len() - 1]).is_none());
    let mut trailing = good.clone();
    trailing.push(0);
    assert!(Packet::decode(&trailing).is_none());
    let mut bad_tag = good.clone();
    bad_tag[1] = 9;
    assert!(Packet::decode(&bad_tag).is_none());
    let mut wrong_length = good.clone();
    wrong_length[0] = 16;
    assert!(Packet::decode(&wrong_length).is_none());
    let mut padded_length = vec![0x91, 0x00];
    padded_length.extend_from_slice(&good[1..]);
    assert!(Packet::decode(&padded_length).is_none());
    assert!(Packet::decode(&[0]).is_none());
    assert!(Packet::decode(&[1, 1]).is_none());
    let hello = Packet::Hello(Hello {
        protocol_version: 1,
        game_title: b"T".to_vec(),
        game_crc32: 2,
        match_type: 3,
        rng_commitment: [0; 32],
    })
    .encode();
    let mut short_commitment = hello[..hello.len() - 1].to_vec();
    short_commitment[0] -= 1;
    assert!(Packet::decode(&short_commitment).is_none());
}

#[test]
fn readers_answer_none_past_the_end() {
    let buf = [1u8, 2, 3];
    assert_eq!(take_u16(&buf, 4), None);
    assert_eq!(take_u32(&buf, 100), None);
    assert_eq!(take_varint(&buf, 4), None);
    assert_eq!(take_varint(&buf, 3), None);
    assert_eq!(take_prefixed(&buf, usize::MAX), None);
    assert!(take_input(&buf, 4).is_none());
    assert!(take_input_prefix(&buf, 4).is_none());
    assert_eq!(take_varint(&buf, 2), Some((3, 3)));
}
