use tango::matchmaking::protocol::{Answer, ICECandidate, Offer, Packet, Start};
use tango::matchmaking::server::{Client, Delivery, Server, Violation};

fn start(session_id: &str, offer_sdp: &str) -> Vec<u8> {
    Packet::Start(Start {
        session_id: session_id.as_bytes().to_vec(),
        offer_sdp: offer_sdp.as_bytes().to_vec(),
    })
    .serialize()
}

fn answer(sdp: &str) -> Vec<u8> {
    Packet::Answer(Answer { sdp: sdp.as_bytes().to_vec() }).serialize()
}

fn candidate(c: &str) -> Vec<u8> {
    Packet::ICECandidate(ICECandidate { ice_candidate: c.as_bytes().to_vec() }).serialize()
}

fn describe(r: Result<Option<Delivery>, Violation>) -> Result<Option<(u64, String)>, Violation> {
    r.map(|d| {
        d.map(|d| {
            let text = match d.packet {
                Packet::Start(s) => format!("start:{}", String::from_utf8(s.offer_sdp).unwrap()),
                Packet::Offer(o) => format!("offer:{}", String::from_utf8(o.sdp).unwrap()),
                Packet::Answer(a) => format!("answer:{}", String::from_utf8(a.sdp).unwrap()),
                Packet::ICECandidate(c) => {
                    format!("ice:{}", String::from_utf8(c.ice_candidate).unwrap())
                }
            };
            (d.to, text)
        })
    })
}

#[test]
fn messages_are_a_tag_and_a_prefixed_payload() {
    assert_eq!(start("s1", "OFFER"), b"\x01\x08\x02s1OFFER".to_vec());
    assert_eq!(
        Packet::Offer(Offer { sdp: b"abc".to_vec() }).serialize(),
        b"\x02\x03abc".to_vec()
    );
    assert_eq!(answer("xy"), b"\x03\x02xy".to_vec());
    assert_eq!(candidate(""), b"\x04\x00".to_vec());
}

#[test]
fn every_message_reads_back() {
    match Packet::deserialize(&start("session", "v=0 offer")) {
        Some(Packet::Start(s)) => {
            assert_eq!(s.session_id, b"session".to_vec());
            assert_eq!(s.offer_sdp, b"v=0 offer".to_vec());
        }
        other => panic!("{:?}", other),
    }
    match Packet::deserialize(&Packet::Offer(Offer { sdp: vec![0, 255, 7] }).serialize()) {
        Some(Packet::Offer(o)) => assert_eq!(o.sdp, vec![0, 255, 7]),
        other => panic!("{:?}", other),
    }
    match Packet::deserialize(&answer(&"a".repeat(300))) {
        Some(Packet::Answer(a)) => assert_eq!(a.sdp, vec![b'a'; 300]),
        other => panic!("{:?}", other),
    }
    match Packet::deserialize(&candidate("candidate:1 1 udp")) {
        Some(Packet::ICECandidate(c)) => assert_eq!(c.ice_candidate, b"candidate:1 1 udp".to_vec()),
        other => panic!("{:?}", other),
    }
}

#[test]
fn reader_refuses_what_is_never_written() {
    assert!(Packet::deserialize(&[]).is_none());
    assert!(Packet::deserialize(&[0, 0]).is_none());
    assert!(Packet::deserialize(&[5, 0]).is_none());
    assert!(Packet::deserialize(&[2]).is_none());
    assert!(Packet::deserialize(&[2, 2, b'a']).is_none());
    assert!(Packet::deserialize(&[2, 1, b'a', b'b']).is_none());
    assert!(Packet::deserialize(&[2, 0x81, 0x00, b'a']).is_none());
    assert!(Packet::deserialize(&[1, 0]).is_none());
    assert!(Packet::deserialize(&[1, 2, 5, b'a']).is_none());
    assert!(Packet::deserialize(&[1, 1, 0]).is_some());
}

#[test]
fn second_client_gets_the_offer_and_messages_cross() {
    let mut server = Server::new();
    let mut a = Client::new(10);
    let mut b = Client::new(20);
    assert_eq!(describe(server.handle_message(&mut a, &start("s1", "OFFER_A"))), Ok(None));
    assert_eq!(server.session_count(), 1);
    assert_eq!(
        describe(server.handle_message(&mut b, &start("s1", "OFFER_B"))),
        Ok(Some((20, "offer:OFFER_A".to_string())))
    );
    assert_eq!(server.session_count(), 1);
    assert_eq!((a.me(), b.me()), (0, 1));
    assert!(a.has_session() && b.has_session());
    assert_eq!(
        describe(server.handle_message(&mut b, &answer("ANS_B"))),
        Ok(Some((10, "answer:ANS_B".to_string())))
    );
    assert_eq!(
        describe(server.handle_message(&mut a, &candidate("c1"))),
        Ok(Some((20, "ice:c1".to_string())))
    );
    assert_eq!(
        describe(server.handle_message(&mut b, &candidate("c2"))),
        Ok(Some((10, "ice:c2".to_string())))
    );
}

#[test]
fn sessions_are_kept_apart() {
    let mut server = Server::new();
    let mut a = Client::new(1);
    let mut b = Client::new(2);
    let mut c = Client::new(3);
    assert_eq!(describe(server.handle_message(&mut a, &start("alpha", "A"))), Ok(None));
    assert_eq!(describe(server.handle_message(&mut b, &start("beta", "B"))), Ok(None));
    assert_eq!(server.session_count(), 2);
    assert_eq!(
        describe(server.handle_message(&mut c, &start("beta", "C"))),
        Ok(Some((3, "offer:B".to_string())))
    );
    assert_eq!(
        describe(server.handle_message(&mut c, &answer("ans"))),
        Ok(Some((2, "answer:ans".to_string())))
    );
}

#[test]
fn violations_are_told_apart_and_change_nothing() {
    let mut server = Server::new();
    let mut a = Client::new(1);
    assert_eq!(describe(server.handle_message(&mut a, &[9, 9])), Err(Violation::Malformed));
    assert_eq!(
        describe(
            server.handle_message(&mut a, &Packet::Offer(Offer { sdp: vec![] }).serialize())
        ),
        Err(Violation::OfferFromClient)
    );
    assert_eq!(describe(server.handle_message(&mut a, &answer("x"))), Err(Violation::NoSession));
    assert_eq!(
        describe(server.handle_message(&mut a, &candidate("x"))),
        Err(Violation::NoSession)
    );
    assert_eq!(server.session_count(), 0);
    assert!(!a.has_session());
    assert_eq!(describe(server.handle_message(&mut a, &start("alpha", "A"))), Ok(None));
    assert_eq!(
        describe(server.handle_message(&mut a, &start("alpha", "A"))),
        Err(Violation::AlreadyStarted)
    );
    assert_eq!(
        describe(server.handle_message(&mut a, &candidate("early"))),
        Err(Violation::PeerMissing)
    );
    let mut b = Client::new(2);
    let mut c = Client::new(3);
    assert!(server.handle_message(&mut b, &start("alpha", "B")).is_ok());
    assert_eq!(
        describe(server.handle_message(&mut c, &start("alpha", "C"))),
        Err(Violation::SessionFull)
    );
    assert!(!c.has_session());
    assert_eq!(server.session_count(), 1);
}

#[test]
fn session_goes_when_its_last_client_leaves() {
    let mut server = Server::new();
    let mut a = Client::new(1);
    let mut b = Client::new(2);
    assert!(server.handle_message(&mut a, &start("alpha", "A")).is_ok());
    assert!(server.handle_message(&mut b, &start("alpha", "B")).is_ok());
    server.disconnect(Client::new(3));
    assert_eq!(server.session_count(), 1);
    server.disconnect(a);
    assert_eq!(server.session_count(), 1);
    assert_eq!(
        describe(server.handle_message(&mut b, &answer("late"))),
        Ok(Some((1, "answer:late".to_string())))
    );
    server.disconnect(b);
    assert_eq!(server.session_count(), 0);
    let mut c = Client::new(4);
    assert_eq!(describe(server.handle_message(&mut c, &start("alpha", "C"))), Ok(None));
    assert_eq!(c.me(), 0);
    assert_eq!(c.id(), 4);
}
