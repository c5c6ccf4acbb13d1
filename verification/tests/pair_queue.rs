use tango::input::{Input, Pair, PairQueue};

fn input(tick: u32, joyflags: u16) -> Input {
    Input { local_tick: tick, remote_tick: tick, joyflags, custom_screen_state: 0, turn: None }
}

fn ticks(pairs: &[Pair<Input>]) -> Vec<(u32, u16, u32, u16)> {
    pairs
        .iter()
        .map(|p| (p.local.local_tick, p.local.joyflags, p.remote.local_tick, p.remote.joyflags))
        .collect()
}

#[test]
fn new_queue_is_empty() {
    let q: PairQueue<Input> = PairQueue::new(60, 3);
    assert_eq!(q.local_delay(), 3);
    assert_eq!(q.local_queue_length(), 0);
    assert_eq!(q.remote_queue_length(), 0);
    assert_eq!(q.committable(), 0);
}

#[test]
fn delay_two_commits_two_of_four() {
    let mut q: PairQueue<Input> = PairQueue::new(60, 2);
    for t in 0..4 {
        q.add_local_input(input(t, 0x100 + t as u16));
    }
    for t in 0..2 {
        q.add_remote_input(input(t, 0x200 + t as u16));
    }
    let (committed, peeked) = q.consume_and_peek_local();
    assert_eq!(ticks(&committed), vec![(0, 0x100, 0, 0x200), (1, 0x101, 1, 0x201)]);
    assert!(peeked.is_empty());
    assert_eq!(q.local_queue_length(), 2);
    assert_eq!(q.remote_queue_length(), 0);
}

#[test]
fn empty_remote_commits_nothing_and_peeks_ripe_locals() {
    let mut q: PairQueue<Input> = PairQueue::new(4, 1);
    for t in 0..3 {
        q.add_local_input(input(t, t as u16));
    }
    let (committed, peeked) = q.consume_and_peek_local();
    assert!(committed.is_empty());
    assert_eq!(peeked.iter().map(|i| i.local_tick).collect::<Vec<u32>>(), vec![0, 1]);
    assert_eq!(q.local_queue_length(), 3);
}

#[test]
fn delay_longer_than_queue_yields_nothing() {
    let mut q: PairQueue<Input> = PairQueue::new(4, 5);
    q.add_local_input(input(0, 0));
    q.add_remote_input(input(0, 0));
    let (committed, peeked) = q.consume_and_peek_local();
    assert!(committed.is_empty());
    assert!(peeked.is_empty());
    assert_eq!(q.local_queue_length(), 1);
    assert_eq!(q.remote_queue_length(), 1);
}

#[test]
fn zero_delay_commits_as_soon_as_both_sides_are_in() {
    let mut q: PairQueue<u32> = PairQueue::new(0, 0);
    q.add_local_input(10);
    let (committed, peeked) = q.consume_and_peek_local();
    assert!(committed.is_empty());
    assert_eq!(peeked, vec![10]);
    q.add_remote_input(20);
    let (committed, peeked) = q.consume_and_peek_local();
    assert_eq!(committed.len(), 1);
    assert_eq!((committed[0].local, committed[0].remote), (10, 20));
    assert!(peeked.is_empty());
}

#[test]
fn interleaved_adds_and_consumes_emit_every_tick_once_in_order() {
    let delay = 3u32;
    let len = 40u32;
    let mut q: PairQueue<u32> = PairQueue::new(8, delay);
    let mut out: Vec<(u32, u32)> = Vec::new();
    let mut remote_next = 0u32;
    for t in 0..len {
        q.add_local_input(t);
        if t % 3 == 2 {
            while remote_next <= t {
                q.add_remote_input(1000 + remote_next);
                remote_next += 1;
            }
        }
        let (committed, _) = q.consume_and_peek_local();
        out.extend(committed.iter().map(|p| (p.local, p.remote)));
    }
    while remote_next < len {
        q.add_remote_input(1000 + remote_next);
        remote_next += 1;
    }
    let (committed, peeked) = q.consume_and_peek_local();
    out.extend(committed.iter().map(|p| (p.local, p.remote)));
    let expected: Vec<(u32, u32)> = (0..len - delay).map(|t| (t, 1000 + t)).collect();
    assert_eq!(out, expected);
    assert!(peeked.is_empty());
    assert_eq!(q.local_queue_length(), delay as usize);
    assert_eq!(q.remote_queue_length(), delay as usize);
}

#[test]
fn queue_grows_past_its_capacity() {
    let mut q: PairQueue<u32> = PairQueue::new(2, 1);
    for t in 0..100 {
        q.add_local_input(t);
        q.add_remote_input(t);
    }
    assert_eq!(q.local_queue_length(), 100);
    assert_eq!(q.committable(), 99);
    let (committed, _) = q.consume_and_peek_local();
    assert_eq!(committed.len(), 99);
    assert_eq!(committed[98].local, 98);
}

#[test]
fn ticks_agree_when_each_side_names_the_others_tick() {
    let local = Input { local_tick: 5, remote_tick: 3, joyflags: 0, custom_screen_state: 0, turn: None };
    let remote = Input { local_tick: 3, remote_tick: 5, joyflags: 0, custom_screen_state: 0, turn: None };
    assert!(Pair { local, remote }.ticks_agree());
    assert!(!Pair { local, remote: local }.ticks_agree());
    assert!(!Pair { local, remote: Input { remote_tick: 4, ..remote } }.ticks_agree());
}

#[test]
fn pairs_clone_both_sides() {
    let pair = Pair { local: input(1, 2), remote: input(3, 4) };
    let copy = pair.clone();
    assert_eq!((copy.local.local_tick, copy.remote.joyflags), (1, 4));
}
