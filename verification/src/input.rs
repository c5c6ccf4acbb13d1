//! One player's input for one tick, and the queue that pairs the two sides.
//!
//! A local input is held back for `local_delay` ticks, so that the remote
//! input for the same tick has time to arrive.  A tick is committed once its
//! local input has aged past the delay and its remote input is present.

use std::collections::VecDeque;
use vstd::prelude::*;

verus! {

/// What one player did during one tick.
#[derive(Clone, Copy, Debug)]
pub struct Input {
    /// The sender's own tick counter when the input was sampled.
    pub local_tick: u32,
    /// The last tick of the other side that the sender had committed.
    pub remote_tick: u32,
    /// Bitmask of the ten hardware buttons.
    pub joyflags: u16,
    pub custom_screen_state: u8,
    /// The marshaled turn, on the ticks that mark a turn boundary.
    pub turn: Option<[u8; 256]>,
}

/// The two inputs of one tick.
#[derive(Debug)]
pub struct Pair<T> where T: Clone {
    pub local: T,
    pub remote: T,
}

impl<T: Copy> Copy for Pair<T> {

}

impl<T: Clone> Clone for Pair<T> {
    fn clone(&self) -> (copy: Self)
        ensures
            cloned::<T>(self.local, copy.local),
            cloned::<T>(self.remote, copy.remote),
    {
        Pair { local: self.local.clone(), remote: self.remote.clone() }
    }
}

/// Whether each side of a committed pair agrees on where the other stood.
pub open spec fn ticks_agree(pair: Pair<Input>) -> bool {
    &&& pair.local.local_tick == pair.remote.remote_tick
    &&& pair.local.remote_tick == pair.remote.local_tick
}

impl Pair<Input> {
    /// Whether each side of this pair agrees on where the other stood.
    pub fn ticks_agree(&self) -> (agree: bool)
        ensures
            agree == ticks_agree(*self),
    {
        self.local.local_tick == self.remote.remote_tick && self.local.remote_tick
            == self.remote.local_tick
    }
}

/// Mathematical state of a pair queue: what waits on each side, oldest first.
pub struct QueueState<T> {
    pub local: Seq<T>,
    pub remote: Seq<T>,
    pub delay: nat,
}

impl<T: Clone> QueueState<T> {
    /// The queue as it is right after construction.
    pub open spec fn empty(delay: nat) -> Self {
        QueueState { local: Seq::empty(), remote: Seq::empty(), delay }
    }

    /// The queue with one more local input.
    pub open spec fn add_local(self, v: T) -> Self {
        QueueState { local: self.local.push(v), ..self }
    }

    /// The queue with one more remote input.
    pub open spec fn add_remote(self, v: T) -> Self {
        QueueState { remote: self.remote.push(v), ..self }
    }

    /// Number of local inputs that have aged past the delay.
    pub open spec fn ripe(self) -> nat {
        if self.local.len() >= self.delay {
            (self.local.len() - self.delay) as nat
        } else {
            0
        }
    }

    /// Number of ticks that can be committed now: the ripe local inputs for
    /// which a remote input has arrived.
    pub open spec fn committable(self) -> nat {
        if self.ripe() <= self.remote.len() {
            self.ripe()
        } else {
            self.remote.len()
        }
    }

    /// The pairs that a consume hands out, oldest first.
    pub open spec fn committed(self) -> Seq<Pair<T>> {
        Seq::new(self.committable(), |i: int| Pair { local: self.local[i], remote: self.remote[i] })
    }

    /// The queue that a consume leaves behind.
    pub open spec fn drained(self) -> Self {
        QueueState {
            local: self.local.skip(self.committable() as int),
            remote: self.remote.skip(self.committable() as int),
            delay: self.delay,
        }
    }

    /// The ripe local inputs that a consume leaves in the queue: known
    /// locally, but not yet matched by a remote input.
    pub open spec fn peeked(self) -> Seq<T> {
        self.local.subrange(self.committable() as int, self.ripe() as int)
    }
}

/// Delay queue that pairs local inputs with remote ones, in arrival order.
pub struct PairQueue<T> where T: Clone {
    local_queue: VecDeque<T>,
    remote_queue: VecDeque<T>,
    local_delay: u32,
}

impl<T> View for PairQueue<T> where T: Clone {
    type V = QueueState<T>;

    closed spec fn view(&self) -> QueueState<T> {
        QueueState {
            local: self.local_queue@,
            remote: self.remote_queue@,
            delay: self.local_delay as nat,
        }
    }
}

impl<T> PairQueue<T> where T: Clone {
    /// An empty queue.  `capacity` sizes the first allocation only: the queue
    /// grows past it when the caller adds more.
    pub fn new(capacity: usize, local_delay: u32) -> (q: Self)
        ensures
            q@ == QueueState::<T>::empty(local_delay as nat),
    {
        PairQueue {
            local_queue: VecDeque::with_capacity(capacity),
            remote_queue: VecDeque::with_capacity(capacity),
            local_delay,
        }
    }

    /// Appends a local input.  The queue takes every input it is given.
    pub fn add_local_input(&mut self, v: T)
        ensures
            final(self)@ == old(self)@.add_local(v),
    {
        self.local_queue.push_back(v);
    }

    /// Appends a remote input.  The queue takes every input it is given.
    pub fn add_remote_input(&mut self, v: T)
        ensures
            final(self)@ == old(self)@.add_remote(v),
    {
        self.remote_queue.push_back(v);
    }

    /// Ticks that a local input is held back.
    pub fn local_delay(&self) -> (d: u32)
        ensures
            d == self@.delay,
    {
        self.local_delay
    }

    /// Number of local inputs that wait.
    pub fn local_queue_length(&self) -> (n: usize)
        ensures
            n == self@.local.len(),
    {
        self.local_queue.len()
    }

    /// Number of remote inputs that wait.
    pub fn remote_queue_length(&self) -> (n: usize)
        ensures
            n == self@.remote.len(),
    {
        self.remote_queue.len()
    }

    /// Number of ticks that a consume would commit now.
    pub fn committable(&self) -> (n: usize)
        ensures
            n == self@.committable(),
    {
        let local_len = self.local_queue.len();
        let remote_len = self.remote_queue.len();
        let delay = self.local_delay as usize;
        let ripe: usize = if local_len >= delay { local_len - delay } else { 0 };
        if ripe <= remote_len { ripe } else { remote_len }
    }

    /// Removes every committable tick from both queues and returns those
    /// pairs, oldest first, together with copies of the local inputs that are
    /// ripe but still wait for their remote counterpart.
    pub fn consume_and_peek_local(&mut self) -> (out: (Vec<Pair<T>>, Vec<T>))
        ensures
            out.0@ == old(self)@.committed(),
            final(self)@ == old(self)@.drained(),
            out.1@.len() == old(self)@.peeked().len(),
            forall|i: int|
                #![trigger out.1@[i]]
                #![trigger old(self)@.peeked()[i]]
                0 <= i < out.1@.len() ==> cloned::<T>(old(self)@.peeked()[i], out.1@[i]),
    {
        let n = self.committable();
        let mut to_commit: Vec<Pair<T>> = Vec::new();
        let mut i: usize = 0;
        while i < n
            invariant
                i <= n,
                n == old(self)@.committable(),
                self.local_delay == old(self).local_delay,
                self.local_queue@ == old(self).local_queue@.skip(i as int),
                self.remote_queue@ == old(self).remote_queue@.skip(i as int),
                to_commit@ == old(self)@.committed().take(i as int),
            decreases n - i,
        {
            let local = self.local_queue.pop_front().unwrap();
            let remote = self.remote_queue.pop_front().unwrap();
            to_commit.push(Pair { local, remote });
            i += 1;
        }
        let local_len = self.local_queue.len();
        let delay = self.local_delay as usize;
        let k: usize = if local_len >= delay { local_len - delay } else { 0 };
        let mut peeked: Vec<T> = Vec::new();
        let mut j: usize = 0;
        while j < k
            invariant
                j <= k,
                k <= self.local_queue@.len(),
                peeked@.len() == j,
                forall|m: int| 0 <= m < j ==> cloned::<T>(#[trigger] self.local_queue@[m], peeked@[m]),
            decreases k - j,
        {
            peeked.push(self.local_queue[j].clone());
            j += 1;
        }
        (to_commit, peeked)
    }
}

/// One event in the life of a queue.
pub enum Step<T> {
    Local(T),
    Remote(T),
    Consume,
}

/// A queue together with every pair it has handed out so far.
pub struct Run<T> where T: Clone {
    pub queue: QueueState<T>,
    pub emitted: Seq<Pair<T>>,
}

/// The local inputs among `steps`, in order.
pub open spec fn locals_of<T>(steps: Seq<Step<T>>) -> Seq<T>
    decreases steps.len(),
{
    if steps.len() == 0 {
        Seq::empty()
    } else {
        match steps.last() {
            Step::Local(v) => locals_of(steps.drop_last()).push(v),
            _ => locals_of(steps.drop_last()),
        }
    }
}

/// The remote inputs among `steps`, in order.
pub open spec fn remotes_of<T>(steps: Seq<Step<T>>) -> Seq<T>
    decreases steps.len(),
{
    if steps.len() == 0 {
        Seq::empty()
    } else {
        match steps.last() {
            Step::Remote(v) => remotes_of(steps.drop_last()).push(v),
            _ => remotes_of(steps.drop_last()),
        }
    }
}

/// A fresh queue with delay `delay` after `steps`, consumes included.
pub open spec fn run<T: Clone>(delay: nat, steps: Seq<Step<T>>) -> Run<T>
    decreases steps.len(),
{
    if steps.len() == 0 {
        Run { queue: QueueState::empty(delay), emitted: Seq::empty() }
    } else {
        let before = run(delay, steps.drop_last());
        match steps.last() {
            Step::Local(v) => Run { queue: before.queue.add_local(v), emitted: before.emitted },
            Step::Remote(v) => Run { queue: before.queue.add_remote(v), emitted: before.emitted },
            Step::Consume => Run {
                queue: before.queue.drained(),
                emitted: before.emitted + before.queue.committed(),
            },
        }
    }
}

/// The first `n` ticks of two input streams, paired up.
pub open spec fn zipped<T: Clone>(local: Seq<T>, remote: Seq<T>, n: nat) -> Seq<Pair<T>> {
    Seq::new(n, |i: int| Pair { local: local[i], remote: remote[i] })
}

/// Number of ticks that are committed once `local_len` local and
/// `remote_len` remote inputs have been added under delay `delay`.
pub open spec fn settled(local_len: nat, remote_len: nat, delay: nat) -> nat {
    let ripe = if local_len >= delay { (local_len - delay) as nat } else { 0 };
    if ripe <= remote_len { ripe } else { remote_len }
}

/// Whatever the order of adds and consumes, a queue hands each tick out once
/// and in order: what it has emitted is a prefix of the two input streams
/// paired index by index, what it still holds is the rest of both streams,
/// and no emitted tick is younger than the delay allows.
pub proof fn law_fifo_pairing<T: Clone>(delay: nat, steps: Seq<Step<T>>)
    ensures
        ({
            let r = run(delay, steps);
            let e = r.emitted.len();
            &&& r.queue.delay == delay
            &&& e <= settled(locals_of(steps).len(), remotes_of(steps).len(), delay)
            &&& r.emitted == zipped(locals_of(steps), remotes_of(steps), e)
            &&& r.queue.local == locals_of(steps).skip(e as int)
            &&& r.queue.remote == remotes_of(steps).skip(e as int)
            &&& forall|i: int|
                0 <= i < e ==> {
                    &&& #[trigger] r.emitted[i] == (Pair {
                        local: locals_of(steps)[i],
                        remote: remotes_of(steps)[i],
                    })
                    &&& i + delay < locals_of(steps).len()
                    &&& i < remotes_of(steps).len()
                }
        }),
    decreases steps.len(),
{
    let r = run(delay, steps);
    let l = locals_of(steps);
    let m = remotes_of(steps);
    if steps.len() == 0 {
        assert(r.emitted =~= zipped(l, m, 0));
        assert(r.queue.local =~= l.skip(0));
        assert(r.queue.remote =~= m.skip(0));
    } else {
        let init = steps.drop_last();
        law_fifo_pairing(delay, init);
        let before = run(delay, init);
        let e = before.emitted.len();
        let l0 = locals_of(init);
        let m0 = remotes_of(init);
        match steps.last() {
            Step::Local(v) => {
                assert(r.emitted =~= zipped(l, m, e));
                assert(r.queue.local =~= l.skip(e as int));
            },
            Step::Remote(v) => {
                assert(r.emitted =~= zipped(l, m, e));
                assert(r.queue.remote =~= m.skip(e as int));
            },
            Step::Consume => {
                let c = before.queue.committable();
                assert(r.emitted =~= zipped(l, m, e + c));
                assert(r.queue.local =~= l.skip((e + c) as int));
                assert(r.queue.remote =~= m.skip((e + c) as int));
            },
        }
    }
}

/// Once a consume has run, every tick is out whose local input has aged past
/// the delay and whose remote input has arrived, and no other.
pub proof fn law_consume_settles<T: Clone>(delay: nat, steps: Seq<Step<T>>)
    ensures
        run(delay, steps.push(Step::Consume)).emitted == zipped(
            locals_of(steps),
            remotes_of(steps),
            settled(locals_of(steps).len(), remotes_of(steps).len(), delay),
        ),
{
    law_fifo_pairing(delay, steps);
    let after = steps.push(Step::Consume);
    assert(after.drop_last() =~= steps);
    let before = run(delay, steps);
    let n = settled(locals_of(steps).len(), remotes_of(steps).len(), delay);
    assert(run(delay, after).emitted =~= zipped(locals_of(steps), remotes_of(steps), n));
}

/// With as many local as remote inputs added, `len` of each, a consume
/// leaves tick `i` committed exactly when `i < len - delay`, and the pair
/// committed for tick `i` holds the `i`-th input of each side.
pub proof fn law_equal_streams<T: Clone>(delay: nat, steps: Seq<Step<T>>)
    requires
        locals_of(steps).len() == remotes_of(steps).len(),
    ensures
        ({
            let out = run(delay, steps.push(Step::Consume)).emitted;
            let len = locals_of(steps).len();
            &&& out.len() == if len >= delay { len - delay } else { 0 }
            &&& forall|i: int|
                0 <= i < out.len() ==> #[trigger] out[i] == (Pair {
                    local: locals_of(steps)[i],
                    remote: remotes_of(steps)[i],
                })
        }),
{
    law_consume_settles(delay, steps);
}

/// While no remote input waits, a consume commits nothing, leaves the queue
/// as it was, and peeks at every ripe local input.
pub proof fn law_empty_remote<T: Clone>(q: QueueState<T>)
    requires
        q.remote.len() == 0,
    ensures
        q.committed() == Seq::<Pair<T>>::empty(),
        q.drained() == q,
        q.peeked() == q.local.take(q.ripe() as int),
{
    assert(q.committed() =~= Seq::<Pair<T>>::empty());
    assert(q.local.skip(0) =~= q.local);
    assert(q.remote.skip(0) =~= q.remote);
    assert(q.peeked() =~= q.local.take(q.ripe() as int));
}

/// A consume takes the same number of inputs from both sides, and what it
/// peeks at stays in the queue, in front.
pub proof fn law_consume_balanced<T: Clone>(q: QueueState<T>)
    ensures
        q.committed().len() == q.committable(),
        q.drained().local.len() == q.local.len() - q.committable(),
        q.drained().remote.len() == q.remote.len() - q.committable(),
        q.drained().committable() == 0,
        q.peeked() == q.drained().local.take(q.drained().ripe() as int),
{
    assert(q.peeked() =~= q.drained().local.take(q.drained().ripe() as int));
}

} // verus!
