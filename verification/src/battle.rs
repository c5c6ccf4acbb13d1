//! One battle of a match: who plays which side, the inputs in flight, and
//! the life cycle from the first link-cable poll to the frozen record.

use crate::handshake::{
    pcg_seeded, rng_from_seed, Identity, IdentityView, NegotiationError, Reply,
};
use crate::input::{Input, Pair, PairQueue, QueueState};
use crate::protocol::{decoded, Packet, PacketView};
use vstd::prelude::*;

verus! {

/// What a side announces when a battle begins: the delay it plays with and
/// its first marshaled turn.
pub struct Init {
    input_delay: u32,
    marshaled: [u8; 256],
}

impl Init {
    /// The delay that the side plays with.
    pub closed spec fn spec_input_delay(&self) -> u32 {
        self.input_delay
    }

    /// The side's first marshaled turn.
    pub closed spec fn spec_marshaled(&self) -> [u8; 256] {
        self.marshaled
    }

    /// An announcement of this delay and this first turn.
    pub fn new(input_delay: u32, marshaled: [u8; 256]) -> (init: Self)
        ensures
            init.spec_input_delay() == input_delay,
            init.spec_marshaled() == marshaled,
    {
        Init { input_delay, marshaled }
    }

    /// The delay that the side plays with.
    #[verifier::when_used_as_spec(spec_input_delay)]
    pub fn input_delay(&self) -> (d: u32)
        ensures
            d == self.spec_input_delay(),
    {
        self.input_delay
    }

    /// The side's first marshaled turn.
    #[verifier::when_used_as_spec(spec_marshaled)]
    pub fn marshaled(&self) -> (m: [u8; 256])
        ensures
            m == self.spec_marshaled(),
    {
        self.marshaled
    }
}

/// Where a battle stands in its life.
#[derive(Clone, Copy, Debug, PartialEq, Eq, Structural)]
pub enum Stage {
    /// Created, the emulator has not asked for inputs yet.
    Initializing,
    /// The emulator asks for one input pair per tick.
    AcceptingInput,
    /// The battle is winding down: no input is taken any more.
    Ending,
    /// The record is frozen.
    Over,
}

/// A turn that waits to ride on an outgoing local input.
#[derive(Clone, Copy, Debug)]
pub struct PendingTurn {
    pub marshaled: [u8; 256],
    /// Local inputs still to go out before the turn is attached; the turn
    /// rides on the input that brings this to zero.
    pub ticks_left: i32,
}

/// Mathematical state of a battle.
pub struct BattleState {
    pub is_p2: bool,
    pub queue: QueueState<Input>,
    pub remote_delay: u32,
    pub pending_turn: Option<PendingTurn>,
    pub stage: Stage,
    pub last_committed_remote_input: Input,
    pub last_input: Option<[Input; 2]>,
    pub committed_state: Option<Seq<u8>>,
}

/// The input that stands for "nothing committed yet".
pub open spec fn blank_input() -> Input {
    Input { local_tick: 0, remote_tick: 0, joyflags: 0, custom_screen_state: 0, turn: None }
}

/// A pair laid out by player index: player 1's input first.
pub open spec fn by_player(is_p2: bool, pair: Pair<Input>) -> [Input; 2] {
    if is_p2 {
        [pair.remote, pair.local]
    } else {
        [pair.local, pair.remote]
    }
}

impl BattleState {
    /// A battle that has just been set up.
    pub open spec fn fresh(is_p2: bool, local_delay: u32, remote_delay: u32) -> Self {
        BattleState {
            is_p2,
            queue: QueueState::empty(local_delay as nat),
            remote_delay,
            pending_turn: None,
            stage: Stage::Initializing,
            last_committed_remote_input: blank_input(),
            last_input: None,
            committed_state: None,
        }
    }

    /// 0 where the local side is player 1, 1 where it is player 2.
    pub open spec fn local_player_index(self) -> u8 {
        if self.is_p2 {
            1
        } else {
            0
        }
    }

    /// Whether the turn that waits goes out with the next local input.
    pub open spec fn turn_is_due(self) -> bool {
        self.pending_turn matches Some(p) && p.ticks_left == 1
    }

    /// The turn that the next local input carries.
    pub open spec fn outgoing_turn(self) -> Option<[u8; 256]> {
        if self.turn_is_due() {
            Some(self.pending_turn->0.marshaled)
        } else {
            None
        }
    }

    /// The pending turn once one more local input has gone out.
    pub open spec fn pending_turn_after_tick(self) -> Option<PendingTurn> {
        match self.pending_turn {
            Some(p) => if p.ticks_left == 1 {
                None
            } else if p.ticks_left > 1 {
                Some(PendingTurn { marshaled: p.marshaled, ticks_left: (p.ticks_left - 1) as i32 })
            } else {
                Some(p)
            },
            None => None,
        }
    }

    /// The input that the local side sends for a freshly sampled tick.
    pub open spec fn outgoing_input(
        self,
        local_tick: u32,
        joyflags: u16,
        custom_screen_state: u8,
    ) -> Input {
        Input {
            local_tick,
            remote_tick: self.last_committed_remote_input.local_tick,
            joyflags,
            custom_screen_state,
            turn: self.outgoing_turn(),
        }
    }

    /// The battle after a consume: both queues drained by what was
    /// committed, and the newest committed pair remembered.
    pub open spec fn after_consume(self) -> Self {
        let committed = self.queue.committed();
        if committed.len() == 0 {
            BattleState { queue: self.queue.drained(), ..self }
        } else {
            BattleState {
                queue: self.queue.drained(),
                last_committed_remote_input: committed.last().remote,
                last_input: Some(by_player(self.is_p2, committed.last())),
                ..self
            }
        }
    }
}

/// A battle in progress.
pub struct Battle {
    is_p2: bool,
    iq: PairQueue<Input>,
    local_pending_turn: Option<PendingTurn>,
    remote_delay: u32,
    stage: Stage,
    last_committed_remote_input: Input,
    last_input: Option<[Input; 2]>,
    committed_state: Option<Vec<u8>>,
}

impl View for Battle {
    type V = BattleState;

    closed spec fn view(&self) -> BattleState {
        BattleState {
            is_p2: self.is_p2,
            queue: self.iq@,
            remote_delay: self.remote_delay,
            pending_turn: self.local_pending_turn,
            stage: self.stage,
            last_committed_remote_input: self.last_committed_remote_input,
            last_input: self.last_input,
            committed_state: match self.committed_state {
                Some(s) => Some(s@),
                None => None,
            },
        }
    }
}

impl Battle {
    /// A battle that has just been set up.  `capacity` sizes the input
    /// queues' first allocation.
    pub fn new(is_p2: bool, local_delay: u32, remote_delay: u32, capacity: usize) -> (b: Self)
        ensures
            b@ == BattleState::fresh(is_p2, local_delay, remote_delay),
    {
        Battle {
            is_p2,
            iq: PairQueue::new(capacity, local_delay),
            local_pending_turn: None,
            remote_delay,
            stage: Stage::Initializing,
            last_committed_remote_input: Input {
                local_tick: 0,
                remote_tick: 0,
                joyflags: 0,
                custom_screen_state: 0,
                turn: None,
            },
            last_input: None,
            committed_state: None,
        }
    }

    /// 0 where the local side is player 1, 1 where it is player 2.
    pub fn local_player_index(&self) -> (index: u8)
        ensures
            index == self@.local_player_index(),
            index == 0 || index == 1,
    {
        if self.is_p2 {
            1
        } else {
            0
        }
    }

    /// The other side's index: the complement of the local one.
    pub fn remote_player_index(&self) -> (index: u8)
        ensures
            index == 1 - self@.local_player_index(),
    {
        1 - self.local_player_index()
    }

    /// Ticks that a local input is held back.
    pub fn local_delay(&self) -> (d: u32)
        ensures
            d == self@.queue.delay,
    {
        self.iq.local_delay()
    }

    /// Ticks that the peer holds its inputs back.
    pub fn remote_delay(&self) -> (d: u32)
        ensures
            d == self@.remote_delay,
    {
        self.remote_delay
    }

    /// Where the battle stands in its life.
    pub fn stage(&self) -> (s: Stage)
        ensures
            s == self@.stage,
    {
        self.stage
    }

    /// Whether the emulator has begun to ask for inputs and the battle still
    /// takes them.
    pub fn is_accepting_input(&self) -> (b: bool)
        ensures
            b == (self@.stage == Stage::AcceptingInput),
    {
        self.stage == Stage::AcceptingInput
    }

    /// Whether the battle's record is frozen.
    pub fn is_over(&self) -> (b: bool)
        ensures
            b == (self@.stage == Stage::Over),
    {
        self.stage == Stage::Over
    }

    /// The emulator has reached the point where it reads inputs: a battle
    /// that was initializing accepts input from here on.  Later calls change
    /// nothing.
    pub fn start_accepting_input(&mut self)
        ensures
            final(self)@ == (BattleState {
                stage: if old(self)@.stage == Stage::Initializing {
                    Stage::AcceptingInput
                } else {
                    old(self)@.stage
                },
                ..old(self)@
            }),
    {
        if self.stage == Stage::Initializing {
            self.stage = Stage::AcceptingInput;
        }
    }

    /// The battle winds down: it takes no input from here on.  A battle that
    /// is over stays over.
    pub fn mark_ending(&mut self)
        ensures
            final(self)@ == (BattleState {
                stage: if old(self)@.stage == Stage::Over {
                    Stage::Over
                } else {
                    Stage::Ending
                },
                ..old(self)@
            }),
    {
        if self.stage != Stage::Over {
            self.stage = Stage::Ending;
        }
    }

    /// Freezes the battle's record.
    pub fn mark_over(&mut self)
        ensures
            final(self)@ == (BattleState { stage: Stage::Over, ..old(self)@ }),
    {
        self.stage = Stage::Over;
    }

    /// The remote input of the newest committed pair; blank before the first.
    pub fn last_committed_remote_input(&self) -> (input: Input)
        ensures
            input == self@.last_committed_remote_input,
    {
        self.last_committed_remote_input
    }

    /// The save state of the last committed tick, once one was captured.
    pub fn committed_state(&self) -> (state: Option<&Vec<u8>>)
        ensures
            match state {
                Some(s) => self@.committed_state == Some(s@),
                None => self@.committed_state.is_none(),
            },
    {
        self.committed_state.as_ref()
    }

    /// Replaces the committed save state.
    pub fn set_committed_state(&mut self, state: Vec<u8>)
        ensures
            final(self)@ == (BattleState { committed_state: Some(state@), ..old(self)@ }),
    {
        self.committed_state = Some(state);
    }

    /// Holds a freshly marshaled turn until `wait_ticks` more local inputs
    /// have gone out; it rides on the last of them.  A turn that already
    /// waits is replaced.
    pub fn add_local_pending_turn(&mut self, marshaled: [u8; 256], wait_ticks: i32)
        ensures
            final(self)@ == (BattleState {
                pending_turn: Some(PendingTurn { marshaled, ticks_left: wait_ticks }),
                ..old(self)@
            }),
    {
        self.local_pending_turn = Some(PendingTurn { marshaled, ticks_left: wait_ticks });
    }

    /// Counts one outgoing local input against the turn that waits, and
    /// hands the turn out when it is due.
    pub fn take_local_pending_turn(&mut self) -> (turn: Option<[u8; 256]>)
        ensures
            turn == old(self)@.outgoing_turn(),
            final(self)@ == (BattleState {
                pending_turn: old(self)@.pending_turn_after_tick(),
                ..old(self)@
            }),
    {
        match self.local_pending_turn {
            Some(p) => {
                if p.ticks_left == 1 {
                    self.local_pending_turn = None;
                    Some(p.marshaled)
                } else if p.ticks_left > 1 {
                    self.local_pending_turn = Some(
                        PendingTurn { marshaled: p.marshaled, ticks_left: p.ticks_left - 1 },
                    );
                    None
                } else {
                    None
                }
            },
            None => None,
        }
    }

    /// Wraps freshly sampled buttons into the input for `local_tick`, queues
    /// it on the local side and returns it for sending.  Outside the
    /// accepting stage nothing is queued and `None` comes back.
    pub fn add_local_input(&mut self, local_tick: u32, joyflags: u16, custom_screen_state: u8) -> (sent: Option<Input>)
        ensures
            old(self)@.stage == Stage::AcceptingInput ==> {
                let input = old(self)@.outgoing_input(local_tick, joyflags, custom_screen_state);
                &&& sent == Some(input)
                &&& final(self)@ == (BattleState {
                    queue: old(self)@.queue.add_local(input),
                    pending_turn: old(self)@.pending_turn_after_tick(),
                    ..old(self)@
                })
            },
            old(self)@.stage != Stage::AcceptingInput ==> {
                &&& sent.is_none()
                &&& final(self)@ == old(self)@
            },
    {
        if self.stage != Stage::AcceptingInput {
            return None;
        }
        let turn = self.take_local_pending_turn();
        let input = Input {
            local_tick,
            remote_tick: self.last_committed_remote_input.local_tick,
            joyflags,
            custom_screen_state,
            turn,
        };
        self.iq.add_local_input(input);
        Some(input)
    }

    /// Queues an input that arrived from the peer.  A battle that is ending
    /// or over takes none and answers `false`.
    pub fn add_remote_input(&mut self, input: Input) -> (taken: bool)
        ensures
            taken == (old(self)@.stage == Stage::Initializing || old(self)@.stage
                == Stage::AcceptingInput),
            taken ==> final(self)@ == (BattleState {
                queue: old(self)@.queue.add_remote(input),
                ..old(self)@
            }),
            !taken ==> final(self)@ == old(self)@,
    {
        if self.stage == Stage::Initializing || self.stage == Stage::AcceptingInput {
            self.iq.add_remote_input(input);
            true
        } else {
            false
        }
    }

    /// Lays a pair out by player index.
    pub fn arrange(&self, pair: &Pair<Input>) -> (inputs: [Input; 2])
        ensures
            inputs == by_player(self@.is_p2, *pair),
    {
        if self.is_p2 {
            [pair.remote, pair.local]
        } else {
            [pair.local, pair.remote]
        }
    }

    /// Commits every tick that is ready and returns those pairs, oldest
    /// first, with the local inputs that still wait for the peer.  The newest
    /// committed pair becomes the last input.
    pub fn consume_and_peek_local(&mut self) -> (out: (Vec<Pair<Input>>, Vec<Input>))
        ensures
            out.0@ == old(self)@.queue.committed(),
            out.1@ == old(self)@.queue.peeked(),
            final(self)@ == old(self)@.after_consume(),
    {
        let ghost before = self.iq@;
        let (committed, peeked) = self.iq.consume_and_peek_local();
        assert(peeked@ =~= before.peeked());
        let n = committed.len();
        if n > 0 {
            self.last_committed_remote_input = committed[n - 1].remote;
            self.last_input = Some(self.arrange(&committed[n - 1]));
        }
        (committed, peeked)
    }

    /// Overrides the pair that the emulator is fed next.
    pub fn set_last_input(&mut self, inputs: [Input; 2])
        ensures
            final(self)@ == (BattleState { last_input: Some(inputs), ..old(self)@ }),
    {
        self.last_input = Some(inputs);
    }

    /// Hands out the pair that the emulator is fed next, player 1 first, and
    /// clears it.
    pub fn take_last_input(&mut self) -> (inputs: Option<[Input; 2]>)
        ensures
            inputs == old(self)@.last_input,
            final(self)@ == (BattleState { last_input: None, ..old(self)@ }),
    {
        self.last_input.take()
    }
}

/// How far the match has come in agreeing with its peer.
pub enum Negotiation {
    NotReady,
    /// The handshake is done: the shared seed, and the generator that both
    /// sides build from it.
    Negotiated { seed: [u8; 16], rng: rand_pcg::Mcg128Xsl64 },
    Failed(NegotiationError),
}

/// What a battle slot holds, as a mathematical value.
pub open spec fn battle_view(slot: Option<Battle>) -> Option<BattleState> {
    match slot {
        Some(b) => Some(b@),
        None => None,
    }
}

struct BattleHolder {
    number: u32,
    battle: Option<Battle>,
}

/// Mathematical state of a match.
pub struct MatchState {
    pub negotiation: Negotiation,
    pub session_id: Seq<u8>,
    pub match_type: u16,
    pub game_title: Seq<u8>,
    pub game_crc32: u32,
    pub won_last_battle: bool,
    /// How many battles the match has started.
    pub battle_number: u32,
    pub battle: Option<BattleState>,
    pub aborted: bool,
}

impl MatchState {
    /// A match that has just been created.
    pub open spec fn fresh(
        session_id: Seq<u8>,
        match_type: u16,
        game_title: Seq<u8>,
        game_crc32: u32,
    ) -> Self {
        MatchState {
            negotiation: Negotiation::NotReady,
            session_id,
            match_type,
            game_title,
            game_crc32,
            won_last_battle: false,
            battle_number: 0,
            battle: None,
            aborted: false,
        }
    }

    /// The battle, frozen.
    pub open spec fn frozen_battle(self) -> Option<BattleState> {
        match self.battle {
            Some(b) => Some(BattleState { stage: Stage::Over, ..b }),
            None => None,
        }
    }

    /// The match aborted, its battle frozen.
    pub open spec fn abort(self) -> Self {
        MatchState { aborted: true, battle: self.frozen_battle(), ..self }
    }

    /// The match aborted and back to not negotiated.
    pub open spec fn cancel(self) -> Self {
        MatchState { negotiation: Negotiation::NotReady, ..self.abort() }
    }

    /// Whether a new battle can start.
    pub open spec fn can_start_battle(self) -> bool {
        !self.aborted && self.negotiation is Negotiated && self.battle_number < u32::MAX
    }

    /// The match after a step of the handshake that said `reply`.
    pub open spec fn settle(self, reply: Reply) -> Self {
        match reply {
            Reply::Ready { seed } => MatchState {
                negotiation: Negotiation::Negotiated { seed, rng: pcg_seeded(seed@) },
                ..self
            },
            Reply::Fail(error) => MatchState { negotiation: Negotiation::Failed(error), ..self },
            _ => self,
        }
    }

    /// What the match announces in its `Hello`.
    pub open spec fn identity(self, protocol_version: u32) -> IdentityView {
        IdentityView {
            protocol_version,
            game_title: self.game_title,
            game_crc32: self.game_crc32,
            match_type: self.match_type,
        }
    }
}

/// A match between two peers: one negotiation, then battle after battle.
pub struct Match {
    negotiation: Negotiation,
    session_id: Vec<u8>,
    match_type: u16,
    game_title: Vec<u8>,
    game_crc32: u32,
    won_last_battle: bool,
    battle_holder: BattleHolder,
    aborted: bool,
}

impl View for Match {
    type V = MatchState;

    closed spec fn view(&self) -> MatchState {
        MatchState {
            negotiation: self.negotiation,
            session_id: self.session_id@,
            match_type: self.match_type,
            game_title: self.game_title@,
            game_crc32: self.game_crc32,
            won_last_battle: self.won_last_battle,
            battle_number: self.battle_holder.number,
            battle: battle_view(self.battle_holder.battle),
            aborted: self.aborted,
        }
    }
}

impl Match {
    /// A match for the session `session_id`, not negotiated, without a battle.
    pub fn new(session_id: Vec<u8>, match_type: u16, game_title: Vec<u8>, game_crc32: u32) -> (m:
        Self)
        ensures
            m@ == MatchState::fresh(session_id@, match_type, game_title@, game_crc32),
    {
        Match {
            negotiation: Negotiation::NotReady,
            session_id,
            match_type,
            game_title,
            game_crc32,
            won_last_battle: false,
            battle_holder: BattleHolder { number: 0, battle: None },
            aborted: false,
        }
    }

    /// Marks the match as aborted and freezes its battle.
    pub fn abort(&mut self)
        ensures
            final(self)@ == old(self)@.abort(),
    {
        self.aborted = true;
        match &mut self.battle_holder.battle {
            Some(b) => {
                b.mark_over();
            },
            None => {},
        }
    }

    /// Aborts the match and lets go of what the negotiation had reached.
    pub fn cancel(&mut self)
        ensures
            final(self)@ == old(self)@.cancel(),
    {
        self.abort();
        self.negotiation = Negotiation::NotReady;
    }

    /// Whether the match was aborted.
    pub fn aborted(&self) -> (b: bool)
        ensures
            b == self@.aborted,
    {
        self.aborted
    }

    /// The session that both peers named to find each other.
    pub fn session_id(&self) -> (id: &Vec<u8>)
        ensures
            id@ == self@.session_id,
    {
        &self.session_id
    }

    /// Whether the local side won the battle before this one.
    pub fn won_last_battle(&self) -> (b: bool)
        ensures
            b == self@.won_last_battle,
    {
        self.won_last_battle
    }

    /// Records who won the battle that has just ended.
    pub fn set_won_last_battle(&mut self, won: bool)
        ensures
            final(self)@ == (MatchState { won_last_battle: won, ..old(self)@ }),
    {
        self.won_last_battle = won;
    }

    /// How many battles the match has started.
    pub fn battle_number(&self) -> (n: u32)
        ensures
            n == self@.battle_number,
    {
        self.battle_holder.number
    }

    /// What this match announces in its `Hello`.
    pub fn identity(&self, protocol_version: u32) -> (identity: Identity)
        ensures
            identity@ == self@.identity(protocol_version),
    {
        Identity {
            protocol_version,
            game_title: self.game_title.clone(),
            game_crc32: self.game_crc32,
            match_type: self.match_type,
        }
    }

    /// The battle in progress, if there is one.
    pub fn battle(&self) -> (b: Option<&Battle>)
        ensures
            match b {
                Some(b) => self@.battle == Some(b@),
                None => self@.battle.is_none(),
            },
    {
        self.battle_holder.battle.as_ref()
    }

    /// Records that the handshake ended with `seed`, and builds the shared
    /// generator from it.
    pub fn negotiated(&mut self, seed: [u8; 16])
        ensures
            final(self)@ == (MatchState {
                negotiation: Negotiation::Negotiated { seed, rng: pcg_seeded(seed@) },
                ..old(self)@
            }),
    {
        let rng = rng_from_seed(seed);
        self.negotiation = Negotiation::Negotiated { seed, rng };
    }

    /// Records that the handshake failed.
    pub fn negotiation_failed(&mut self, error: NegotiationError)
        ensures
            final(self)@ == (MatchState { negotiation: Negotiation::Failed(error), ..old(self)@ }),
    {
        self.negotiation = Negotiation::Failed(error);
    }

    /// Records what a step of the handshake said: its success or its
    /// failure.  Any other reply leaves the match as it is.
    pub fn settle(&mut self, reply: Reply)
        ensures
            final(self)@ == old(self)@.settle(reply),
    {
        match reply {
            Reply::Ready { seed } => self.negotiated(seed),
            Reply::Fail(error) => self.negotiation_failed(error),
            _ => {},
        }
    }

    /// How far the negotiation has come.
    pub fn negotiation(&self) -> (n: &Negotiation)
        ensures
            *n == self@.negotiation,
    {
        &self.negotiation
    }

    /// Whether the negotiation is done: `Ok(false)` while it runs, and the
    /// error it ended with if it failed.
    pub fn poll_for_ready(&self) -> (r: Result<bool, NegotiationError>)
        ensures
            r == match self@.negotiation {
                Negotiation::Negotiated { .. } => Ok::<bool, NegotiationError>(true),
                Negotiation::NotReady => Ok(false),
                Negotiation::Failed(e) => Err(e),
            },
    {
        match &self.negotiation {
            Negotiation::Negotiated { .. } => Ok(true),
            Negotiation::NotReady => Ok(false),
            Negotiation::Failed(e) => Err(*e),
        }
    }

    /// Starts the next battle in place of the one before, which is dropped.
    /// Nothing starts on a match that is aborted or not negotiated, nor once
    /// the battle count is exhausted.
    pub fn start_battle(&mut self, is_p2: bool, local_delay: u32, remote_delay: u32, capacity: usize) -> (started: bool)
        ensures
            started == old(self)@.can_start_battle(),
            started ==> final(self)@ == (MatchState {
                battle_number: (old(self)@.battle_number + 1) as u32,
                battle: Some(BattleState::fresh(is_p2, local_delay, remote_delay)),
                ..old(self)@
            }),
            !started ==> final(self)@ == old(self)@,
    {
        let negotiated = match &self.negotiation {
            Negotiation::Negotiated { .. } => true,
            _ => false,
        };
        if self.aborted || !negotiated || self.battle_holder.number == u32::MAX {
            return false;
        }
        self.battle_holder.number = self.battle_holder.number + 1;
        self.battle_holder.battle = Some(Battle::new(is_p2, local_delay, remote_delay, capacity));
        true
    }

    /// The slot that holds the battle in progress, to work on it in place.
    pub fn lock_battle(&mut self) -> (slot: &mut Option<Battle>)
        ensures
            battle_view(*slot) == old(self)@.battle,
            final(self)@ == (MatchState { battle: battle_view(*final(slot)), ..old(self)@ }),
    {
        &mut self.battle_holder.battle
    }
}

/// What became of a datagram that came in during the match.
#[derive(Clone, Copy, Debug, PartialEq, Eq, Structural)]
pub enum Received {
    /// It was an input, and the battle queued it.
    Queued,
    /// It was an input, and nothing takes inputs right now.
    Dropped,
    /// It was a packet that has no place after the handshake: the match is
    /// aborted.
    Unexpected,
    /// It was no packet: the match is aborted.
    Malformed,
}

impl MatchState {
    /// Whether the battle takes a remote input.
    pub open spec fn takes_remote_input(self) -> bool {
        &&& !self.aborted
        &&& self.battle matches Some(b)
        &&& (b.stage == Stage::Initializing || b.stage == Stage::AcceptingInput)
    }

    /// The match after a datagram, and what became of the datagram.
    pub open spec fn receive(self, data: Seq<u8>) -> (MatchState, Received) {
        match decoded(data) {
            Some(PacketView::Input(input)) => if self.takes_remote_input() {
                let b = self.battle.unwrap();
                (
                    MatchState {
                        battle: Some(BattleState { queue: b.queue.add_remote(input), ..b }),
                        ..self
                    },
                    Received::Queued,
                )
            } else {
                (self, Received::Dropped)
            },
            Some(_) => (self.abort(), Received::Unexpected),
            None => (self.abort(), Received::Malformed),
        }
    }
}

impl Match {
    /// Takes a datagram that came in after the handshake.  An input goes to
    /// the battle's remote queue; anything else breaks the protocol and
    /// aborts the match.
    pub fn receive(&mut self, data: &[u8]) -> (outcome: Received)
        ensures
            (final(self)@, outcome) == old(self)@.receive(data@),
    {
        match Packet::decode(data) {
            Some(Packet::Input(input)) => {
                if self.aborted {
                    return Received::Dropped;
                }
                match &mut self.battle_holder.battle {
                    Some(b) => {
                        if b.add_remote_input(input) {
                            Received::Queued
                        } else {
                            Received::Dropped
                        }
                    },
                    None => Received::Dropped,
                }
            },
            Some(_) => {
                self.abort();
                Received::Unexpected
            },
            None => {
                self.abort();
                Received::Malformed
            },
        }
    }
}

/// Aborting or cancelling twice is the same as doing it once.
pub proof fn law_cancel_idempotent(m: MatchState)
    ensures
        m.abort().abort() == m.abort(),
        m.cancel().cancel() == m.cancel(),
        m.cancel().aborted,
{
}

} // verus!
