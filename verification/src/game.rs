//! What the game does when the emulator reaches one of the trapped ROM
//! addresses.
//!
//! The emulator stops at a trap and asks [`Game::on_trap`] what to do.  The
//! answer is a list of effects for the caller to carry out on the emulator
//! and the network, in order; the match and battle bookkeeping happens here.

use crate::battle::{battle_view, Battle, BattleState, Match, MatchState, Negotiation, PendingTurn, Stage};
use crate::input::{Input, Pair};
use vstd::prelude::*;

verus! {

/// The places in the ROM where the emulator stops, with what the caller read
/// from the emulator on the way in.
#[derive(Clone, Copy, Debug)]
pub enum Trap {
    BattleInitCallBattleCopyInputData,
    /// The ROM has marshaled this side's first turn.
    BattleInitMarshalRet { marshaled: [u8; 256] },
    /// The ROM has marshaled this side's next turn.
    BattleTurnMarshalRet { marshaled: [u8; 256] },
    /// The ROM has sampled the buttons for `local_tick`.
    MainReadJoyflags { local_tick: u32, joyflags: u16, custom_screen_state: u8 },
    /// The ROM is about to copy the link-cable inputs of this tick.
    BattleUpdateCallBattleCopyInputData,
    BattleRunUnpausedStepCmpRetval,
    BattleStartRet,
    BattleEndingRet,
    BattleIsP2Tst,
    LinkIsP2Ret,
    GetCopyDataInputStateRet,
    CommMenuHandleLinkCableInputEntry,
    CommMenuWaitForFriendCallCommMenuHandleLinkCableInput,
    CommMenuInitBattleEntry,
    CommMenuWaitForFriendRetCancel,
    CommMenuEndBattleEntry,
    CommMenuInBattleCallCommMenuHandleLinkCableInput,
}

/// One thing for the caller to do.
#[derive(Clone, Copy, Debug)]
pub enum Effect {
    /// Continue at this address.
    SetPc(u32),
    /// Put `value` into general-purpose register `reg`.
    SetGpr { reg: u8, value: i32 },
    /// Create a match for the loaded ROM, hand it to `open_match` and start
    /// its negotiation.
    OpenMatch,
    /// Stop whatever runs on behalf of the match that was just cancelled.
    CancelMatch,
    /// Move the ROM from the menu into battle.
    StartBattleFromCommMenu,
    /// Make the ROM show that the connection failed.
    DropMatchmakingFromCommMenu { error_code: u32 },
    /// Capture a save state and hand it to the battle as its committed state.
    CaptureState,
    /// Append this committed pair to the battle's record.
    Record(Pair<Input>),
    /// Send this input to the peer.
    SendInput(Input),
    /// Write a player's buttons and screen state into emulator memory.
    WriteInputState { player: u8, joyflags: u16, custom_screen_state: u8 },
    /// Write a player's marshaled turn into emulator memory.
    WriteMarshaledState { player: u8, marshaled: [u8; 256] },
    /// Hold the emulator until a remote input has arrived, then call
    /// `resume`.
    AwaitInput,
    /// The record is used up: the fast-forward is done.
    Done,
}

/// The error code shown when matchmaking is dropped.
pub const DROP_ERROR_CODE: u32 = 0;

/// The address one Thumb instruction pair further on, as the 32-bit program
/// counter counts.
pub open spec fn skip_call(pc: u32) -> u32 {
    if pc <= u32::MAX - 4 {
        (pc + 4) as u32
    } else {
        (pc + 4 - 0x1_0000_0000) as u32
    }
}

/// The writes that put one player's input into emulator memory.
pub open spec fn player_writes(player: u8, input: Input) -> Seq<Effect> {
    let state = seq![
        Effect::WriteInputState {
            player,
            joyflags: input.joyflags,
            custom_screen_state: input.custom_screen_state,
        },
    ];
    match input.turn {
        Some(marshaled) => state.push(Effect::WriteMarshaledState { player, marshaled }),
        None => state,
    }
}

/// The writes that put both players' inputs into emulator memory.
pub open spec fn input_writes(inputs: [Input; 2]) -> Seq<Effect> {
    player_writes(0, inputs[0]) + player_writes(1, inputs[1])
}

/// One `Record` for each pair, in order.
pub open spec fn records(pairs: Seq<Pair<Input>>) -> Seq<Effect> {
    Seq::new(pairs.len(), |i: int| Effect::Record(pairs[i]))
}

/// Whether a trap only makes sense while a battle runs.
pub open spec fn needs_battle(trap: Trap) -> bool {
    trap is BattleInitCallBattleCopyInputData || trap is BattleUpdateCallBattleCopyInputData
        || trap is BattleIsP2Tst || trap is LinkIsP2Ret
}

/// A battle after the emulator has asked for this tick's inputs, and what
/// the caller does: every tick that is ready is committed and recorded, and
/// the pair to play is written out, or the emulator waits.
pub open spec fn feed(b: BattleState) -> (BattleState, Seq<Effect>) {
    let committed = b.queue.committed();
    let after = b.after_consume();
    match after.last_input {
        Some(inputs) => (
            BattleState { last_input: None, ..after },
            records(committed) + input_writes(inputs),
        ),
        None => (after, records(committed).push(Effect::AwaitInput)),
    }
}

/// What a trap does to the battle in progress.
pub open spec fn battle_step(b: BattleState, trap: Trap, r15: u32) -> (BattleState, Seq<Effect>) {
    match trap {
        Trap::BattleInitCallBattleCopyInputData => (b, seq![Effect::SetPc(skip_call(r15))]),
        Trap::BattleUpdateCallBattleCopyInputData => {
            let first = b.stage == Stage::Initializing;
            let started = BattleState {
                stage: if first {
                    Stage::AcceptingInput
                } else {
                    b.stage
                },
                ..b
            };
            let head = if first {
                seq![Effect::SetPc(skip_call(r15)), Effect::CaptureState]
            } else {
                seq![Effect::SetPc(skip_call(r15))]
            };
            (feed(started).0, head + feed(started).1)
        },
        Trap::BattleIsP2Tst | Trap::LinkIsP2Ret => (
            b,
            seq![Effect::SetGpr { reg: 0, value: b.local_player_index() as i32 }],
        ),
        Trap::BattleInitMarshalRet { marshaled } | Trap::BattleTurnMarshalRet { marshaled } => (
            BattleState { pending_turn: Some(PendingTurn { marshaled, ticks_left: 1 }), ..b },
            Seq::empty(),
        ),
        Trap::MainReadJoyflags { local_tick, joyflags, custom_screen_state } => {
            if b.stage == Stage::AcceptingInput {
                let input = b.outgoing_input(local_tick, joyflags, custom_screen_state);
                (
                    BattleState {
                        queue: b.queue.add_local(input),
                        pending_turn: b.pending_turn_after_tick(),
                        ..b
                    },
                    seq![Effect::SendInput(input)],
                )
            } else {
                (b, Seq::empty())
            }
        },
        Trap::BattleEndingRet => (
            BattleState {
                stage: if b.stage == Stage::Over {
                    Stage::Over
                } else {
                    Stage::Ending
                },
                ..b
            },
            Seq::empty(),
        ),
        Trap::BattleStartRet => (
            BattleState {
                stage: if b.stage == Stage::Ending {
                    Stage::Over
                } else {
                    b.stage
                },
                ..b
            },
            Seq::empty(),
        ),
        _ => (b, Seq::empty()),
    }
}

/// What a battle trap does to a match.  An aborted match ignores it; a trap
/// that needs a battle where there is none aborts the match.
pub open spec fn match_step(m: MatchState, trap: Trap, r15: u32) -> (MatchState, Seq<Effect>) {
    if m.aborted {
        (m, Seq::empty())
    } else {
        match m.battle {
            Some(b) => (
                MatchState { battle: Some(battle_step(b, trap, r15).0), ..m },
                battle_step(b, trap, r15).1,
            ),
            None => if needs_battle(trap) {
                (m.abort(), Seq::empty())
            } else {
                (m, Seq::empty())
            },
        }
    }
}

/// What the menu does while it waits for the friend, for a match in this
/// state.
pub open spec fn poll_effects(m: MatchState) -> Seq<Effect> {
    if m.aborted {
        seq![Effect::DropMatchmakingFromCommMenu { error_code: DROP_ERROR_CODE }]
    } else {
        match m.negotiation {
            Negotiation::Negotiated { .. } => seq![Effect::StartBattleFromCommMenu],
            Negotiation::NotReady => Seq::empty(),
            Negotiation::Failed(_) => seq![
                Effect::DropMatchmakingFromCommMenu { error_code: DROP_ERROR_CODE },
            ],
        }
    }
}

/// How the game sets up each battle.
#[derive(Clone, Copy, Debug, PartialEq, Eq, Structural)]
pub struct BattleSettings {
    pub is_p2: bool,
    pub local_delay: u32,
    pub remote_delay: u32,
    /// Sizes the first allocation of the input queues.
    pub capacity: usize,
}

/// Mathematical state of the game: the match in progress, if any, and how
/// its battles are set up.
pub struct GameState {
    pub current: Option<MatchState>,
    pub settings: BattleSettings,
}

/// Whether a match is ready for its next battle: it is negotiated and alive,
/// and holds no battle or one that is over.
pub open spec fn wants_battle(m: MatchState) -> bool {
    &&& m.can_start_battle()
    &&& m.battle matches Some(b) ==> b.stage == Stage::Over
}

/// A match once the link cable has been polled in battle: a match that is
/// ready for its next battle gets a fresh one.
pub open spec fn enter_battle(m: MatchState, settings: BattleSettings) -> MatchState {
    if wants_battle(m) {
        MatchState {
            battle_number: (m.battle_number + 1) as u32,
            battle: Some(
                BattleState::fresh(settings.is_p2, settings.local_delay, settings.remote_delay),
            ),
            ..m
        }
    } else {
        m
    }
}

impl GameState {
    /// The state after a trap, and what the caller does.
    pub open spec fn on_trap(self, trap: Trap, r15: u32) -> (GameState, Seq<Effect>) {
        match trap {
            Trap::CommMenuWaitForFriendCallCommMenuHandleLinkCableInput => match self.current {
                None => (self, seq![Effect::SetPc(skip_call(r15)), Effect::OpenMatch]),
                Some(m) => (self, seq![Effect::SetPc(skip_call(r15))] + poll_effects(m)),
            },
            Trap::CommMenuWaitForFriendRetCancel => match self.current {
                None => (self, seq![Effect::SetPc(skip_call(r15))]),
                Some(m) => (
                    GameState { current: None, ..self },
                    seq![Effect::CancelMatch, Effect::SetPc(skip_call(r15))],
                ),
            },
            Trap::CommMenuHandleLinkCableInputEntry => (self, seq![Effect::SetPc(skip_call(r15))]),
            Trap::CommMenuInBattleCallCommMenuHandleLinkCableInput => (
                match self.current {
                    Some(m) => GameState {
                        current: Some(enter_battle(m, self.settings)),
                        ..self
                    },
                    None => self,
                },
                seq![Effect::SetPc(skip_call(r15))],
            ),
            Trap::CommMenuInitBattleEntry | Trap::CommMenuEndBattleEntry => (self, Seq::empty()),
            _ => match self.current {
                None => (self, Seq::empty()),
                Some(m) => (
                    GameState { current: Some(match_step(m, trap, r15).0), ..self },
                    match_step(m, trap, r15).1,
                ),
            },
        }
    }

    /// The state after the emulator was held for a remote input and asks
    /// again, and what the caller does.
    pub open spec fn resume(self) -> (GameState, Seq<Effect>) {
        match self.current {
            Some(m) => match m.battle {
                Some(b) => if m.aborted {
                    (self, Seq::empty())
                } else {
                    (
                        GameState {
                            current: Some(MatchState { battle: Some(feed(b).0), ..m }),
                            ..self
                        },
                        feed(b).1,
                    )
                },
                None => (self, Seq::empty()),
            },
            None => (self, Seq::empty()),
        }
    }
}

/// The address after the call that a trap replaces.
pub fn skip_call_exec(pc: u32) -> (next: u32)
    ensures
        next == skip_call(pc),
{
    if pc <= u32::MAX - 4 {
        pc + 4
    } else {
        pc - (u32::MAX - 3)
    }
}

fn push_player_writes(effects: &mut Vec<Effect>, player: u8, input: &Input)
    ensures
        final(effects)@ == old(effects)@ + player_writes(player, *input),
{
    effects.push(
        Effect::WriteInputState {
            player,
            joyflags: input.joyflags,
            custom_screen_state: input.custom_screen_state,
        },
    );
    match input.turn {
        Some(marshaled) => {
            effects.push(Effect::WriteMarshaledState { player, marshaled });
        },
        None => {},
    }
    assert(effects@ =~= old(effects)@ + player_writes(player, *input));
}

/// Appends the writes that put both players' inputs into emulator memory.
pub fn push_input_writes(effects: &mut Vec<Effect>, inputs: &[Input; 2])
    ensures
        final(effects)@ == old(effects)@ + input_writes(*inputs),
{
    push_player_writes(effects, 0, &inputs[0]);
    push_player_writes(effects, 1, &inputs[1]);
    assert(effects@ =~= old(effects)@ + input_writes(*inputs));
}

/// Commits what is ready, records it, and writes out the pair to play or
/// asks the caller to wait.
fn feed_battle(b: &mut Battle, effects: &mut Vec<Effect>)
    ensures
        final(b)@ == feed(old(b)@).0,
        final(effects)@ == old(effects)@ + feed(old(b)@).1,
{
    let (committed, _) = b.consume_and_peek_local();
    let mut i: usize = 0;
    while i < committed.len()
        invariant
            i <= committed@.len(),
            effects@ == old(effects)@ + records(committed@).take(i as int),
        decreases committed@.len() - i,
    {
        effects.push(Effect::Record(committed[i]));
        i += 1;
        assert(effects@ =~= old(effects)@ + records(committed@).take(i as int));
    }
    assert(records(committed@).take(committed@.len() as int) =~= records(committed@));
    match b.take_last_input() {
        Some(inputs) => {
            push_input_writes(effects, &inputs);
            assert(effects@ =~= old(effects)@ + (records(committed@) + input_writes(inputs)));
        },
        None => {
            effects.push(Effect::AwaitInput);
            assert(effects@ =~= old(effects)@ + records(committed@).push(Effect::AwaitInput));
        },
    }
}

fn step_battle(b: &mut Battle, trap: Trap, r15: u32) -> (effects: Vec<Effect>)
    ensures
        final(b)@ == battle_step(old(b)@, trap, r15).0,
        effects@ == battle_step(old(b)@, trap, r15).1,
{
    let mut effects: Vec<Effect> = Vec::new();
    match trap {
        Trap::BattleInitCallBattleCopyInputData => {
            effects.push(Effect::SetPc(skip_call_exec(r15)));
        },
        Trap::BattleUpdateCallBattleCopyInputData => {
            effects.push(Effect::SetPc(skip_call_exec(r15)));
            if b.stage() == Stage::Initializing {
                effects.push(Effect::CaptureState);
            }
            b.start_accepting_input();
            feed_battle(b, &mut effects);
        },
        Trap::BattleIsP2Tst | Trap::LinkIsP2Ret => {
            effects.push(Effect::SetGpr { reg: 0, value: b.local_player_index() as i32 });
        },
        Trap::BattleInitMarshalRet { marshaled } | Trap::BattleTurnMarshalRet { marshaled } => {
            b.add_local_pending_turn(marshaled, 1);
        },
        Trap::MainReadJoyflags { local_tick, joyflags, custom_screen_state } => {
            match b.add_local_input(local_tick, joyflags, custom_screen_state) {
                Some(input) => {
                    effects.push(Effect::SendInput(input));
                },
                None => {},
            }
        },
        Trap::BattleEndingRet => {
            b.mark_ending();
        },
        Trap::BattleStartRet => {
            if b.stage() == Stage::Ending {
                b.mark_over();
            }
        },
        _ => {},
    }
    assert(effects@ =~= battle_step(old(b)@, trap, r15).1);
    effects
}

fn step_match(m: &mut Match, trap: Trap, r15: u32) -> (effects: Vec<Effect>)
    ensures
        final(m)@ == match_step(old(m)@, trap, r15).0,
        effects@ == match_step(old(m)@, trap, r15).1,
{
    if m.aborted() {
        return Vec::new();
    }
    let wanted = match trap {
        Trap::BattleInitCallBattleCopyInputData
        | Trap::BattleUpdateCallBattleCopyInputData
        | Trap::BattleIsP2Tst
        | Trap::LinkIsP2Ret => true,
        _ => false,
    };
    let slot = m.lock_battle();
    match slot {
        Some(b) => step_battle(b, trap, r15),
        None => {
            if wanted {
                m.abort();
            }
            Vec::new()
        },
    }
}

fn poll(m: &Match) -> (effects: Vec<Effect>)
    ensures
        effects@ == poll_effects(m@),
{
    let mut effects: Vec<Effect> = Vec::new();
    if m.aborted() {
        effects.push(Effect::DropMatchmakingFromCommMenu { error_code: DROP_ERROR_CODE });
    } else {
        match m.poll_for_ready() {
            Ok(true) => {
                effects.push(Effect::StartBattleFromCommMenu);
            },
            Ok(false) => {},
            Err(_) => {
                effects.push(Effect::DropMatchmakingFromCommMenu { error_code: DROP_ERROR_CODE });
            },
        }
    }
    assert(effects@ =~= poll_effects(m@));
    effects
}

/// The game: at most one match at a time.
pub struct Game {
    current: Option<Match>,
    settings: BattleSettings,
}

/// What a match slot holds, as a mathematical value.
pub open spec fn match_view(slot: Option<Match>) -> Option<MatchState> {
    match slot {
        Some(m) => Some(m@),
        None => None,
    }
}

impl View for Game {
    type V = GameState;

    closed spec fn view(&self) -> GameState {
        GameState { current: match_view(self.current), settings: self.settings }
    }
}

impl Game {
    /// A game with no match, which sets its battles up as `settings` say.
    pub fn new(settings: BattleSettings) -> (g: Self)
        ensures
            g@ == (GameState { current: None, settings }),
    {
        Game { current: None, settings }
    }

    /// How the game sets up each battle.
    pub fn settings(&self) -> (settings: BattleSettings)
        ensures
            settings == self@.settings,
    {
        self.settings
    }

    /// Puts `m` in place as the match in progress.
    pub fn open_match(&mut self, m: Match)
        ensures
            final(self)@ == (GameState { current: Some(m@), ..old(self)@ }),
    {
        self.current = Some(m);
    }

    /// The slot that holds the match in progress, to work on it in place.
    pub fn lock_match(&mut self) -> (slot: &mut Option<Match>)
        ensures
            match_view(*slot) == old(self)@.current,
            final(self)@ == (GameState { current: match_view(*final(slot)), ..old(self)@ }),
    {
        &mut self.current
    }

    /// The emulator has stopped at `trap` with `r15` in its program counter.
    /// Updates the match and the battle, and returns what the caller is to
    /// do, in order.
    pub fn on_trap(&mut self, trap: Trap, r15: u32) -> (effects: Vec<Effect>)
        ensures
            final(self)@ == old(self)@.on_trap(trap, r15).0,
            effects@ == old(self)@.on_trap(trap, r15).1,
    {
        let mut effects: Vec<Effect> = Vec::new();
        match trap {
            Trap::CommMenuWaitForFriendCallCommMenuHandleLinkCableInput => {
                effects.push(Effect::SetPc(skip_call_exec(r15)));
                match &self.current {
                    None => {
                        effects.push(Effect::OpenMatch);
                    },
                    Some(m) => {
                        let mut polled = poll(m);
                        effects.append(&mut polled);
                    },
                }
            },
            Trap::CommMenuWaitForFriendRetCancel => {
                if self.current.is_some() {
                    self.current = None;
                    effects.push(Effect::CancelMatch);
                }
                effects.push(Effect::SetPc(skip_call_exec(r15)));
            },
            Trap::CommMenuHandleLinkCableInputEntry => {
                effects.push(Effect::SetPc(skip_call_exec(r15)));
            },
            Trap::CommMenuInBattleCallCommMenuHandleLinkCableInput => {
                effects.push(Effect::SetPc(skip_call_exec(r15)));
                let settings = self.settings;
                match &mut self.current {
                    Some(m) => {
                        let vacant = match m.battle() {
                            Some(b) => b.is_over(),
                            None => true,
                        };
                        if vacant {
                            m.start_battle(
                                settings.is_p2,
                                settings.local_delay,
                                settings.remote_delay,
                                settings.capacity,
                            );
                        }
                    },
                    None => {},
                }
            },
            Trap::CommMenuInitBattleEntry | Trap::CommMenuEndBattleEntry => {},
            _ => {
                match &mut self.current {
                    None => {},
                    Some(m) => {
                        effects = step_match(m, trap, r15);
                    },
                }
            },
        }
        assert(effects@ =~= old(self)@.on_trap(trap, r15).1);
        effects
    }

    /// The emulator was held for a remote input; try again to feed it.
    pub fn resume(&mut self) -> (effects: Vec<Effect>)
        ensures
            final(self)@ == old(self)@.resume().0,
            effects@ == old(self)@.resume().1,
    {
        let mut effects: Vec<Effect> = Vec::new();
        match &mut self.current {
            Some(m) => {
                if !m.aborted() {
                    let slot = m.lock_battle();
                    match slot {
                        Some(b) => {
                            feed_battle(b, &mut effects);
                        },
                        None => {},
                    }
                }
            },
            None => {},
        }
        assert(effects@ =~= old(self)@.resume().1);
        effects
    }
}

/// The places in the ROM where the emulator stops, by name alone.
#[derive(Clone, Copy, Debug, PartialEq, Eq, Structural)]
pub enum TrapKind {
    BattleInitCallBattleCopyInputData,
    BattleInitMarshalRet,
    BattleTurnMarshalRet,
    MainReadJoyflags,
    BattleUpdateCallBattleCopyInputData,
    BattleRunUnpausedStepCmpRetval,
    BattleStartRet,
    BattleEndingRet,
    BattleIsP2Tst,
    LinkIsP2Ret,
    GetCopyDataInputStateRet,
    CommMenuHandleLinkCableInputEntry,
    CommMenuWaitForFriendCallCommMenuHandleLinkCableInput,
    CommMenuInitBattleEntry,
    CommMenuWaitForFriendRetCancel,
    CommMenuEndBattleEntry,
    CommMenuInBattleCallCommMenuHandleLinkCableInput,
}

/// Where each trap lies in one version of the ROM.
#[derive(Clone, Copy, Debug)]
pub struct Offsets {
    pub battle_init_call_battle_copy_input_data: u32,
    pub battle_init_marshal_ret: u32,
    pub battle_turn_marshal_ret: u32,
    pub main_read_joyflags: u32,
    pub battle_update_call_battle_copy_input_data: u32,
    pub battle_run_unpaused_step_cmp_retval: u32,
    pub battle_start_ret: u32,
    pub battle_ending_ret: u32,
    pub battle_is_p2_tst: u32,
    pub link_is_p2_ret: u32,
    pub get_copy_data_input_state_ret: u32,
    pub comm_menu_handle_link_cable_input_entry: u32,
    pub comm_menu_wait_for_friend_call_comm_menu_handle_link_cable_input: u32,
    pub comm_menu_init_battle_entry: u32,
    pub comm_menu_wait_for_friend_ret_cancel: u32,
    pub comm_menu_end_battle_entry: u32,
    pub comm_menu_in_battle_call_comm_menu_handle_link_cable_input: u32,
}

/// The traps of a game, each with its address.
pub open spec fn trap_table(o: Offsets) -> Seq<(u32, TrapKind)> {
    seq![
        (o.battle_init_call_battle_copy_input_data, TrapKind::BattleInitCallBattleCopyInputData),
        (o.battle_init_marshal_ret, TrapKind::BattleInitMarshalRet),
        (o.battle_turn_marshal_ret, TrapKind::BattleTurnMarshalRet),
        (o.main_read_joyflags, TrapKind::MainReadJoyflags),
        (
            o.battle_update_call_battle_copy_input_data,
            TrapKind::BattleUpdateCallBattleCopyInputData,
        ),
        (o.battle_run_unpaused_step_cmp_retval, TrapKind::BattleRunUnpausedStepCmpRetval),
        (o.battle_start_ret, TrapKind::BattleStartRet),
        (o.battle_ending_ret, TrapKind::BattleEndingRet),
        (o.battle_is_p2_tst, TrapKind::BattleIsP2Tst),
        (o.link_is_p2_ret, TrapKind::LinkIsP2Ret),
        (o.get_copy_data_input_state_ret, TrapKind::GetCopyDataInputStateRet),
        (o.comm_menu_handle_link_cable_input_entry, TrapKind::CommMenuHandleLinkCableInputEntry),
        (
            o.comm_menu_wait_for_friend_call_comm_menu_handle_link_cable_input,
            TrapKind::CommMenuWaitForFriendCallCommMenuHandleLinkCableInput,
        ),
        (o.comm_menu_init_battle_entry, TrapKind::CommMenuInitBattleEntry),
        (o.comm_menu_wait_for_friend_ret_cancel, TrapKind::CommMenuWaitForFriendRetCancel),
        (o.comm_menu_end_battle_entry, TrapKind::CommMenuEndBattleEntry),
        (
            o.comm_menu_in_battle_call_comm_menu_handle_link_cable_input,
            TrapKind::CommMenuInBattleCallCommMenuHandleLinkCableInput,
        ),
    ]
}

/// The traps that are listed for `pc`, in the order of the table.
pub open spec fn traps_at(table: Seq<(u32, TrapKind)>, pc: u32) -> Seq<TrapKind>
    decreases table.len(),
{
    if table.len() == 0 {
        Seq::empty()
    } else if table.last().0 == pc {
        traps_at(table.drop_last(), pc).push(table.last().1)
    } else {
        traps_at(table.drop_last(), pc)
    }
}

impl Trap {
    /// The name of the place that this trap stands for.
    pub open spec fn spec_kind(&self) -> TrapKind {
        match *self {
            Trap::BattleInitCallBattleCopyInputData => TrapKind::BattleInitCallBattleCopyInputData,
            Trap::BattleInitMarshalRet { .. } => TrapKind::BattleInitMarshalRet,
            Trap::BattleTurnMarshalRet { .. } => TrapKind::BattleTurnMarshalRet,
            Trap::MainReadJoyflags { .. } => TrapKind::MainReadJoyflags,
            Trap::BattleUpdateCallBattleCopyInputData => {
                TrapKind::BattleUpdateCallBattleCopyInputData
            },
            Trap::BattleRunUnpausedStepCmpRetval => TrapKind::BattleRunUnpausedStepCmpRetval,
            Trap::BattleStartRet => TrapKind::BattleStartRet,
            Trap::BattleEndingRet => TrapKind::BattleEndingRet,
            Trap::BattleIsP2Tst => TrapKind::BattleIsP2Tst,
            Trap::LinkIsP2Ret => TrapKind::LinkIsP2Ret,
            Trap::GetCopyDataInputStateRet => TrapKind::GetCopyDataInputStateRet,
            Trap::CommMenuHandleLinkCableInputEntry => TrapKind::CommMenuHandleLinkCableInputEntry,
            Trap::CommMenuWaitForFriendCallCommMenuHandleLinkCableInput => {
                TrapKind::CommMenuWaitForFriendCallCommMenuHandleLinkCableInput
            },
            Trap::CommMenuInitBattleEntry => TrapKind::CommMenuInitBattleEntry,
            Trap::CommMenuWaitForFriendRetCancel => TrapKind::CommMenuWaitForFriendRetCancel,
            Trap::CommMenuEndBattleEntry => TrapKind::CommMenuEndBattleEntry,
            Trap::CommMenuInBattleCallCommMenuHandleLinkCableInput => {
                TrapKind::CommMenuInBattleCallCommMenuHandleLinkCableInput
            },
        }
    }

    /// The name of the place that this trap stands for.
    #[verifier::when_used_as_spec(spec_kind)]
    pub fn kind(&self) -> (k: TrapKind)
        ensures
            k == self.spec_kind(),
    {
        match self {
            Trap::BattleInitCallBattleCopyInputData => TrapKind::BattleInitCallBattleCopyInputData,
            Trap::BattleInitMarshalRet { .. } => TrapKind::BattleInitMarshalRet,
            Trap::BattleTurnMarshalRet { .. } => TrapKind::BattleTurnMarshalRet,
            Trap::MainReadJoyflags { .. } => TrapKind::MainReadJoyflags,
            Trap::BattleUpdateCallBattleCopyInputData => {
                TrapKind::BattleUpdateCallBattleCopyInputData
            },
            Trap::BattleRunUnpausedStepCmpRetval => TrapKind::BattleRunUnpausedStepCmpRetval,
            Trap::BattleStartRet => TrapKind::BattleStartRet,
            Trap::BattleEndingRet => TrapKind::BattleEndingRet,
            Trap::BattleIsP2Tst => TrapKind::BattleIsP2Tst,
            Trap::LinkIsP2Ret => TrapKind::LinkIsP2Ret,
            Trap::GetCopyDataInputStateRet => TrapKind::GetCopyDataInputStateRet,
            Trap::CommMenuHandleLinkCableInputEntry => TrapKind::CommMenuHandleLinkCableInputEntry,
            Trap::CommMenuWaitForFriendCallCommMenuHandleLinkCableInput => {
                TrapKind::CommMenuWaitForFriendCallCommMenuHandleLinkCableInput
            },
            Trap::CommMenuInitBattleEntry => TrapKind::CommMenuInitBattleEntry,
            Trap::CommMenuWaitForFriendRetCancel => TrapKind::CommMenuWaitForFriendRetCancel,
            Trap::CommMenuEndBattleEntry => TrapKind::CommMenuEndBattleEntry,
            Trap::CommMenuInBattleCallCommMenuHandleLinkCableInput => {
                TrapKind::CommMenuInBattleCallCommMenuHandleLinkCableInput
            },
        }
    }
}

/// The traps to install for a game, each with its address.
pub fn traps(o: &Offsets) -> (table: Vec<(u32, TrapKind)>)
    ensures
        table@ == trap_table(*o),
{
    let mut table: Vec<(u32, TrapKind)> = Vec::new();
    table.push(
        (o.battle_init_call_battle_copy_input_data, TrapKind::BattleInitCallBattleCopyInputData),
    );
    table.push((o.battle_init_marshal_ret, TrapKind::BattleInitMarshalRet));
    table.push((o.battle_turn_marshal_ret, TrapKind::BattleTurnMarshalRet));
    table.push((o.main_read_joyflags, TrapKind::MainReadJoyflags));
    table.push(
        (
            o.battle_update_call_battle_copy_input_data,
            TrapKind::BattleUpdateCallBattleCopyInputData,
        ),
    );
    table.push((o.battle_run_unpaused_step_cmp_retval, TrapKind::BattleRunUnpausedStepCmpRetval));
    table.push((o.battle_start_ret, TrapKind::BattleStartRet));
    table.push((o.battle_ending_ret, TrapKind::BattleEndingRet));
    table.push((o.battle_is_p2_tst, TrapKind::BattleIsP2Tst));
    table.push((o.link_is_p2_ret, TrapKind::LinkIsP2Ret));
    table.push((o.get_copy_data_input_state_ret, TrapKind::GetCopyDataInputStateRet));
    table.push(
        (o.comm_menu_handle_link_cable_input_entry, TrapKind::CommMenuHandleLinkCableInputEntry),
    );
    table.push(
        (
            o.comm_menu_wait_for_friend_call_comm_menu_handle_link_cable_input,
            TrapKind::CommMenuWaitForFriendCallCommMenuHandleLinkCableInput,
        ),
    );
    table.push((o.comm_menu_init_battle_entry, TrapKind::CommMenuInitBattleEntry));
    table.push((o.comm_menu_wait_for_friend_ret_cancel, TrapKind::CommMenuWaitForFriendRetCancel));
    table.push((o.comm_menu_end_battle_entry, TrapKind::CommMenuEndBattleEntry));
    table.push(
        (
            o.comm_menu_in_battle_call_comm_menu_handle_link_cable_input,
            TrapKind::CommMenuInBattleCallCommMenuHandleLinkCableInput,
        ),
    );
    assert(table@ =~= trap_table(*o));
    table
}

/// The traps that `table` lists for the address `pc`, in the order of the
/// table.
pub fn lookup(table: &Vec<(u32, TrapKind)>, pc: u32) -> (found: Vec<TrapKind>)
    ensures
        found@ == traps_at(table@, pc),
{
    let mut found: Vec<TrapKind> = Vec::new();
    let mut i: usize = 0;
    assert(table@.take(0) =~= Seq::<(u32, TrapKind)>::empty());
    while i < table.len()
        invariant
            i <= table@.len(),
            found@ == traps_at(table@.take(i as int), pc),
        decreases table@.len() - i,
    {
        assert(table@.take(i + 1).drop_last() =~= table@.take(i as int));
        if table[i].0 == pc {
            found.push(table[i].1);
        }
        i += 1;
    }
    assert(table@.take(table@.len() as int) =~= table@);
    found
}

/// The buttons of the handheld, each held or not.
#[derive(Clone, Copy, Debug, PartialEq, Eq, Structural)]
pub struct Buttons {
    pub a: bool,
    pub b: bool,
    pub select: bool,
    pub start: bool,
    pub right: bool,
    pub left: bool,
    pub up: bool,
    pub down: bool,
    pub r: bool,
    pub l: bool,
}

/// The bit of each button in the key mask.
pub const KEY_A: u32 = 0x001;

pub const KEY_B: u32 = 0x002;

pub const KEY_SELECT: u32 = 0x004;

pub const KEY_START: u32 = 0x008;

pub const KEY_RIGHT: u32 = 0x010;

pub const KEY_LEFT: u32 = 0x020;

pub const KEY_UP: u32 = 0x040;

pub const KEY_DOWN: u32 = 0x080;

pub const KEY_R: u32 = 0x100;

pub const KEY_L: u32 = 0x200;

/// The bit of a key where it is held, nothing where it is not.
pub open spec fn bit(held: bool, key: u32) -> u32 {
    if held {
        key
    } else {
        0
    }
}

/// The key mask of the buttons held: one bit per button.
pub open spec fn keys_of(b: Buttons) -> u32 {
    (bit(b.a, KEY_A) + bit(b.b, KEY_B) + bit(b.select, KEY_SELECT) + bit(b.start, KEY_START)
        + bit(b.right, KEY_RIGHT) + bit(b.left, KEY_LEFT) + bit(b.up, KEY_UP) + bit(
        b.down,
        KEY_DOWN,
    ) + bit(b.r, KEY_R) + bit(b.l, KEY_L)) as u32
}

impl Buttons {
    /// The key mask to hand to the emulator.
    pub fn keys(&self) -> (keys: u32)
        ensures
            keys == keys_of(*self),
            keys < 0x400,
    {
        let mut keys: u32 = 0;
        if self.a {
            keys = keys + KEY_A;
        }
        if self.b {
            keys = keys + KEY_B;
        }
        if self.select {
            keys = keys + KEY_SELECT;
        }
        if self.start {
            keys = keys + KEY_START;
        }
        if self.right {
            keys = keys + KEY_RIGHT;
        }
        if self.left {
            keys = keys + KEY_LEFT;
        }
        if self.up {
            keys = keys + KEY_UP;
        }
        if self.down {
            keys = keys + KEY_DOWN;
        }
        if self.r {
            keys = keys + KEY_R;
        }
        if self.l {
            keys = keys + KEY_L;
        }
        keys
    }
}

} // verus!
