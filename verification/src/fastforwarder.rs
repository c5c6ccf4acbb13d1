//! Playing a recorded battle again, as fast as the emulator goes.
//!
//! The fast-forwarder stands in for the network: where the live game would
//! wait for the next committed pair, it takes the next pair off the record.
//! Once the record is used up it tells the caller that it is done.

use crate::battle::by_player;
use crate::game::{input_writes, push_input_writes, skip_call, skip_call_exec, Effect, Trap};
use crate::input::{Input, Pair};
use vstd::prelude::*;

verus! {

/// Mathematical state of a fast-forward: who the local player was, and the
/// pairs still to play.
pub struct Playback {
    pub local_player_index: u8,
    pub pairs: Seq<Pair<Input>>,
}

impl Playback {
    /// Whether the local player was player 2.
    pub open spec fn is_p2(self) -> bool {
        self.local_player_index == 1
    }

    /// What the caller does when the emulator asks for a tick's inputs: the
    /// next pair is written out, and the caller is told once none is left.
    pub open spec fn feed(self, r15: u32) -> (Playback, Seq<Effect>) {
        let skip = seq![Effect::SetPc(skip_call(r15))];
        if self.pairs.len() == 0 {
            (self, skip.push(Effect::Done))
        } else {
            let writes = input_writes(by_player(self.is_p2(), self.pairs[0]));
            (
                Playback { pairs: self.pairs.drop_first(), ..self },
                if self.pairs.len() == 1 {
                    (skip + writes).push(Effect::Done)
                } else {
                    skip + writes
                },
            )
        }
    }

    /// The state after a trap, and what the caller does.
    pub open spec fn on_trap(self, trap: Trap, r15: u32) -> (Playback, Seq<Effect>) {
        match trap {
            Trap::BattleUpdateCallBattleCopyInputData => self.feed(r15),
            Trap::BattleIsP2Tst | Trap::LinkIsP2Ret => (
                self,
                seq![Effect::SetGpr { reg: 0, value: self.local_player_index as i32 }],
            ),
            Trap::BattleInitCallBattleCopyInputData
            | Trap::CommMenuHandleLinkCableInputEntry
            | Trap::CommMenuWaitForFriendCallCommMenuHandleLinkCableInput
            | Trap::CommMenuInBattleCallCommMenuHandleLinkCableInput => (
                self,
                seq![Effect::SetPc(skip_call(r15))],
            ),
            _ => (self, Seq::empty()),
        }
    }

    /// The state after the emulator has asked for inputs `ticks` times.
    pub open spec fn after_ticks(self, ticks: nat, r15: u32) -> Playback
        decreases ticks,
    {
        if ticks == 0 {
            self
        } else {
            self.feed(r15).0.after_ticks((ticks - 1) as nat, r15)
        }
    }
}

/// Tick `k` of a fast-forward plays pair `k` of the record, whatever was
/// played before, and the caller is told that the record is used up exactly
/// on its last pair and on every tick after it.
pub proof fn law_playback_in_order(p: Playback, k: nat, r15: u32)
    ensures
        ({
            let at = p.after_ticks(k, r15);
            let out = at.feed(r15).1;
            &&& at.local_player_index == p.local_player_index
            &&& at.pairs == if k <= p.pairs.len() {
                p.pairs.skip(k as int)
            } else {
                Seq::empty()
            }
            &&& k < p.pairs.len() ==> out.subrange(
                1,
                1 + input_writes(by_player(p.is_p2(), p.pairs[k as int])).len() as int,
            ) == input_writes(by_player(p.is_p2(), p.pairs[k as int]))
            &&& out[0] == Effect::SetPc(skip_call(r15))
            &&& (out.last() == Effect::Done) <==> k + 1 >= p.pairs.len()
        }),
    decreases k,
{
    if k == 0 {
        assert(p.pairs.skip(0) =~= p.pairs);
    } else {
        let next = p.feed(r15).0;
        law_playback_in_order(next, (k - 1) as nat, r15);
        if p.pairs.len() > 0 {
            if k <= p.pairs.len() {
                assert(p.pairs.drop_first().skip(k - 1) =~= p.pairs.skip(k as int));
            }
        }
    }
    let at = p.after_ticks(k, r15);
    let out = at.feed(r15).1;
    if k < p.pairs.len() {
        let writes = input_writes(by_player(p.is_p2(), p.pairs[k as int]));
        assert(at.pairs[0] == p.pairs[k as int]);
        assert(out.subrange(1, 1 + writes.len() as int) =~= writes);
        assert(writes.len() >= 2);
    }
}

/// A fast-forward in progress.
pub struct State {
    local_player_index: u8,
    input_pairs: Vec<Pair<Input>>,
    next: usize,
}

impl View for State {
    type V = Playback;

    closed spec fn view(&self) -> Playback {
        Playback {
            local_player_index: self.local_player_index,
            pairs: self.input_pairs@.skip(self.next as int),
        }
    }
}

impl State {
    #[verifier::type_invariant]
    spec fn cursor_in_range(self) -> bool {
        self.next <= self.input_pairs@.len()
    }

    /// A fast-forward over `input_pairs`, oldest first.
    pub fn new(local_player_index: u8, input_pairs: Vec<Pair<Input>>) -> (state: Self)
        ensures
            state@ == (Playback { local_player_index, pairs: input_pairs@ }),
    {
        let state = State { local_player_index, input_pairs, next: 0 };
        assert(state@.pairs =~= input_pairs@);
        state
    }

    /// The index that the local player had in the recorded battle.
    pub fn local_player_index(&self) -> (index: u8)
        ensures
            index == self@.local_player_index,
    {
        self.local_player_index
    }

    /// Number of pairs still to play.
    pub fn inputs_pairs_left(&self) -> (n: usize)
        ensures
            n == self@.pairs.len(),
    {
        proof {
            use_type_invariant(self);
        }
        self.input_pairs.len() - self.next
    }

    /// Takes the next pair off the record.
    pub fn pop_input_pair(&mut self) -> (pair: Option<Pair<Input>>)
        ensures
            final(self)@.local_player_index == old(self)@.local_player_index,
            match pair {
                Some(p) => {
                    &&& old(self)@.pairs.len() > 0
                    &&& p == old(self)@.pairs[0]
                    &&& final(self)@.pairs == old(self)@.pairs.drop_first()
                },
                None => old(self)@.pairs.len() == 0 && final(self)@ == old(self)@,
            },
    {
        proof {
            use_type_invariant(&*self);
        }
        if self.next < self.input_pairs.len() {
            let pair = self.input_pairs[self.next];
            self.next = self.next + 1;
            assert(self@.pairs =~= old(self)@.pairs.drop_first());
            Some(pair)
        } else {
            None
        }
    }

    /// The emulator has stopped at `trap` with `r15` in its program counter.
    /// Returns what the caller is to do, in order.
    pub fn on_trap(&mut self, trap: Trap, r15: u32) -> (effects: Vec<Effect>)
        ensures
            final(self)@ == old(self)@.on_trap(trap, r15).0,
            effects@ == old(self)@.on_trap(trap, r15).1,
    {
        let mut effects: Vec<Effect> = Vec::new();
        match trap {
            Trap::BattleUpdateCallBattleCopyInputData => {
                effects.push(Effect::SetPc(skip_call_exec(r15)));
                let is_p2 = self.local_player_index == 1;
                match self.pop_input_pair() {
                    Some(pair) => {
                        let inputs = if is_p2 {
                            [pair.remote, pair.local]
                        } else {
                            [pair.local, pair.remote]
                        };
                        push_input_writes(&mut effects, &inputs);
                        if self.inputs_pairs_left() == 0 {
                            effects.push(Effect::Done);
                        }
                    },
                    None => {
                        effects.push(Effect::Done);
                    },
                }
            },
            Trap::BattleIsP2Tst | Trap::LinkIsP2Ret => {
                effects.push(Effect::SetGpr { reg: 0, value: self.local_player_index as i32 });
            },
            Trap::BattleInitCallBattleCopyInputData
            | Trap::CommMenuHandleLinkCableInputEntry
            | Trap::CommMenuWaitForFriendCallCommMenuHandleLinkCableInput
            | Trap::CommMenuInBattleCallCommMenuHandleLinkCableInput => {
                effects.push(Effect::SetPc(skip_call_exec(r15)));
            },
            _ => {},
        }
        assert(effects@ =~= old(self)@.on_trap(trap, r15).1);
        effects
    }
}

} // verus!
