use tango::arm_core::{ARMCoreMutRef, ARM_PC};
use tango::audio::{pcm_bytes, SampleBuffer};
use tango::battle::{Match, Stage};
use tango::encoder::{audio_args, mux_args, video_args, video_args_from, Arg, BadFlags};
use tango::fastforwarder::State;
use tango::game::{
    lookup, skip_call_exec, traps, BattleSettings, Buttons, Effect, Game, Offsets, Trap, TrapKind,
};
use tango::handshake::NegotiationError;
use tango::input::{Input, Pair};
use tango::video::copy_opaque;

fn show(effects: &[Effect]) -> Vec<String> {
    effects
        .iter()
        .map(|e| match e {
            Effect::WriteMarshaledState { player, marshaled } => {
                format!("turn {} {}", player, marshaled[0])
            }
            Effect::Record(pair) => format!("record {} {}", pair.local.joyflags, pair.remote.joyflags),
            Effect::SendInput(input) => format!(
                "send {} {} {} {}",
                input.local_tick,
                input.remote_tick,
                input.joyflags,
                input.turn.map(|t| t[0] as i32).unwrap_or(-1)
            ),
            other => format!("{:?}", other),
        })
        .collect()
}

fn texts(args: &[Arg]) -> Vec<String> {
    args.iter()
        .map(|a| match a {
            Arg::Text(s) => s.clone(),
            Arg::VideoFile => "<video>".to_string(),
            Arg::AudioFile => "<audio>".to_string(),
            Arg::OutputFile => "<output>".to_string(),
        })
        .collect()
}

fn input(tick: u32, joyflags: u16, turn: Option<u8>) -> Input {
    Input {
        local_tick: tick,
        remote_tick: 0,
        joyflags,
        custom_screen_state: 2,
        turn: turn.map(|b| [b; 256]),
    }
}

fn settings(is_p2: bool, delay: u32) -> BattleSettings {
    BattleSettings { is_p2, local_delay: delay, remote_delay: delay, capacity: 8 }
}

fn new_game() -> Game {
    Game::new(settings(false, 0))
}

fn game_in_battle(is_p2: bool, delay: u32) -> Game {
    let mut m = Match::new(b"s".to_vec(), 0, b"T".to_vec(), 0);
    m.negotiated([0u8; 16]);
    let mut g = Game::new(settings(is_p2, delay));
    g.open_match(m);
    assert_eq!(
        show(&g.on_trap(Trap::CommMenuInBattleCallCommMenuHandleLinkCableInput, 0)),
        vec!["SetPc(4)"]
    );
    g
}

const WAIT: Trap = Trap::CommMenuWaitForFriendCallCommMenuHandleLinkCableInput;

#[test]
fn skipping_a_call_adds_four_and_wraps() {
    assert_eq!(skip_call_exec(0x0800_0100), 0x0800_0104);
    assert_eq!(skip_call_exec(u32::MAX - 4), u32::MAX);
    assert_eq!(skip_call_exec(u32::MAX - 3), 0);
    assert_eq!(skip_call_exec(u32::MAX), 3);
}

#[test]
fn battle_traps_do_nothing_without_a_match() {
    let mut g = new_game();
    for trap in [
        Trap::BattleInitCallBattleCopyInputData,
        Trap::BattleUpdateCallBattleCopyInputData,
        Trap::BattleIsP2Tst,
        Trap::LinkIsP2Ret,
        Trap::BattleStartRet,
        Trap::BattleEndingRet,
        Trap::CommMenuInitBattleEntry,
        Trap::CommMenuEndBattleEntry,
        Trap::GetCopyDataInputStateRet,
        Trap::BattleRunUnpausedStepCmpRetval,
    ] {
        assert!(g.on_trap(trap, 0x100).is_empty());
    }
    assert!(g.resume().is_empty());
    assert!(g.lock_match().is_none());
}

#[test]
fn menu_opens_a_match_and_polls_it() {
    let mut g = new_game();
    assert_eq!(show(&g.on_trap(WAIT, 0x100)), vec!["SetPc(260)", "OpenMatch"]);
    g.open_match(Match::new(b"s".to_vec(), 0, b"T".to_vec(), 0));
    assert_eq!(show(&g.on_trap(WAIT, 0x100)), vec!["SetPc(260)"]);
    g.lock_match().as_mut().unwrap().negotiated([0u8; 16]);
    assert_eq!(show(&g.on_trap(WAIT, 0x100)), vec!["SetPc(260)", "StartBattleFromCommMenu"]);
    g.lock_match().as_mut().unwrap().negotiation_failed(NegotiationError::ChannelClosed);
    assert_eq!(
        show(&g.on_trap(WAIT, 0x100)),
        vec!["SetPc(260)", "DropMatchmakingFromCommMenu { error_code: 0 }"]
    );
    g.lock_match().as_mut().unwrap().negotiated([0u8; 16]);
    g.lock_match().as_mut().unwrap().abort();
    assert_eq!(
        show(&g.on_trap(WAIT, 0x100)),
        vec!["SetPc(260)", "DropMatchmakingFromCommMenu { error_code: 0 }"]
    );
}

#[test]
fn cancel_drops_the_match() {
    let mut g = new_game();
    assert_eq!(show(&g.on_trap(Trap::CommMenuWaitForFriendRetCancel, 8)), vec!["SetPc(12)"]);
    g.open_match(Match::new(b"s".to_vec(), 0, b"T".to_vec(), 0));
    assert_eq!(
        show(&g.on_trap(Trap::CommMenuWaitForFriendRetCancel, 8)),
        vec!["CancelMatch", "SetPc(12)"]
    );
    assert!(g.lock_match().is_none());
}

#[test]
fn link_cable_calls_are_skipped() {
    let mut g = game_in_battle(false, 0);
    assert_eq!(show(&g.on_trap(Trap::CommMenuHandleLinkCableInputEntry, 4)), vec!["SetPc(8)"]);
    assert_eq!(
        show(&g.on_trap(Trap::CommMenuInBattleCallCommMenuHandleLinkCableInput, 4)),
        vec!["SetPc(8)"]
    );
    assert_eq!(show(&g.on_trap(Trap::BattleInitCallBattleCopyInputData, 4)), vec!["SetPc(8)"]);
    let mut g = new_game();
    assert_eq!(
        show(&g.on_trap(Trap::CommMenuInBattleCallCommMenuHandleLinkCableInput, 4)),
        vec!["SetPc(8)"]
    );
    assert!(g.lock_match().is_none());
}

#[test]
fn a_battle_is_created_when_the_link_cable_is_polled_in_battle() {
    let poll = Trap::CommMenuInBattleCallCommMenuHandleLinkCableInput;
    let number = |g: &mut Game| g.lock_match().as_ref().unwrap().battle_number();
    let stage = |g: &mut Game| g.lock_match().as_ref().unwrap().battle().map(|b| b.stage());
    let mut g = Game::new(settings(true, 3));
    assert_eq!(g.settings(), settings(true, 3));
    g.open_match(Match::new(b"s".to_vec(), 0, b"T".to_vec(), 0));
    g.on_trap(poll, 0);
    assert_eq!(stage(&mut g), None);
    g.lock_match().as_mut().unwrap().negotiated([0u8; 16]);
    g.on_trap(poll, 0);
    assert_eq!(stage(&mut g), Some(Stage::Initializing));
    assert_eq!(number(&mut g), 1);
    {
        let slot = g.lock_match();
        let battle = slot.as_ref().unwrap().battle().unwrap();
        assert_eq!(battle.local_player_index(), 1);
        assert_eq!((battle.local_delay(), battle.remote_delay()), (3, 3));
    }
    g.on_trap(poll, 0);
    assert_eq!(number(&mut g), 1);
    g.on_trap(Trap::BattleUpdateCallBattleCopyInputData, 0);
    g.on_trap(Trap::BattleEndingRet, 0);
    g.on_trap(poll, 0);
    assert_eq!((number(&mut g), stage(&mut g)), (1, Some(Stage::Ending)));
    g.on_trap(Trap::BattleStartRet, 0);
    assert_eq!(stage(&mut g), Some(Stage::Over));
    g.on_trap(poll, 0);
    assert_eq!((number(&mut g), stage(&mut g)), (2, Some(Stage::Initializing)));
    g.lock_match().as_mut().unwrap().abort();
    g.on_trap(poll, 0);
    assert_eq!((number(&mut g), stage(&mut g)), (2, Some(Stage::Over)));
}

#[test]
fn trap_table_lists_every_trap_at_its_address() {
    let offsets = Offsets {
        battle_init_call_battle_copy_input_data: 0x100,
        battle_init_marshal_ret: 0x104,
        battle_turn_marshal_ret: 0x108,
        main_read_joyflags: 0x10c,
        battle_update_call_battle_copy_input_data: 0x110,
        battle_run_unpaused_step_cmp_retval: 0x114,
        battle_start_ret: 0x118,
        battle_ending_ret: 0x11c,
        battle_is_p2_tst: 0x120,
        link_is_p2_ret: 0x124,
        get_copy_data_input_state_ret: 0x128,
        comm_menu_handle_link_cable_input_entry: 0x12c,
        comm_menu_wait_for_friend_call_comm_menu_handle_link_cable_input: 0x130,
        comm_menu_init_battle_entry: 0x134,
        comm_menu_wait_for_friend_ret_cancel: 0x138,
        comm_menu_end_battle_entry: 0x134,
        comm_menu_in_battle_call_comm_menu_handle_link_cable_input: 0x140,
    };
    let table = traps(&offsets);
    assert_eq!(table.len(), 17);
    assert_eq!(table[0], (0x100, TrapKind::BattleInitCallBattleCopyInputData));
    assert_eq!(table[16], (0x140, TrapKind::CommMenuInBattleCallCommMenuHandleLinkCableInput));
    assert_eq!(lookup(&table, 0x10c), vec![TrapKind::MainReadJoyflags]);
    assert_eq!(lookup(&table, 0x120), vec![TrapKind::BattleIsP2Tst]);
    assert_eq!(
        lookup(&table, 0x134),
        vec![TrapKind::CommMenuInitBattleEntry, TrapKind::CommMenuEndBattleEntry]
    );
    assert!(lookup(&table, 0x13c).is_empty());
    assert!(lookup(&Vec::new(), 0x100).is_empty());
    for (address, kind) in &table {
        assert!(lookup(&table, *address).contains(kind));
    }
    assert_eq!(Trap::BattleTurnMarshalRet { marshaled: [0; 256] }.kind(), TrapKind::BattleTurnMarshalRet);
    assert_eq!(
        Trap::MainReadJoyflags { local_tick: 0, joyflags: 0, custom_screen_state: 0 }.kind(),
        TrapKind::MainReadJoyflags
    );
    assert_eq!(Trap::LinkIsP2Ret.kind(), TrapKind::LinkIsP2Ret);
}

#[test]
fn player_index_goes_into_register_zero() {
    let mut g = game_in_battle(false, 0);
    assert_eq!(show(&g.on_trap(Trap::BattleIsP2Tst, 0)), vec!["SetGpr { reg: 0, value: 0 }"]);
    let mut g = game_in_battle(true, 0);
    assert_eq!(show(&g.on_trap(Trap::LinkIsP2Ret, 0)), vec!["SetGpr { reg: 0, value: 1 }"]);
}

#[test]
fn trap_that_needs_a_battle_aborts_a_match_without_one() {
    let mut g = new_game();
    g.open_match(Match::new(b"s".to_vec(), 0, b"T".to_vec(), 0));
    assert!(g.on_trap(Trap::BattleEndingRet, 0).is_empty());
    assert!(!g.lock_match().as_ref().unwrap().aborted());
    assert!(g.on_trap(Trap::BattleIsP2Tst, 0).is_empty());
    assert!(g.lock_match().as_ref().unwrap().aborted());
    let mut g = game_in_battle(false, 0);
    g.lock_match().as_mut().unwrap().abort();
    assert!(g.on_trap(Trap::BattleIsP2Tst, 0).is_empty());
    assert!(g.on_trap(Trap::BattleUpdateCallBattleCopyInputData, 0).is_empty());
    assert!(g.resume().is_empty());
}

#[test]
fn first_input_trap_starts_the_battle_and_waits_for_a_pair() {
    let mut g = game_in_battle(false, 0);
    assert!(g.on_trap(Trap::MainReadJoyflags { local_tick: 0, joyflags: 1, custom_screen_state: 0 }, 0).is_empty());
    assert_eq!(
        show(&g.on_trap(Trap::BattleUpdateCallBattleCopyInputData, 0x20)),
        vec!["SetPc(36)", "CaptureState", "AwaitInput"]
    );
    let stage = g.lock_match().as_ref().unwrap().battle().unwrap().stage();
    assert_eq!(stage, Stage::AcceptingInput);
    assert_eq!(
        show(&g.on_trap(Trap::BattleUpdateCallBattleCopyInputData, 0x20)),
        vec!["SetPc(36)", "AwaitInput"]
    );
    assert_eq!(show(&g.resume()), vec!["AwaitInput"]);
}

#[test]
fn a_tick_is_sent_committed_recorded_and_written() {
    let mut g = game_in_battle(true, 0);
    g.on_trap(Trap::BattleUpdateCallBattleCopyInputData, 0);
    g.on_trap(Trap::BattleTurnMarshalRet { marshaled: [9u8; 256] }, 0);
    assert_eq!(
        show(&g.on_trap(
            Trap::MainReadJoyflags { local_tick: 7, joyflags: 0x11, custom_screen_state: 2 },
            0
        )),
        vec!["send 7 0 17 9"]
    );
    assert_eq!(show(&g.resume()), vec!["AwaitInput"]);
    let slot = g.lock_match();
    let m = slot.as_mut().unwrap();
    assert!(m.lock_battle().as_mut().unwrap().add_remote_input(input(7, 0x22, None)));
    assert_eq!(
        show(&g.resume()),
        vec![
            "record 17 34",
            "WriteInputState { player: 0, joyflags: 34, custom_screen_state: 2 }",
            "WriteInputState { player: 1, joyflags: 17, custom_screen_state: 2 }",
            "turn 1 9",
        ]
    );
    assert_eq!(show(&g.resume()), vec!["AwaitInput"]);
    assert_eq!(
        show(&g.on_trap(
            Trap::MainReadJoyflags { local_tick: 8, joyflags: 0, custom_screen_state: 0 },
            0
        )),
        vec!["send 8 7 0 -1"]
    );
}

#[test]
fn battle_end_traps_move_the_stage() {
    let mut g = game_in_battle(false, 0);
    g.on_trap(Trap::BattleStartRet, 0);
    let stage = |g: &mut Game| g.lock_match().as_ref().unwrap().battle().unwrap().stage();
    assert_eq!(stage(&mut g), Stage::Initializing);
    g.on_trap(Trap::BattleEndingRet, 0);
    assert_eq!(stage(&mut g), Stage::Ending);
    assert!(g
        .on_trap(Trap::MainReadJoyflags { local_tick: 0, joyflags: 0, custom_screen_state: 0 }, 0)
        .is_empty());
    g.on_trap(Trap::BattleStartRet, 0);
    assert_eq!(stage(&mut g), Stage::Over);
    g.on_trap(Trap::BattleEndingRet, 0);
    assert_eq!(stage(&mut g), Stage::Over);
}

#[test]
fn buttons_map_to_the_key_mask() {
    let none = Buttons {
        a: false,
        b: false,
        select: false,
        start: false,
        right: false,
        left: false,
        up: false,
        down: false,
        r: false,
        l: false,
    };
    assert_eq!(none.keys(), 0);
    assert_eq!(Buttons { a: true, ..none }.keys(), 0x001);
    assert_eq!(Buttons { b: true, ..none }.keys(), 0x002);
    assert_eq!(Buttons { select: true, ..none }.keys(), 0x004);
    assert_eq!(Buttons { start: true, ..none }.keys(), 0x008);
    assert_eq!(Buttons { right: true, ..none }.keys(), 0x010);
    assert_eq!(Buttons { left: true, ..none }.keys(), 0x020);
    assert_eq!(Buttons { up: true, ..none }.keys(), 0x040);
    assert_eq!(Buttons { down: true, ..none }.keys(), 0x080);
    assert_eq!(Buttons { r: true, ..none }.keys(), 0x100);
    assert_eq!(Buttons { l: true, ..none }.keys(), 0x200);
    assert_eq!(Buttons { a: true, left: true, l: true, ..none }.keys(), 0x221);
    let all = Buttons {
        a: true,
        b: true,
        select: true,
        start: true,
        right: true,
        left: true,
        up: true,
        down: true,
        r: true,
        l: true,
    };
    assert_eq!(all.keys(), 0x3ff);
}

#[test]
fn fast_forward_plays_the_record_in_order_and_says_when_it_is_done() {
    let pairs = vec![
        Pair { local: input(0, 1, None), remote: input(0, 2, Some(5)) },
        Pair { local: input(1, 3, None), remote: input(1, 4, None) },
    ];
    let mut ff = State::new(1, pairs);
    assert_eq!(ff.local_player_index(), 1);
    assert_eq!(ff.inputs_pairs_left(), 2);
    assert_eq!(show(&ff.on_trap(Trap::BattleIsP2Tst, 0)), vec!["SetGpr { reg: 0, value: 1 }"]);
    assert_eq!(show(&ff.on_trap(Trap::CommMenuHandleLinkCableInputEntry, 0)), vec!["SetPc(4)"]);
    assert!(ff
        .on_trap(Trap::MainReadJoyflags { local_tick: 0, joyflags: 9, custom_screen_state: 0 }, 0)
        .is_empty());
    assert_eq!(
        show(&ff.on_trap(Trap::BattleUpdateCallBattleCopyInputData, 0x10)),
        vec![
            "SetPc(20)",
            "WriteInputState { player: 0, joyflags: 2, custom_screen_state: 2 }",
            "turn 0 5",
            "WriteInputState { player: 1, joyflags: 1, custom_screen_state: 2 }",
        ]
    );
    assert_eq!(ff.inputs_pairs_left(), 1);
    assert_eq!(
        show(&ff.on_trap(Trap::BattleUpdateCallBattleCopyInputData, 0x10)),
        vec![
            "SetPc(20)",
            "WriteInputState { player: 0, joyflags: 4, custom_screen_state: 2 }",
            "WriteInputState { player: 1, joyflags: 3, custom_screen_state: 2 }",
            "Done",
        ]
    );
    assert_eq!(ff.inputs_pairs_left(), 0);
    assert_eq!(
        show(&ff.on_trap(Trap::BattleUpdateCallBattleCopyInputData, 0x10)),
        vec!["SetPc(20)", "Done"]
    );
    assert!(ff.pop_input_pair().is_none());
}

#[test]
fn fast_forward_as_player_one_writes_local_first() {
    let mut ff = State::new(0, vec![Pair { local: input(0, 1, None), remote: input(0, 2, None) }]);
    assert_eq!(
        show(&ff.on_trap(Trap::BattleUpdateCallBattleCopyInputData, 0)),
        vec![
            "SetPc(4)",
            "WriteInputState { player: 0, joyflags: 1, custom_screen_state: 2 }",
            "WriteInputState { player: 1, joyflags: 2, custom_screen_state: 2 }",
            "Done",
        ]
    );
}

#[test]
fn setting_the_pc_aligns_it_and_runs_one_instruction_ahead() {
    let mut gprs = [0i32; 16];
    gprs[3] = -5;
    let mut core = ARMCoreMutRef::new(gprs);
    core.set_gpr(0, 42);
    assert_eq!(core.as_ref().gpr(0), 42);
    assert_eq!(core.as_ref().gpr(3), -5);
    let prefetch = core.set_pc(0x0800_0101);
    assert_eq!(prefetch.region, 0x0800_0100);
    assert_eq!(prefetch.addresses, [0x0800_0100, 0x0800_0102]);
    assert_eq!(core.as_ref().gpr(ARM_PC), 0x0800_0102);
    assert_eq!(core.gprs()[0], 42);
    let prefetch = core.set_pc(0xffff_ffff);
    assert_eq!(prefetch.addresses, [0xffff_fffe, 0]);
    assert_eq!(core.as_ref().gpr(ARM_PC), 0);
    core.set_pc(0x8000_0000);
    assert_eq!(core.as_ref().gpr(ARM_PC), i32::MIN + 2);
}

#[test]
fn samples_become_little_endian_pcm() {
    assert_eq!(pcm_bytes(&[]), Vec::<u8>::new());
    assert_eq!(
        pcm_bytes(&[1, -2, 0x1234, i16::MIN, i16::MAX]),
        vec![0x01, 0x00, 0xfe, 0xff, 0x34, 0x12, 0x00, 0x80, 0xff, 0x7f]
    );
}

#[test]
fn short_blocks_are_filled_with_silence() {
    let mut b = SampleBuffer::new(8);
    assert!(!b.is_exhausted());
    for _ in 0..8 {
        assert_eq!(b.next_sample(), Some(0));
    }
    assert!(b.is_exhausted());
    assert_eq!(b.next_sample(), None);
    b.load(&[1, 2, 3], &[-1, -2]);
    let mut played = Vec::new();
    while let Some(s) = b.next_sample() {
        played.push(s);
    }
    assert_eq!(played, vec![1, -1, 2, -2, 0, 0, 0, 0]);
    b.load(&[1, 2, 3, 4, 5, 6], &[7, 8, 9, 10, 11]);
    let mut played = Vec::new();
    while let Some(s) = b.next_sample() {
        played.push(s);
    }
    assert_eq!(played, vec![1, 7, 2, 8, 3, 9, 4, 10]);
    b.load(&[], &[]);
    assert_eq!(b.next_sample(), Some(0));
    let mut odd = SampleBuffer::new(3);
    odd.load(&[5, 6], &[7, 8]);
    assert_eq!(
        (odd.next_sample(), odd.next_sample(), odd.next_sample(), odd.next_sample()),
        (Some(5), Some(7), Some(0), None)
    );
    assert!(SampleBuffer::new(0).is_exhausted());
}

#[test]
fn frames_are_copied_opaque() {
    let mut shown = vec![1, 2, 3];
    copy_opaque(&[10, 20, 30, 40, 50, 60, 70, 0], &mut shown);
    assert_eq!(shown, vec![10, 20, 30, 255, 50, 60, 70, 255]);
    copy_opaque(&[1, 2, 3, 4, 5], &mut shown);
    assert_eq!(shown, vec![1, 2, 3, 255, 5]);
    copy_opaque(&[], &mut shown);
    assert!(shown.is_empty());
}

#[test]
fn encoder_command_lines_wrap_the_users_flags() {
    assert_eq!(
        texts(&video_args("-c:v libx264 -vf 'scale=iw*5:ih*5, format=yuv420p' -crf 18").unwrap()),
        vec![
            "-y", "-f", "rawvideo", "-pixel_format", "rgba", "-video_size", "240x160",
            "-framerate", "16777216/280896", "-i", "pipe:", "-c:v", "libx264", "-vf",
            "scale=iw*5:ih*5, format=yuv420p", "-crf", "18", "-f", "mp4", "<video>",
        ]
    );
    assert_eq!(
        texts(&audio_args("-c:a aac -ar 48000").unwrap()),
        vec![
            "-y", "-f", "s16le", "-ar", "48k", "-ac", "2", "-i", "pipe:", "-c:a", "aac", "-ar",
            "48000", "-f", "mp4", "<audio>",
        ]
    );
    assert_eq!(
        texts(&mux_args("-movflags +faststart").unwrap()),
        vec![
            "-y", "-i", "<video>", "-i", "<audio>", "-c:v", "copy", "-c:a", "copy", "-movflags",
            "+faststart", "<output>",
        ]
    );
    assert_eq!(texts(&mux_args("").unwrap()).len(), 10);
    assert_eq!(
        texts(&video_args_from(&vec!["a b".to_string()]))[11..],
        ["a b", "-f", "mp4", "<video>"].map(String::from)
    );
}

#[test]
fn unclosed_quote_is_refused() {
    assert_eq!(video_args("-vf 'oops").err(), Some(BadFlags));
    assert_eq!(audio_args("\"").err(), Some(BadFlags));
    assert_eq!(mux_args("a 'b").err(), Some(BadFlags));
}
