use shin::command::{Command, CommandResult};
use shin::dispatch::{CommandStartResult, ExecutingCommand, StartableCommand, UpdatableCommand};
use shin::flags::Warning;
use shin::live::LiveState;
use shin::scheduler::Scheduler;
use shin::state::{CommittedState, VLayerId, PROPERTY_COUNT};
use shin::types::{LayerType, MessageboxStyle, Pan, ValidationError, Volume};

fn load(layer: u32) -> Command {
    Command::LAYERLOAD { layer, layer_type: LayerType::Picture }
}

fn ctrl(layer: VLayerId, property: u32, target: i32, time: i32, flags: i32) -> Command {
    Command::LAYERCTRL { layer, property, target, time, flags, easing_param: 0 }
}

fn prop(s: &CommittedState, l: u32, p: u32) -> i32 {
    s.properties[(l * PROPERTY_COUNT + p) as usize]
}

fn live_value(s: &Scheduler, l: u32, p: u32) -> i32 {
    s.live.layer_tweeners[(l * PROPERTY_COUNT + p) as usize].value()
}

fn same_committed(a: &CommittedState, b: &CommittedState) -> bool {
    a.layers == b.layers
        && a.properties == b.properties
        && a.current_layer == b.current_layer
        && a.select_low == b.select_low
        && a.select_high == b.select_high
        && a.se == b.se
        && a.variables == b.variables
        && a.messagebox == b.messagebox
        && a.message_id == b.message_id
}

#[test]
fn canonical_mutation_is_deterministic() {
    let log = vec![
        load(2),
        ctrl(VLayerId::Layer(2), 4, 77, 10, 0),
        Command::SSET { index: 5, value: -9 },
    ];
    let mut a = CommittedState::new();
    let mut b = CommittedState::new();
    for c in &log {
        a.apply(c).unwrap();
        b.apply(c).unwrap();
    }
    assert!(same_committed(&a, &b));
    assert_eq!(prop(&a, 2, 4), 77);
    assert_eq!(a.variables[5], -9);
}

#[test]
fn fast_forward_replay_matches_live_run() {
    let log = vec![
        load(1),
        load(3),
        Command::LAYERSELECT { low: 0, high: 10 },
        ctrl(VLayerId::Selected, 2, 40, 30, 0),
        Command::WAIT { ticks: 4 },
        Command::MSGINIT { style: MessageboxStyle::default() },
        Command::MSGSET { message_id: 12, text_len: 5 },
        Command::SEPLAY { slot: 2, volume: Volume(500), pan: Pan(0), fade_in: 3, loop_start: None },
        Command::SEPAN { slot: 2, pan: Pan(-200), fade_in_time: 2 },
        Command::LAYERUNLOAD { layer: VLayerId::Layer(3) },
    ];
    let mut live = Scheduler::new();
    assert_eq!(live.run_log(&log), Ok(log.len()));
    let mut replayed = CommittedState::new();
    assert_eq!(replayed.replay(&log), Ok(()));
    assert!(same_committed(&live.committed, &replayed));
    assert_eq!(prop(&replayed, 1, 2), 40);
    assert_eq!(replayed.layers[3], None);
    assert_eq!(replayed.message_id, Some(12));
    assert_eq!(replayed.se[2].unwrap().pan, Pan(-200));
}

#[test]
fn run_log_stops_at_exit() {
    let log = vec![Command::SSET { index: 1, value: 1 }, Command::EXIT, Command::SSET { index: 1, value: 2 }];
    let mut s = Scheduler::new();
    assert_eq!(s.run_log(&log), Ok(2));
    assert!(s.exited);
    assert_eq!(s.committed.variables[1], 1);
}

#[test]
fn replay_stops_at_refused_command() {
    let log = vec![Command::SSET { index: 1, value: 1 }, Command::SSET { index: 5000, value: 2 }];
    let mut s = CommittedState::new();
    assert_eq!(s.replay(&log), Err(ValidationError::VariableOutOfRange(5000)));
}

#[test]
fn empty_aggregate_selection_is_no_error() {
    let s = CommittedState::new();
    assert!(s.resolve(VLayerId::All).is_empty());
    assert!(s.resolve(VLayerId::Selected).is_empty());
    assert!(s.resolve(VLayerId::Current).is_empty());
    let mut sched = Scheduler::new();
    let st = sched.execute(ctrl(VLayerId::All, 1, 50, 10, 0)).unwrap();
    assert_eq!(st.result, CommandStartResult::Continue(CommandResult::Done));
    assert!(st.warnings.is_empty());
    assert!(!sched.exited);
    assert!(sched.live.layer_tweeners.iter().all(|t| t.is_idle()));
}

#[test]
fn resolve_lists_loaded_layers_in_order() {
    let mut s = CommittedState::new();
    for c in [load(7), load(2), load(255), Command::LAYERSELECT { low: 2, high: 7 }] {
        s.apply(&c).unwrap();
    }
    assert_eq!(s.resolve(VLayerId::All), vec![2, 7, 255]);
    assert_eq!(s.resolve(VLayerId::Selected), vec![2, 7]);
    assert_eq!(s.resolve(VLayerId::Current), vec![255]);
    assert_eq!(s.resolve(VLayerId::Layer(7)), vec![7]);
    assert!(s.resolve(VLayerId::Layer(8)).is_empty());
    assert!(s.resolve(VLayerId::Layer(9999)).is_empty());
    s.apply(&Command::LAYERSELECT { low: 200, high: u32::MAX }).unwrap();
    assert_eq!(s.resolve(VLayerId::Selected), vec![255]);
}

#[test]
fn unimplemented_flag_with_zero_duration_applies_instantly_and_warns() {
    let mut s = Scheduler::new();
    s.execute(load(0)).unwrap();
    let st = s.execute(ctrl(VLayerId::Layer(0), 1, 500, 0, 1 << 6)).unwrap();
    assert_eq!(st.result, CommandStartResult::Continue(CommandResult::Done));
    assert_eq!(st.warnings, vec![Warning::ScaleTimeUnsupported]);
    assert_eq!(live_value(&s, 0, 1), 500);
    assert_eq!(prop(&s.committed, 0, 1), 500);
    assert!(!s.exited);
}

#[test]
fn conflicting_fast_forward_flags_abort_after_canonical_mutation() {
    let mut s = Scheduler::new();
    s.execute(load(0)).unwrap();
    let r = s.execute(ctrl(VLayerId::Layer(0), 1, 500, 10, (1 << 8) | (1 << 9)));
    assert_eq!(r.unwrap_err(), ValidationError::ConflictingFastForward);
    // The canonical mutation ran before the flags were validated.
    assert_eq!(prop(&s.committed, 0, 1), 500);
    assert_eq!(live_value(&s, 0, 1), 0);
    assert!(s.exited);
}

#[test]
fn reserved_flags_abort() {
    let mut s = Scheduler::new();
    s.execute(load(0)).unwrap();
    let r = s.execute(ctrl(VLayerId::Layer(0), 1, 5, 10, 1 << 20));
    assert_eq!(r.unwrap_err(), ValidationError::ReservedFlags(1 << 20));
    assert!(s.exited);
}

#[test]
fn wait_runs_for_its_ticks_then_scheduler_resumes() {
    let n: u32 = 4;
    let mut s = Scheduler::new();
    let st = s.execute(Command::WAIT { ticks: n }).unwrap();
    assert_eq!(st.result, CommandStartResult::Yield(ExecutingCommand::WAIT { remaining: n }));
    for _ in 1..n {
        assert_eq!(s.tick(1), None);
        assert!(s.is_busy());
    }
    assert_eq!(s.tick(1), Some(CommandResult::Done));
    assert!(!s.is_busy());
    assert_eq!(s.tick(1), None);
    let st = s.execute(Command::SSET { index: 0, value: 3 }).unwrap();
    assert_eq!(st.result, CommandStartResult::Continue(CommandResult::Done));
    assert_eq!(s.committed.variables[0], 3);
}

#[test]
fn wait_of_zero_ticks_continues() {
    let mut s = Scheduler::new();
    let st = s.execute(Command::WAIT { ticks: 0 }).unwrap();
    assert_eq!(st.result, CommandStartResult::Continue(CommandResult::Done));
    assert!(!s.is_busy());
}

#[test]
fn msgset_reveals_text_over_ticks() {
    let mut s = Scheduler::new();
    let st = s.execute(Command::MSGSET { message_id: 3, text_len: 5 }).unwrap();
    assert_eq!(
        st.result,
        CommandStartResult::Yield(ExecutingCommand::MSGSET { shown: 0, text_len: 5 })
    );
    assert_eq!(s.tick(1), None);
    assert_eq!(s.live.text_shown, 2);
    assert_eq!(s.tick(1), None);
    assert_eq!(s.live.text_shown, 4);
    assert_eq!(s.tick(1), Some(CommandResult::Done));
    assert_eq!(s.live.text_shown, 5);
    assert_eq!(s.committed.message_id, Some(3));
}

#[test]
fn executing_command_update_directly() {
    let mut live = LiveState::from_committed(&CommittedState::new());
    let mut w = ExecutingCommand::WAIT { remaining: 2 };
    assert_eq!(w.update(&mut live), None);
    assert_eq!(w, ExecutingCommand::WAIT { remaining: 1 });
    assert_eq!(w.update(&mut live), Some(CommandResult::Done));
}

#[test]
fn exit_ends_the_run() {
    let mut s = Scheduler::new();
    let st = s.execute(Command::EXIT).unwrap();
    assert_eq!(st.result, CommandStartResult::Exit);
    assert!(s.exited);
}

#[test]
fn layerctrl_animates_live_value_over_ticks() {
    let mut s = Scheduler::new();
    s.execute(load(4)).unwrap();
    s.execute(ctrl(VLayerId::Current, 3, 100, 10, 0)).unwrap();
    assert_eq!(prop(&s.committed, 4, 3), 100);
    assert_eq!(live_value(&s, 4, 3), 0);
    s.tick(5);
    assert_eq!(live_value(&s, 4, 3), 50);
    s.tick(5);
    assert_eq!(live_value(&s, 4, 3), 100);
}

#[test]
fn layerctrl_fast_forward_to_target_finishes_running_animation() {
    let mut s = Scheduler::new();
    s.execute(load(0)).unwrap();
    s.execute(ctrl(VLayerId::Layer(0), 0, 100, 10, 0)).unwrap();
    s.tick(5);
    s.execute(ctrl(VLayerId::Layer(0), 0, 300, 10, 1 << 9)).unwrap();
    assert_eq!(live_value(&s, 0, 0), 100);
    s.tick(5);
    assert_eq!(live_value(&s, 0, 0), 200);
}

#[test]
fn layerctrl_unrendered_property_change_warns() {
    let mut s = Scheduler::new();
    s.execute(load(0)).unwrap();
    let st = s.execute(ctrl(VLayerId::Layer(0), 20, 9, 0, 0)).unwrap();
    assert_eq!(st.warnings, vec![Warning::PropertyNotImplemented { property: 20, value: 9 }]);
    let st = s.execute(ctrl(VLayerId::Layer(0), 20, 9, 0, 0)).unwrap();
    assert!(st.warnings.is_empty());
}

#[test]
fn out_of_range_operands_are_refused_without_change() {
    let mut s = CommittedState::new();
    assert_eq!(s.apply(&load(256)), Err(ValidationError::LayerOutOfRange(256)));
    assert_eq!(
        s.apply(&ctrl(VLayerId::All, 32, 1, 0, 0)),
        Err(ValidationError::PropertyOutOfRange(32))
    );
    assert_eq!(
        s.apply(&Command::SEPAN { slot: 32, pan: Pan(0), fade_in_time: 0 }),
        Err(ValidationError::AudioSlotOutOfRange(32))
    );
    assert_eq!(
        s.apply(&Command::SSET { index: 4096, value: 0 }),
        Err(ValidationError::VariableOutOfRange(4096))
    );
    assert!(same_committed(&s, &CommittedState::new()));
}

#[test]
fn sound_commands_update_slots_and_fades() {
    let mut s = Scheduler::new();
    s.execute(Command::SEPAN { slot: 1, pan: Pan(300), fade_in_time: 0 }).unwrap();
    assert_eq!(s.committed.se[1], None);
    s.execute(Command::SEPLAY { slot: 1, volume: Volume(800), pan: Pan(100), fade_in: 4, loop_start: Some(10) })
        .unwrap();
    assert_eq!(s.live.se_volume[1].value(), 0);
    s.tick(2);
    assert_eq!(s.live.se_volume[1].value(), 400);
    s.execute(Command::SEPAN { slot: 1, pan: Pan(-500), fade_in_time: 0 }).unwrap();
    assert_eq!(s.live.se_pan[1].value(), -500);
    let a = s.committed.se[1].unwrap();
    assert_eq!(a.pan, Pan(-500));
    assert_eq!(a.volume, Volume(800));
    assert_eq!(a.loop_start, Some(10));
    s.execute(Command::SESTOP { slot: 1, fade_out: 0 }).unwrap();
    assert_eq!(s.committed.se[1], None);
    // The fade-out queues behind the fade-in that is still running.
    assert_eq!(s.live.se_volume[1].value(), 400);
    s.tick(2);
    assert_eq!(s.live.se_volume[1].value(), 0);
}

#[test]
fn load_rebuilds_presentation_from_committed_state() {
    let mut c = CommittedState::new();
    c.apply(&load(5)).unwrap();
    c.apply(&ctrl(VLayerId::Layer(5), 6, 123, 50, 0)).unwrap();
    c.apply(&Command::SEPLAY { slot: 0, volume: Volume(700), pan: Pan(-50), fade_in: 10, loop_start: None })
        .unwrap();
    let live = LiveState::from_committed(&c);
    let t = &live.layer_tweeners[(5 * PROPERTY_COUNT + 6) as usize];
    assert_eq!(t.value(), 123);
    assert!(t.is_idle());
    assert_eq!(live.se_volume[0].value(), 700);
    assert_eq!(live.se_pan[0].value(), -50);
    let s = Scheduler::from_committed(c);
    assert!(!s.is_busy());
}

#[test]
fn start_through_trait_reports_validation_error() {
    let c = CommittedState::new();
    let mut live = LiveState::from_committed(&c);
    let r = ctrl(VLayerId::All, 0, 1, 0, 7).start(&c, &mut live);
    assert_eq!(r.unwrap_err(), ValidationError::UnknownEasing(7));
    let mut c2 = CommittedState::new();
    assert_eq!(load(1).apply_state(&mut c2), Ok(()));
    assert_eq!(c2.layers[1], Some(LayerType::Picture));
}

#[test]
fn start_results_convert_from_results_and_commands() {
    assert_eq!(
        CommandStartResult::from(CommandResult::Done),
        CommandStartResult::Continue(CommandResult::Done)
    );
    let w = ExecutingCommand::WAIT { remaining: 3 };
    assert_eq!(CommandStartResult::from(w), CommandStartResult::Yield(w));
}

#[test]
fn delta_with_fast_forward_to_current_only_warns() {
    let mut s = Scheduler::new();
    s.execute(load(0)).unwrap();
    s.execute(ctrl(VLayerId::Layer(0), 2, 100, 10, 0)).unwrap();
    s.tick(5);
    let st = s.execute(ctrl(VLayerId::Layer(0), 2, 300, 10, (1 << 7) | (1 << 8))).unwrap();
    assert_eq!(st.result, CommandStartResult::Continue(CommandResult::Done));
    assert_eq!(st.warnings, vec![Warning::DeltaUnsupported]);
    assert!(!s.exited);
    assert_eq!(live_value(&s, 0, 2), 50);
    let q = s.live.layer_tweeners[2].queued();
    assert_eq!(q.len(), 2);
    assert_eq!(q[0].target, 100);
    assert_eq!(q[1].target, 300);
}

#[test]
fn delta_with_fast_forward_to_current_on_empty_selection_is_no_error() {
    let mut s = Scheduler::new();
    let st = s.execute(ctrl(VLayerId::All, 2, 300, 10, (1 << 7) | (1 << 8))).unwrap();
    assert_eq!(st.result, CommandStartResult::Continue(CommandResult::Done));
    assert!(!s.exited);
}
