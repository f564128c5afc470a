use rmixer::ipc::{
    clamp_db, is_routed, ChannelState, ControlMsg, Gain, MeterData, MixerState, VOLUME_DEFAULT_DB,
    VOLUME_MAX_DB, VOLUME_MIN_DB, VOLUME_STEP_DB,
};

fn strip(name: &str, ports: usize) -> ChannelState {
    ChannelState::new(name.to_string(), ports, 0)
}

#[test]
fn volume_limits() {
    assert_eq!(VOLUME_MIN_DB, -60_000);
    assert_eq!(VOLUME_MAX_DB, 12_000);
    assert_eq!(VOLUME_STEP_DB, 500);
    assert_eq!(VOLUME_DEFAULT_DB, 0);
    assert_eq!(clamp_db(-60_001), -60_000);
    assert_eq!(clamp_db(12_001), 12_000);
    assert_eq!(clamp_db(-12_345), -12_345);
    assert_eq!(clamp_db(i32::MIN), -60_000);
    assert_eq!(clamp_db(i32::MAX), 12_000);
}

#[test]
fn new_channel_starts_at_default() {
    let c = ChannelState::new("Mic".to_string(), 1, 42);
    assert_eq!(c.name, "Mic");
    assert_eq!(c.port_count, 1);
    assert_eq!(c.volume_db, 0);
    assert!(!c.muted);
    assert!(!c.soloed);
    assert_eq!(c.current_peaks, [0, 0]);
    assert_eq!(c.peak_hold, [0, 0]);
    assert_eq!(c.peak_hold_time, [42, 42]);
}

#[test]
fn volume_stays_in_range_after_any_adjustment() {
    let mut c = strip("A", 1);
    let deltas = [500, 500, 20_000, i32::MAX, -500, i32::MIN, -1, 100_000, -72_000, -1];
    for d in deltas {
        c.adjust_volume(d);
        assert!(c.volume_db >= VOLUME_MIN_DB && c.volume_db <= VOLUME_MAX_DB);
    }
    assert_eq!(c.volume_db, -60_000);
    c.adjust_volume(500);
    assert_eq!(c.volume_db, -59_500);
    c.set_volume(99_000);
    assert_eq!(c.volume_db, 12_000);
    c.set_volume(-99_000);
    assert_eq!(c.volume_db, -60_000);
    c.set_volume(-6_000);
    assert_eq!(c.volume_db, -6_000);
}

#[test]
fn adjust_volume_steps_and_clamps() {
    let mut c = strip("A", 2);
    c.adjust_volume(VOLUME_STEP_DB);
    assert_eq!(c.volume_db, 500);
    c.adjust_volume(-3 * VOLUME_STEP_DB);
    assert_eq!(c.volume_db, -1_000);
    c.adjust_volume(13_500);
    assert_eq!(c.volume_db, 12_000);
}

#[test]
fn muted_channel_is_silent() {
    let mut c = strip("A", 1);
    c.volume_db = -4_500;
    assert_eq!(c.get_linear_gain(), Gain::Level(-4_500));
    c.muted = true;
    assert_eq!(c.get_linear_gain(), Gain::Silent);
}

#[test]
fn peak_hold_scenario_with_five_second_hold() {
    let mut c = strip("A", 1);
    c.update_meter([800_000, 0], 0, 5_000);
    assert_eq!(c.peak_hold[0], 800_000);
    c.update_meter([0, 0], 1_000, 5_000);
    assert_eq!(c.current_peaks[0], 0);
    assert_eq!(c.peak_hold[0], 800_000);
    c.update_meter([0, 0], 6_000, 5_000);
    assert_eq!(c.peak_hold[0], 0);
    assert_eq!(c.peak_hold_time[0], 6_000);
}

#[test]
fn peak_hold_never_drops_within_the_window() {
    let mut c = strip("A", 2);
    c.update_meter([500, 900], 10, 100);
    let lows = [[400u32, 0u32], [0, 899], [499, 1], [0, 0]];
    let mut now = 10;
    for peaks in lows {
        now += 25;
        c.update_meter(peaks, now, 100);
        assert_eq!(c.current_peaks, peaks);
        assert_eq!(c.peak_hold, [500, 900]);
        assert_eq!(c.peak_hold_time, [10, 10]);
    }
    c.update_meter([1, 2], 111, 100);
    assert_eq!(c.peak_hold, [1, 2]);
    assert_eq!(c.peak_hold_time, [111, 111]);
}

#[test]
fn peak_hold_snaps_up_and_restarts_the_hold() {
    let mut c = strip("A", 1);
    c.update_meter([300, 0], 0, 1_000);
    c.update_meter([700, 0], 900, 1_000);
    assert_eq!(c.peak_hold[0], 700);
    assert_eq!(c.peak_hold_time[0], 900);
    c.update_meter([100, 0], 1_800, 1_000);
    assert_eq!(c.peak_hold[0], 700);
    c.update_meter([700, 0], 1_850, 1_000);
    assert_eq!(c.peak_hold_time[0], 1_850);
    c.update_meter([100, 0], 2_850, 1_000);
    assert_eq!(c.peak_hold[0], 700);
    c.update_meter([100, 0], 2_851, 1_000);
    assert_eq!(c.peak_hold[0], 100);
}

#[test]
fn mono_channel_ignores_the_second_peak() {
    let mut c = strip("A", 1);
    c.update_meter([10, 999], 5, 50);
    assert_eq!(c.current_peaks, [10, 0]);
    assert_eq!(c.peak_hold, [10, 0]);
    assert_eq!(c.peak_hold_time, [5, 0]);
}

#[test]
fn clock_that_runs_backwards_counts_as_no_time() {
    let mut c = ChannelState::new("A".to_string(), 1, 1_000);
    c.update_meter([50, 0], 1_000, 10);
    c.update_meter([20, 0], 400, 10);
    assert_eq!(c.peak_hold[0], 50);
    assert_eq!(c.peak_hold_time[0], 1_000);
}

#[test]
fn meter_data_constructors() {
    let m = MeterData::mono(3, 250_000, 17);
    assert_eq!((m.channel_index, m.peaks, m.port_count, m.timestamp), (3, [250_000, 0], 1, 17));
    let s = MeterData::stereo(4, 1, 2, 18);
    assert_eq!((s.channel_index, s.peaks, s.port_count, s.timestamp), (4, [1, 2], 2, 18));
}

#[test]
fn routing_rule() {
    assert!(is_routed(1, 0, 0));
    assert!(is_routed(1, 0, 1));
    assert!(is_routed(2, 0, 0));
    assert!(is_routed(2, 1, 1));
    assert!(!is_routed(2, 0, 1));
    assert!(!is_routed(2, 1, 0));
    assert!(is_routed(2, 0, 2));
    assert!(!is_routed(2, 1, 2));
}

#[test]
fn solo_silences_the_others_whatever_their_volume() {
    let mut m = MixerState {
        inputs: vec![strip("A", 1), strip("B", 2), strip("C", 1)],
        outputs: vec![strip("Main", 2)],
    };
    assert!(!m.any_input_soloed());
    m.inputs[1].volume_db = 12_000;
    m.inputs[2].soloed = true;
    m.inputs[2].volume_db = -7_500;
    assert!(m.any_input_soloed());
    assert_eq!(m.get_input_effective_gain(0), Gain::Silent);
    assert_eq!(m.get_input_effective_gain(1), Gain::Silent);
    assert_eq!(m.get_input_effective_gain(2), Gain::Level(-7_500));
    for q in 0..2 {
        assert_eq!(m.contribution(0, 0, 0, q), None);
        assert_eq!(m.contribution(1, q, 0, q), None);
        assert_eq!(m.contribution(2, 0, 0, q), Some((-7_500, 0)));
    }
}

#[test]
fn mute_dominates_solo() {
    let mut m = MixerState { inputs: vec![strip("A", 1)], outputs: vec![strip("Main", 2)] };
    m.inputs[0].soloed = true;
    m.inputs[0].muted = true;
    assert_eq!(m.get_input_effective_gain(0), Gain::Silent);
    assert_eq!(m.contribution(0, 0, 0, 0), None);
    assert_eq!(m.contribution(0, 0, 0, 1), None);
}

#[test]
fn muted_output_receives_nothing() {
    let mut m = MixerState { inputs: vec![strip("A", 1)], outputs: vec![strip("Main", 2)] };
    m.outputs[0].muted = true;
    assert_eq!(m.contribution(0, 0, 0, 0), None);
    assert_eq!(m.contribution(0, 0, 0, 1), None);
}

#[test]
fn mono_input_reaches_both_output_ports_at_unity() {
    let m = MixerState { inputs: vec![strip("A", 1)], outputs: vec![strip("Main", 2)] };
    assert_eq!(m.contribution(0, 0, 0, 0), Some((0, 0)));
    assert_eq!(m.contribution(0, 0, 0, 1), Some((0, 0)));
}

#[test]
fn stereo_input_keeps_its_sides() {
    let mut m = MixerState { inputs: vec![strip("A", 2)], outputs: vec![strip("Main", 2)] };
    m.inputs[0].volume_db = -1_000;
    m.outputs[0].volume_db = 2_000;
    assert_eq!(m.contribution(0, 0, 0, 0), Some((-1_000, 2_000)));
    assert_eq!(m.contribution(0, 1, 0, 1), Some((-1_000, 2_000)));
    assert_eq!(m.contribution(0, 0, 0, 1), None);
    assert_eq!(m.contribution(0, 1, 0, 0), None);
}

#[test]
fn commands_change_the_addressed_channel_only() {
    let mut m = MixerState {
        inputs: vec![strip("A", 1), strip("B", 2)],
        outputs: vec![strip("Main", 2)],
    };
    m.apply_control(ControlMsg::SetInputVolume { channel: 1, volume_db: -9_000 });
    m.apply_control(ControlMsg::SetOutputVolume { channel: 0, volume_db: 3_500 });
    m.apply_control(ControlMsg::ToggleInputMute { channel: 0 });
    m.apply_control(ControlMsg::ToggleOutputMute { channel: 0 });
    m.apply_control(ControlMsg::ToggleInputSolo { channel: 1 });
    m.apply_control(ControlMsg::Quit);
    assert_eq!((m.inputs[0].volume_db, m.inputs[0].muted, m.inputs[0].soloed), (0, true, false));
    assert_eq!((m.inputs[1].volume_db, m.inputs[1].muted, m.inputs[1].soloed), (-9_000, false, true));
    assert_eq!((m.outputs[0].volume_db, m.outputs[0].muted, m.outputs[0].soloed), (3_500, true, false));
    m.apply_control(ControlMsg::ToggleInputMute { channel: 0 });
    assert!(!m.inputs[0].muted);
}

#[test]
fn commands_for_missing_channels_are_ignored() {
    let mut m = MixerState { inputs: vec![strip("A", 1)], outputs: vec![strip("Main", 2)] };
    m.apply_control(ControlMsg::SetInputVolume { channel: 1, volume_db: -9_000 });
    m.apply_control(ControlMsg::SetOutputVolume { channel: 1, volume_db: -9_000 });
    m.apply_control(ControlMsg::ToggleInputMute { channel: usize::MAX });
    m.apply_control(ControlMsg::ToggleOutputMute { channel: 5 });
    m.apply_control(ControlMsg::ToggleInputSolo { channel: 1 });
    assert_eq!((m.inputs[0].volume_db, m.inputs[0].muted, m.inputs[0].soloed), (0, false, false));
    assert_eq!((m.outputs[0].volume_db, m.outputs[0].muted), (0, false));
    assert_eq!(m.inputs.len(), 1);
    assert_eq!(m.outputs.len(), 1);
}

#[test]
fn commanded_volume_is_brought_into_range() {
    let mut m = MixerState { inputs: vec![strip("A", 1)], outputs: vec![strip("Main", 2)] };
    m.apply_control(ControlMsg::SetInputVolume { channel: 0, volume_db: 50_000 });
    m.apply_control(ControlMsg::SetOutputVolume { channel: 0, volume_db: -100_000 });
    assert_eq!(m.inputs[0].volume_db, 12_000);
    assert_eq!(m.outputs[0].volume_db, -60_000);
}
