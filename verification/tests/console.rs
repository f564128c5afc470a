use rmixer::channel::MeterChannel;
use rmixer::config::{ChannelConfig, Config};
use rmixer::console::{flip, initial_commands, Console, Key, SelectionType, PEAK_HOLD_DURATION};
use rmixer::engine::{build_mixer_state, AudioEngine, ProcessHandler};
use rmixer::routing::Route;
use rmixer::ipc::{ControlMsg, MeterData};

fn channel(name: &str, ports: usize, volume_db: Option<i32>) -> ChannelConfig {
    ChannelConfig {
        name: name.to_string(),
        ports: (0..ports).map(|p| format!("{}_{}", name, p)).collect(),
        volume_db,
    }
}

fn config() -> Config {
    Config {
        client_name: "Mixer".to_string(),
        inputs: vec![channel("Mic", 1, Some(-3_000)), channel("Music", 2, None)],
        outputs: vec![channel("Main", 2, Some(1_500))],
        config_path: None,
    }
}

fn at(c: &Console) -> (SelectionType, usize) {
    (c.selection_type(), c.selected_channel())
}

#[test]
fn console_restores_configured_volumes() {
    let c = Console::new(&config(), 0);
    let m = c.mixer_state();
    assert_eq!(m.inputs[0].volume_db, -3_000);
    assert_eq!(m.inputs[1].volume_db, 0);
    assert_eq!(m.outputs[0].volume_db, 1_500);
    assert_eq!(at(&c), (SelectionType::Input, 0));
    assert!(!c.should_quit());
    assert_eq!(PEAK_HOLD_DURATION, 5_000);
}

#[test]
fn initial_commands_set_the_configured_volumes() {
    assert_eq!(
        initial_commands(&config()),
        vec![
            ControlMsg::SetInputVolume { channel: 0, volume_db: -3_000 },
            ControlMsg::SetOutputVolume { channel: 0, volume_db: 1_500 },
        ]
    );
}

#[test]
fn cursor_walks_forward_through_both_sections() {
    let mut c = Console::new(&config(), 0);
    c.select_next();
    assert_eq!(at(&c), (SelectionType::Input, 1));
    c.select_next();
    assert_eq!(at(&c), (SelectionType::Output, 0));
    c.select_next();
    assert_eq!(at(&c), (SelectionType::Input, 0));
}

#[test]
fn cursor_walks_backward_through_both_sections() {
    let mut c = Console::new(&config(), 0);
    c.select_previous();
    assert_eq!(at(&c), (SelectionType::Output, 0));
    c.select_previous();
    assert_eq!(at(&c), (SelectionType::Input, 1));
    c.select_previous();
    assert_eq!(at(&c), (SelectionType::Input, 0));
}

#[test]
fn tab_switches_sections() {
    let mut c = Console::new(&config(), 0);
    c.select_next();
    c.toggle_section();
    assert_eq!(at(&c), (SelectionType::Output, 0));
    c.toggle_section();
    assert_eq!(at(&c), (SelectionType::Input, 0));
    assert_eq!(flip(SelectionType::Input), SelectionType::Output);
    assert_eq!(flip(SelectionType::Output), SelectionType::Input);
}

#[test]
fn volume_keys_step_and_yield_the_command() {
    let mut c = Console::new(&config(), 0);
    assert_eq!(
        c.handle_key(Key::Up),
        Some(ControlMsg::SetInputVolume { channel: 0, volume_db: -2_500 })
    );
    assert_eq!(
        c.handle_key(Key::Down),
        Some(ControlMsg::SetInputVolume { channel: 0, volume_db: -3_000 })
    );
    assert_eq!(c.mixer_state().inputs[0].volume_db, -3_000);
    c.toggle_section();
    assert_eq!(
        c.adjust_volume(20_000),
        Some(ControlMsg::SetOutputVolume { channel: 0, volume_db: 12_000 })
    );
    assert_eq!(c.mixer_state().outputs[0].volume_db, 12_000);
    assert_eq!(
        c.handle_key(Key::Reset),
        Some(ControlMsg::SetOutputVolume { channel: 0, volume_db: 0 })
    );
    assert_eq!(c.mixer_state().outputs[0].volume_db, 0);
    assert_eq!(c.selected_volume_db(), Some(0));
}

#[test]
fn volume_stays_in_range_under_repeated_steps() {
    let mut c = Console::new(&config(), 0);
    for _ in 0..200 {
        c.handle_key(Key::Up);
    }
    assert_eq!(c.mixer_state().inputs[0].volume_db, 12_000);
    for _ in 0..200 {
        c.handle_key(Key::Down);
    }
    assert_eq!(c.mixer_state().inputs[0].volume_db, -60_000);
}

#[test]
fn mute_and_solo_keys() {
    let mut c = Console::new(&config(), 0);
    assert_eq!(c.handle_key(Key::Mute), Some(ControlMsg::ToggleInputMute { channel: 0 }));
    assert!(c.mixer_state().inputs[0].muted);
    assert_eq!(c.handle_key(Key::Right), None);
    assert_eq!(c.handle_key(Key::Solo), Some(ControlMsg::ToggleInputSolo { channel: 1 }));
    assert!(c.mixer_state().inputs[1].soloed);
    assert_eq!(c.handle_key(Key::Tab), None);
    assert_eq!(c.handle_key(Key::Solo), None);
    assert!(!c.mixer_state().outputs[0].soloed);
    assert_eq!(c.handle_key(Key::Mute), Some(ControlMsg::ToggleOutputMute { channel: 0 }));
    assert!(c.mixer_state().outputs[0].muted);
    assert_eq!(c.handle_key(Key::Left), None);
    assert_eq!(at(&c), (SelectionType::Input, 1));
}

#[test]
fn quit_key_and_other_keys() {
    let mut c = Console::new(&config(), 0);
    assert_eq!(c.handle_key(Key::Other), None);
    assert!(!c.should_quit());
    assert_eq!(c.handle_key(Key::Quit), None);
    assert!(c.should_quit());
}

#[test]
fn both_copies_agree_after_the_commands_are_delivered() {
    let mut console = Console::new(&config(), 0);
    let mut handler = ProcessHandler::new(build_mixer_state(&config(), true, 0));
    let keys = [Key::Up, Key::Mute, Key::Right, Key::Solo, Key::Down, Key::Tab, Key::Reset, Key::Mute];
    for key in keys {
        if let Some(msg) = console.handle_key(key) {
            handler.apply_control(msg);
        }
    }
    let a = console.mixer_state();
    let b = handler.mixer_state();
    for i in 0..2 {
        assert_eq!(
            (a.inputs[i].volume_db, a.inputs[i].muted, a.inputs[i].soloed),
            (b.inputs[i].volume_db, b.inputs[i].muted, b.inputs[i].soloed)
        );
    }
    assert_eq!(
        (a.outputs[0].volume_db, a.outputs[0].muted),
        (b.outputs[0].volume_db, b.outputs[0].muted)
    );
}

#[test]
fn measurements_reach_the_channel_their_position_names() {
    let mut c = Console::new(&config(), 0);
    c.apply_meter(MeterData::mono(0, 111, 1), 10, 5_000);
    c.apply_meter(MeterData::stereo(1, 222, 333, 1), 10, 5_000);
    c.apply_meter(MeterData::stereo(2, 444, 555, 1), 10, 5_000);
    c.apply_meter(MeterData::stereo(3, 666, 777, 1), 10, 5_000);
    let m = c.mixer_state();
    assert_eq!(m.inputs[0].current_peaks, [111, 0]);
    assert_eq!(m.inputs[1].current_peaks, [222, 333]);
    assert_eq!(m.outputs[0].current_peaks, [444, 555]);
    assert_eq!(m.outputs[0].peak_hold, [444, 555]);
    assert_eq!(m.outputs[0].peak_hold_time, [10, 10]);
}

#[test]
fn pending_measurements_are_taken_in_order() {
    let mut c = Console::new(&config(), 0);
    let mut meters = MeterChannel::new(8);
    meters.publish(MeterData::mono(0, 900, 1));
    meters.publish(MeterData::mono(0, 300, 2));
    meters.publish(MeterData::stereo(2, 5, 6, 2));
    c.process_meter_updates(&mut meters, 100, PEAK_HOLD_DURATION);
    assert!(meters.try_receive().is_none());
    let m = c.mixer_state();
    assert_eq!(m.inputs[0].current_peaks[0], 300);
    assert_eq!(m.inputs[0].peak_hold[0], 900);
    assert_eq!(m.outputs[0].current_peaks, [5, 6]);
}

#[test]
fn volumes_are_listed_for_saving() {
    let mut c = Console::new(&config(), 0);
    c.handle_key(Key::Right);
    c.handle_key(Key::Up);
    assert_eq!(c.volumes(), (vec![-3_000, 500], vec![1_500]));
}

#[test]
fn engine_handle_passes_measurements_to_the_console() {
    let (mut engine, mut rt) = AudioEngine::new(&config(), 0);
    let mut console = Console::new(&config(), 0);
    rt.handler.publish_meters(&mut rt.meters, &vec![[7, 0], [8, 9]], &vec![[10, 11]], 3);
    engine.receive_meters(&mut console, 50, PEAK_HOLD_DURATION);
    let m = console.mixer_state();
    assert_eq!(m.inputs[0].current_peaks, [7, 0]);
    assert_eq!(m.inputs[1].current_peaks, [8, 9]);
    assert_eq!(m.outputs[0].current_peaks, [10, 11]);
    assert_eq!(m.outputs[0].peak_hold_time, [50, 50]);
}

#[test]
fn engine_handle_sends_the_configured_volumes() {
    let (mut engine, mut rt) = AudioEngine::new(&config(), 0);
    assert_eq!(engine.send_initial_volumes(&config()), 2);
    let mut plan: Vec<Route> = Vec::new();
    rt.handler.process(&mut rt.control, &mut plan);
    let m = rt.handler.mixer_state();
    assert_eq!(m.inputs[0].volume_db, -3_000);
    assert_eq!(m.inputs[1].volume_db, 0);
    assert_eq!(m.outputs[0].volume_db, 1_500);
}

#[test]
fn engine_handle_sends_again_once_the_queue_was_drained() {
    let (mut engine, mut rt) = AudioEngine::new(&config(), 0);
    for k in 0..64usize {
        assert!(engine.send_control(ControlMsg::ToggleInputMute { channel: k % 2 }).is_ok());
    }
    assert!(engine.send_control(ControlMsg::ToggleInputSolo { channel: 0 }).is_err());
    let mut plan: Vec<Route> = Vec::new();
    rt.handler.process(&mut rt.control, &mut plan);
    assert!(!rt.handler.mixer_state().inputs[0].muted);
    assert!(!rt.handler.mixer_state().inputs[0].soloed);
    assert!(engine.send_control(ControlMsg::ToggleInputSolo { channel: 0 }).is_ok());
    rt.handler.process(&mut rt.control, &mut plan);
    assert!(rt.handler.mixer_state().inputs[0].soloed);
}

#[test]
fn initial_volumes_beyond_the_room_are_dropped() {
    let mut wide = config();
    wide.inputs = (0..70).map(|k| channel(&format!("In{}", k), 1, Some(-1_000 - k))).collect();
    wide.outputs[0].volume_db = None;
    let (mut engine, mut rt) = AudioEngine::new(&wide, 0);
    assert_eq!(engine.send_initial_volumes(&wide), 64);
    let mut plan: Vec<Route> = Vec::new();
    rt.handler.process(&mut rt.control, &mut plan);
    let m = rt.handler.mixer_state();
    assert_eq!(m.inputs[0].volume_db, -1_000);
    assert_eq!(m.inputs[63].volume_db, -1_063);
    assert_eq!(m.inputs[64].volume_db, 0);
    assert_eq!(m.inputs[69].volume_db, 0);
}

#[test]
fn engine_handle_receives_measurements_oldest_first() {
    let (mut engine, mut rt) = AudioEngine::new(&config(), 0);
    assert!(engine.try_recv_meter().is_none());
    rt.meters.publish(MeterData::mono(0, 100, 1));
    rt.meters.publish(MeterData::mono(0, 200, 2));
    rt.meters.publish(MeterData::mono(0, 300, 3));
    let first = engine.try_recv_meter().unwrap();
    assert_eq!((first.peaks[0], first.timestamp), (100, 1));
    let mut console = Console::new(&config(), 0);
    engine.receive_meters(&mut console, 10, PEAK_HOLD_DURATION);
    let m = console.mixer_state();
    assert_eq!(m.inputs[0].current_peaks[0], 300);
    assert_eq!(m.inputs[0].peak_hold[0], 300);
    assert!(engine.try_recv_meter().is_none());
}

#[test]
fn engine_handle_sends_in_order_and_leaves_the_rest_for_later() {
    let (mut engine, mut rt) = AudioEngine::new(&config(), 0);
    let commands: Vec<ControlMsg> = (0..70)
        .map(|k| ControlMsg::SetInputVolume { channel: 0, volume_db: -1_000 - k })
        .collect();
    let sent = engine.send_in_order(&commands);
    assert_eq!(sent, 64);
    let mut plan: Vec<Route> = Vec::new();
    rt.handler.process(&mut rt.control, &mut plan);
    assert_eq!(rt.handler.mixer_state().inputs[0].volume_db, -1_063);
    assert_eq!(engine.send_in_order(&commands[sent..].to_vec()), 6);
    rt.handler.process(&mut rt.control, &mut plan);
    assert_eq!(rt.handler.mixer_state().inputs[0].volume_db, -1_069);
}

#[test]
fn quit_through_the_handle_queues_the_stop_where_there_is_room() {
    let (mut engine, mut rt) = AudioEngine::new(&config(), 0);
    engine.quit();
    assert!(engine.is_stop_requested());
    assert_eq!(rt.control.try_receive(), Some(ControlMsg::Quit));
    assert_eq!(rt.control.try_receive(), None);
    for _ in 0..64 {
        assert!(engine.send_control(ControlMsg::ToggleInputMute { channel: 0 }).is_ok());
    }
    engine.quit();
    assert!(engine.is_stop_requested());
    for _ in 0..64 {
        assert_eq!(rt.control.try_receive(), Some(ControlMsg::ToggleInputMute { channel: 0 }));
    }
    assert_eq!(rt.control.try_receive(), None);
}
