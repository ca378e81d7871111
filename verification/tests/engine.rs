use drumbox64::engine::{DrumMachine, Output, OutputMode};
use drumbox64::midi::{MidiCommand, MidiInEvent};
use drumbox64::types::{Kit, Pattern, Velocity};

fn machine() -> DrumMachine {
    let mut p = Pattern::default();
    p.steps[0][0] = Velocity::Loud; // kick on step 0
    p.steps[1][1] = Velocity::Medium; // snare on step 1
    p.track_volume[1] = 127;
    p.track_pan[1] = -20;
    DrumMachine::new(p)
}

fn notes(out: &[Output]) -> Vec<Vec<(u8, u8, i8)>> {
    out.iter()
        .filter_map(|o| match o {
            Output::Midi(MidiCommand::Notes(n)) => Some(n.clone()),
            _ => None,
        })
        .collect()
}

#[test]
fn play_sends_start_and_first_step() {
    let mut m = machine();
    m.set_midi_out(true);
    let out = m.play();
    assert!(matches!(out[0], Output::Midi(MidiCommand::Start)));
    // kick at volume 100: 127 * 100 / 127 = 100
    assert_eq!(notes(&out), vec![vec![(36, 100, 0)]]);
    assert!(m.transport.playing);
    assert_eq!(m.transport.current_step, 0);
}

#[test]
fn stop_sends_stop() {
    let mut m = machine();
    m.set_midi_out(true);
    m.play();
    let out = m.stop();
    assert!(matches!(out[..], [Output::Midi(MidiCommand::Stop)]));
    assert!(!m.transport.playing);
}

#[test]
fn internal_clock_advances_after_step_duration() {
    let mut m = machine();
    m.set_midi_out(true);
    m.play();
    // 120 bpm: 125 ms per step = 25 ticks of 5 ms
    let mut fired = Vec::new();
    for _ in 0..25 {
        let out = m.clock_tick(&Vec::new());
        fired.extend(notes(&out));
    }
    assert_eq!(m.transport.current_step, 1);
    assert_eq!(fired, vec![vec![(38, 80, -20)]]);
    assert_eq!(m.tick_acc_ms, 0);
}

#[test]
fn midi_clock_out_at_24_ppqn() {
    let mut m = machine();
    m.set_midi_out(true);
    m.play();
    // 120 bpm: clock period 60e6 / 2880 = 20833 us; 100 ticks = 500 ms = 24 clocks
    let mut clocks = 0;
    for _ in 0..100 {
        for o in m.clock_tick(&Vec::new()) {
            if matches!(o, Output::Midi(MidiCommand::Clock)) {
                clocks += 1;
            }
        }
    }
    assert_eq!(clocks, 24);
    assert_eq!(m.midi_clock_acc_us, 8);
}

#[test]
fn external_clock_drives_steps() {
    let mut m = machine();
    m.set_midi_out(true);
    m.set_clock_in(true);
    let out = m.clock_tick(&vec![MidiInEvent::Start]);
    assert!(m.transport.playing);
    assert_eq!(notes(&out), vec![vec![(36, 100, 0)]]);
    let five = vec![MidiInEvent::Clock; 5];
    m.clock_tick(&five);
    assert_eq!(m.transport.current_step, 0);
    let out = m.clock_tick(&vec![MidiInEvent::Clock]);
    assert_eq!(m.transport.current_step, 1);
    assert_eq!(notes(&out), vec![vec![(38, 80, -20)]]);
    m.clock_tick(&vec![MidiInEvent::Stop]);
    assert!(!m.transport.playing);
    m.clock_tick(&vec![MidiInEvent::Continue]);
    assert!(m.transport.playing);
}

#[test]
fn asid_mode_triggers_sid_voices() {
    let mut m = machine();
    m.set_output_mode(OutputMode::Asid);
    m.attach_asid();
    let out = m.play();
    // kick: one batch of register writes
    assert!(matches!(&out[..], [Output::Sid(w)] if w.len() == 7));
    assert!(m.asid.as_ref().unwrap().voices[0].active);
    let out = m.set_output_mode(OutputMode::Midi);
    assert!(matches!(out[..], [Output::SidMute, Output::SidReset]));
    assert!(m.asid.is_none());
}

#[test]
fn editing_and_loading() {
    let mut m = machine();
    m.toggle_step(3, 7);
    assert_eq!(m.pattern.steps[3][7], Velocity::Loud);
    m.set_tempo(90);
    assert_eq!(m.transport.bpm, 90);
    assert_eq!(m.pattern.tempo, 90);
    m.set_swing(30);
    assert_eq!(m.pattern.swing, 30);
    m.set_track_volume(2, 200);
    assert_eq!(m.pattern.track_volume[2], 127);
    m.set_track_pan(2, 100);
    assert_eq!(m.pattern.track_pan[2], 63);
    m.select_kit(Kit::Rock);
    assert_eq!(m.pattern.kit, Kit::Rock);
    m.set_midi_out(true);
    m.play();
    let mut p = Pattern::default();
    p.tempo = 140;
    let out = m.load_pattern(p);
    assert!(matches!(out[..], [Output::Midi(MidiCommand::Stop)]));
    assert!(!m.transport.playing);
    assert_eq!(m.transport.bpm, 140);
}

#[test]
fn external_clock_from_any_count() {
    let mut m = machine();
    m.set_clock_in(true);
    m.clock_tick(&vec![MidiInEvent::Start]);
    m.clock_tick(&vec![MidiInEvent::Clock; 4]);
    assert_eq!(m.midi_in_clock_count, 4);
    assert_eq!(m.transport.current_step, 0);
    // (4 + 9) / 6 - 4 / 6 = 2 steps
    m.clock_tick(&vec![MidiInEvent::Clock; 9]);
    assert_eq!(m.midi_in_clock_count, 13);
    assert_eq!(m.transport.current_step, 2);
    // 96 more clocks: 16 steps, back to the same step
    m.clock_tick(&vec![MidiInEvent::Clock; 96]);
    assert_eq!(m.transport.current_step, 2);
}
