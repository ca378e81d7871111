use drumbox64::types::{DrumEvent, Kit, Pattern, Track, Transport, Velocity, NUM_STEPS, NUM_TRACKS};

#[test]
fn velocity_cycle_order() {
    assert_eq!(Velocity::Off.cycle(), Velocity::Loud);
    assert_eq!(Velocity::Loud.cycle(), Velocity::Medium);
    assert_eq!(Velocity::Medium.cycle(), Velocity::Soft);
    assert_eq!(Velocity::Soft.cycle(), Velocity::Off);
}

#[test]
fn velocity_values() {
    assert_eq!(Velocity::from_u8(3), Velocity::Loud);
    assert_eq!(Velocity::from_u8(7), Velocity::Off);
    assert_eq!(Velocity::Medium.to_u8(), 2);
    assert_eq!(Velocity::Loud as u8, 3);
    assert_eq!(Velocity::Soft.midi_velocity(), 40);
    assert_eq!(Velocity::Medium.sid_vol(), 0x0B);
    assert!(!Velocity::Off.is_active());
    assert!(Velocity::Soft.is_active());
}

#[test]
fn track_values() {
    assert_eq!(Track::from_index(2), Some(Track::ClosedHat));
    assert_eq!(Track::from_index(7), None);
    assert_eq!(Track::Kick.midi_note(), 36);
    assert_eq!(Track::Crash.midi_note(), 49);
    assert_eq!(Track::OpenHat.label(), "O.Hat");
    assert_eq!(Track::Tom.index(), 4);
    assert_eq!(Track::all().len(), NUM_TRACKS);
}

#[test]
fn kit_values() {
    assert_eq!(Kit::from_u8(1), Kit::Tr808);
    assert_eq!(Kit::from_u8(200), Kit::Tr909);
    assert_eq!(Kit::Sid.label(), "SID");
    assert_eq!(Kit::Rock.to_u8(), 2);
    assert_eq!(Kit::default(), Kit::Tr909);
    assert_eq!(Kit::all()[3], Kit::Sid);
}

#[test]
fn default_pattern_and_transport() {
    let p = Pattern::default();
    assert_eq!(p.name, "New Pattern");
    assert_eq!(p.tempo, 120);
    assert_eq!(p.swing, 0);
    assert_eq!(p.kit, Kit::Tr909);
    assert_eq!(p.track_volume, [100; NUM_TRACKS]);
    assert_eq!(p.track_pan, [0; NUM_TRACKS]);
    assert!(p.steps.iter().all(|row| row.iter().all(|v| *v == Velocity::Off)));
    let t = Transport::default();
    assert!(!t.playing);
    assert_eq!(t.current_step, 0);
    assert_eq!(t.bpm, 120);
}

fn tracks(evs: &[DrumEvent]) -> Vec<Track> {
    evs.iter().map(|e| e.track).collect()
}

#[test]
fn events_at_step_in_track_order() {
    let mut p = Pattern::default();
    p.steps[0][4] = Velocity::Loud;
    p.steps[2][4] = Velocity::Soft;
    p.steps[6][4] = Velocity::Medium;
    let evs = p.events_at_step(4);
    assert_eq!(tracks(&evs), vec![Track::Kick, Track::ClosedHat, Track::Crash]);
    assert_eq!(evs[2].velocity, Velocity::Medium);
    assert!(evs.iter().all(|e| e.step == 4));
    assert!(p.events_at_step(5).is_empty());
    assert_eq!(NUM_STEPS, 16);
}

#[test]
fn open_hat_silences_closed_hat() {
    let mut p = Pattern::default();
    p.steps[2][0] = Velocity::Loud;
    p.steps[3][0] = Velocity::Soft;
    let evs = p.events_at_step(0);
    assert_eq!(tracks(&evs), vec![Track::OpenHat]);
}

#[test]
fn four_clicks_return_a_step() {
    for v in [Velocity::Off, Velocity::Soft, Velocity::Medium, Velocity::Loud] {
        assert_eq!(v.cycle().cycle().cycle().cycle(), v);
        assert_eq!(Velocity::from_u8(v.to_u8()), v);
    }
    assert_eq!(Velocity::default(), Velocity::Off);
}
