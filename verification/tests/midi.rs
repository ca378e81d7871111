use drumbox64::midi::{MidiBackend, MidiCommand, MidiInEvent, DRUM_CHANNEL};

#[test]
fn notes_with_pan_changes_only() {
    let mut m = MidiBackend::new();
    assert_eq!(m.channel, DRUM_CHANNEL);
    let msgs = m.handle(MidiCommand::Notes(vec![(36, 127, 0), (38, 80, 0), (42, 40, -64)]));
    assert_eq!(
        msgs,
        vec![
            vec![0xB9, 10, 64],
            vec![0x99, 36, 127],
            vec![0x89, 36, 0],
            vec![0x99, 38, 80],
            vec![0x89, 38, 0],
            vec![0xB9, 10, 0],
            vec![0x99, 42, 40],
            vec![0x89, 42, 0],
        ]
    );
    assert_eq!(m.last_pan_cc, Some(0));
    // Same pan again: no CC
    let msgs = m.handle(MidiCommand::Notes(vec![(36, 1, -64)]));
    assert_eq!(msgs, vec![vec![0x99, 36, 1], vec![0x89, 36, 0]]);
}

#[test]
fn pan_extremes_are_clamped() {
    let mut m = MidiBackend::new();
    assert_eq!(m.set_pan(63), Some(vec![0xB9, 10, 127]));
    assert_eq!(m.set_pan(127), None);
    assert_eq!(m.set_pan(-128), Some(vec![0xB9, 10, 0]));
}

#[test]
fn transport_commands() {
    let mut m = MidiBackend::new();
    assert_eq!(m.handle(MidiCommand::Start), vec![vec![0xFA]]);
    assert_eq!(m.handle(MidiCommand::Stop), vec![vec![0xFC], vec![0xB9, 123, 0]]);
    assert_eq!(m.handle(MidiCommand::Clock), vec![vec![0xF8]]);
    assert_eq!(m.all_notes_off(), vec![0xB9, 123, 0]);
}

#[test]
fn incoming_transport_messages() {
    assert_eq!(MidiInEvent::from_message(&[0xF8]), Some(MidiInEvent::Clock));
    assert_eq!(MidiInEvent::from_message(&[0xFA]), Some(MidiInEvent::Start));
    assert_eq!(MidiInEvent::from_message(&[0xFB]), Some(MidiInEvent::Continue));
    assert_eq!(MidiInEvent::from_message(&[0xFC, 1]), Some(MidiInEvent::Stop));
    assert_eq!(MidiInEvent::from_message(&[0x90, 36, 100]), None);
    assert_eq!(MidiInEvent::from_message(&[]), None);
}

#[test]
fn sent_transport_is_read_back() {
    let mut m = MidiBackend::new();
    let start = m.handle(MidiCommand::Start);
    let stop = m.handle(MidiCommand::Stop);
    let clock = m.handle(MidiCommand::Clock);
    assert_eq!(MidiInEvent::from_message(&start[0]), Some(MidiInEvent::Start));
    assert_eq!(MidiInEvent::from_message(&stop[0]), Some(MidiInEvent::Stop));
    assert_eq!(MidiInEvent::from_message(&clock[0]), Some(MidiInEvent::Clock));
}
