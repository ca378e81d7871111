use drumbox64::asid::{AsidBackend, RegWrite};
use drumbox64::kits::{kit_for, track_to_voice, voice_num, voice_sid, DrumVoice, GATE, NOISE, TRI};
use drumbox64::types::{DrumEvent, Kit, Track, Velocity};

fn w(sid: u8, reg: u8, val: u8) -> RegWrite {
    RegWrite { sid, reg, val }
}

#[test]
fn kit_tables() {
    let k = kit_for(Kit::Tr909);
    assert_eq!(k[0], DrumVoice::new(3405, 936, NOISE, 0x03, 0x09, 133, 16, TRI | GATE, 2, 3065));
    assert_eq!(kit_for(Kit::Sid)[4].sweep_rate, 544);
    assert_eq!(kit_for(Kit::Rock)[1].wave2_tick, 1);
    assert_eq!(kit_for(Kit::Tr808)[6].ttl, 38);
}

#[test]
fn voice_routing() {
    let v: Vec<usize> = (0..7).map(track_to_voice).collect();
    assert_eq!(v, vec![0, 1, 2, 2, 3, 4, 5]);
    assert_eq!((0..6).map(voice_sid).collect::<Vec<u8>>(), vec![0, 0, 0, 1, 1, 1]);
    assert_eq!((0..6).map(voice_num).collect::<Vec<u8>>(), vec![0, 1, 2, 0, 1, 2]);
}

#[test]
fn trigger_programs_the_voice() {
    let mut b = AsidBackend::new(Kit::Tr909);
    let ev = DrumEvent { track: Track::Tom, velocity: Velocity::Loud, step: 0 };
    let writes = b.trigger(&ev, 127);
    // Tom is voice 3 = SID2 voice 0.
    assert_eq!(
        writes,
        vec![
            w(1, 0x18, 15),
            w(1, 4, 0x08),
            w(1, 5, 0x02),
            w(1, 6, 0x08),
            w(1, 0, (16000 & 0xFF) as u8),
            w(1, 1, (16000 >> 8) as u8),
            w(1, 4, 0x81),
        ]
    );
    assert!(b.voices[3].active);
    assert_eq!(b.voices[3].freq, 16000);
    assert_eq!(writes[6].global_reg(), 0x24);
}

#[test]
fn trigger_volume_and_pulse_width() {
    let mut b = AsidBackend::new(Kit::Sid);
    let ev = DrumEvent { track: Track::Kick, velocity: Velocity::Soft, step: 0 };
    let writes = b.trigger(&ev, 64);
    // 6 * 64 + 64 = 448; 448 / 127 = 3
    assert_eq!(writes[0], w(0, 0x18, 3));
    // pulse second waveform: pulse width set
    assert_eq!(writes[1], w(0, 2, 0));
    assert_eq!(writes[2], w(0, 3, 8));
    let off = DrumEvent { track: Track::Kick, velocity: Velocity::Off, step: 0 };
    let mut c = AsidBackend::new(Kit::Sid);
    assert!(c.trigger(&off, 127).is_empty());
    assert!(!c.voices[0].active);
}

#[test]
fn tick_sweeps_switches_and_gates() {
    let mut b = AsidBackend::new(Kit::Tr909);
    b.trigger(&DrumEvent { track: Track::Kick, velocity: Velocity::Loud, step: 0 }, 127);
    // tick 1: wave2_tick 2 -> 1, ttl 16 -> 15, sweep 3405 -> 3272
    let t1 = b.tick();
    assert_eq!(t1, vec![w(0, 0, (3272 & 0xFF) as u8), w(0, 1, (3272 >> 8) as u8)]);
    // tick 2: waveform switch to freq2 3065 and TRI|GATE, then sweep 3065 -> 2932
    let t2 = b.tick();
    assert_eq!(
        t2,
        vec![
            w(0, 0, (3065 & 0xFF) as u8),
            w(0, 1, (3065 >> 8) as u8),
            w(0, 4, 0x11),
            w(0, 0, (2932 & 0xFF) as u8),
            w(0, 1, (2932 >> 8) as u8),
        ]
    );
    let mut ticks = 2;
    while b.voices[0].active {
        b.tick();
        ticks += 1;
    }
    assert_eq!(ticks, 16);
    assert_eq!(b.voices[0].freq, 1203);
    assert!(b.tick().is_empty());
}

#[test]
fn gate_off_on_last_tick() {
    let mut b = AsidBackend::new(Kit::Tr909);
    b.trigger(&DrumEvent { track: Track::ClosedHat, velocity: Velocity::Medium, step: 0 }, 127);
    assert!(b.tick().is_empty());
    assert_eq!(b.tick(), vec![w(0, 2 * 7 + 4, 0)]);
    assert!(!b.voices[2].active);
}

#[test]
fn reset_and_set_kit() {
    let mut b = AsidBackend::new(Kit::Tr909);
    b.trigger(&DrumEvent { track: Track::Crash, velocity: Velocity::Loud, step: 0 }, 100);
    b.set_kit(Kit::Rock);
    assert_eq!(b.kit, Kit::Rock);
    assert!(b.voices[5].active);
    b.reset();
    assert!(b.voices.iter().all(|v| !v.active));
    assert_eq!(b.kit, Kit::Rock);
}

#[test]
fn sweep_after_waveform_switch_and_gate_off() {
    // 909 tom: sweep 30 toward 4257, switches to 4257 (its target) on tick 2
    let mut b = AsidBackend::new(Kit::Tr909);
    b.trigger(&DrumEvent { track: Track::Tom, velocity: Velocity::Loud, step: 0 }, 127);
    let t1 = b.tick();
    assert_eq!(t1, vec![w(1, 0, ((16000 - 30) & 0xFF) as u8), w(1, 1, ((16000 - 30) >> 8) as u8)]);
    let t2 = b.tick();
    // switch writes only: frequency now at the target, so no sweep write
    assert_eq!(t2, vec![w(1, 0, (4257 & 0xFF) as u8), w(1, 1, (4257 >> 8) as u8), w(1, 4, 0x11)]);
    for _ in 3..13 {
        assert!(b.tick().is_empty());
    }
    assert_eq!(b.tick(), vec![w(1, 4, 0)]);
    assert!(b.tick().is_empty());
}
