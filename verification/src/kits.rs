//! SID synthesis parameters of the four kits.
//!
//! Each kit has 7 `DrumVoice` entries (one per track).
//! Voice assignment:
//!   SID1 v0 = Kick    SID1 v1 = Snare   SID1 v2 = ClosedHat / OpenHat (shared)
//!   SID2 v0 = Tom     SID2 v1 = Clap    SID2 v2 = Crash
use vstd::prelude::*;

use crate::types::{Kit, NUM_TRACKS};

verus! {

// SID waveform control bits (same as original hardware)
pub const GATE: u8 = 0x01;

pub const TRI: u8 = 0x10;

pub const SAW: u8 = 0x20;

pub const PULSE: u8 = 0x40;

pub const NOISE: u8 = 0x80;

/// Synthesis parameters for a single drum instrument.
#[derive(Debug, Clone, Copy, PartialEq, Eq, Structural)]
pub struct DrumVoice {
    pub freq_start: u16,
    pub freq_end: u16,
    pub waveform: u8,
    pub attack_decay: u8,
    pub sustain_release: u8,
    pub sweep_rate: u16,
    /// Gate duration in ISR ticks (~240 Hz on the original hardware).
    pub ttl: u8,
    /// Optional second waveform (Hubbard noise-then-pitched technique).
    /// 0 = no switch.
    pub wave2: u8,
    pub wave2_tick: u8,
    pub freq2: u16,
}

/// The voice with the given parameters, in the order `DrumVoice::new` takes them.
pub open spec fn dv(
    freq_start: u16,
    freq_end: u16,
    waveform: u8,
    ad: u8,
    sr: u8,
    sweep: u16,
    ttl: u8,
    wave2: u8,
    wave2_tick: u8,
    freq2: u16,
) -> DrumVoice {
    DrumVoice {
        freq_start,
        freq_end,
        waveform,
        attack_decay: ad,
        sustain_release: sr,
        sweep_rate: sweep,
        ttl,
        wave2,
        wave2_tick,
        freq2,
    }
}

impl DrumVoice {
    pub fn new(
        freq_start: u16,
        freq_end: u16,
        waveform: u8,
        ad: u8,
        sr: u8,
        sweep: u16,
        ttl: u8,
        wave2: u8,
        wave2_tick: u8,
        freq2: u16,
    ) -> (r: Self)
        ensures
            r == dv(freq_start, freq_end, waveform, ad, sr, sweep, ttl, wave2, wave2_tick, freq2),
    {
        DrumVoice {
            freq_start,
            freq_end,
            waveform,
            attack_decay: ad,
            sustain_release: sr,
            sweep_rate: sweep,
            ttl,
            wave2,
            wave2_tick,
            freq2,
        }
    }
}

/// KIT_909 – punchy electronic TR-909 style (row `t` of the kit).
pub open spec fn kit_909(t: int) -> DrumVoice {
    if t == 0 {
        // kick:  noise click then TRI pitch sweep
        dv(3405, 936, NOISE, 0x03, 0x09, 133, 16, TRI | GATE, 2, 3065)
    } else if t == 1 {
        // snare: noise crack then TRI body
        dv(22000, 22000, NOISE, 0x01, 0x06, 0, 9, TRI | GATE, 2, 2724)
    } else if t == 2 {
        // chh:   very high noise, ultra-short
        dv(32000, 32000, NOISE, 0x01, 0x01, 0, 2, 0, 0, 0)
    } else if t == 3 {
        // ohh:   same noise, longer decay
        dv(32000, 32000, NOISE, 0x01, 0x07, 0, 11, 0, 0, 0)
    } else if t == 4 {
        // tom:   noise sweep then TRI body
        dv(16000, 4257, NOISE, 0x02, 0x08, 30, 13, TRI | GATE, 2, 4257)
    } else if t == 5 {
        // clap:  high noise, short
        dv(24000, 24000, NOISE, 0x01, 0x04, 0, 5, 0, 0, 0)
    } else {
        // crash: high noise, long decay
        dv(30000, 30000, NOISE, 0x01, 0x0C, 0, 24, 0, 0, 0)
    }
}

/// KIT_808 – deep boomy TR-808 style.
pub open spec fn kit_808(t: int) -> DrumVoice {
    if t == 0 {
        dv(2213, 851, SAW, 0x09, 0x00, 19, 80, TRI | GATE, 2, 0)
    } else if t == 1 {
        dv(12000, 12000, NOISE, 0x03, 0x00, 0, 14, TRI | GATE, 2, 2724)
    } else if t == 2 {
        dv(58000, 58000, NOISE, 0x01, 0x01, 0, 4, 0, 0, 0)
    } else if t == 3 {
        dv(58000, 58000, NOISE, 0x01, 0x05, 0, 22, 0, 0, 0)
    } else if t == 4 {
        dv(2213, 851, PULSE, 0x05, 0x00, 14, 20, 0, 0, 0)
    } else if t == 5 {
        dv(16000, 16000, NOISE, 0x01, 0x05, 0, 8, 0, 0, 0)
    } else {
        dv(20000, 20000, NOISE, 0x02, 0x0D, 0, 38, 0, 0, 0)
    }
}

/// KIT_ROCK – Hubbard noise-transient + pitched body style.
pub open spec fn kit_rock(t: int) -> DrumVoice {
    if t == 0 {
        dv(6500, 100, TRI, 0x02, 0x0A, 25, 22, 0, 0, 0)
    } else if t == 1 {
        dv(28000, 28000, NOISE, 0x01, 0x08, 0, 11, PULSE | GATE, 1, 3800)
    } else if t == 2 {
        dv(20000, 20000, NOISE, 0x01, 0x02, 0, 3, 0, 0, 0)
    } else if t == 3 {
        dv(20000, 20000, NOISE, 0x01, 0x09, 0, 13, 0, 0, 0)
    } else if t == 4 {
        dv(16000, 1396, NOISE, 0x02, 0x09, 106, 22, SAW | GATE, 2, 3746)
    } else if t == 5 {
        dv(19000, 19000, NOISE, 0x01, 0x05, 0, 6, 0, 0, 0)
    } else {
        dv(17000, 17000, NOISE, 0x02, 0x0E, 0, 38, 0, 0, 0)
    }
}

/// KIT_SID – pure C64 game-music style.
pub open spec fn kit_sid(t: int) -> DrumVoice {
    if t == 0 {
        dv(4257, 681, NOISE, 0x02, 0x00, 255, 14, PULSE | GATE, 2, 0)
    } else if t == 1 {
        dv(18000, 18000, NOISE, 0x01, 0x00, 0, 5, 0, 0, 0)
    } else if t == 2 {
        dv(62000, 62000, NOISE, 0x01, 0x00, 0, 2, 0, 0, 0)
    } else if t == 3 {
        dv(62000, 62000, NOISE, 0x01, 0x03, 0, 12, 0, 0, 0)
    } else if t == 4 {
        dv(6811, 1362, NOISE, 0x02, 0x00, 544, 10, PULSE | GATE, 2, 0)
    } else if t == 5 {
        dv(20000, 20000, NOISE, 0x02, 0x00, 0, 8, 0, 0, 0)
    } else {
        dv(55000, 55000, NOISE, 0x01, 0x0C, 0, 30, 0, 0, 0)
    }
}

/// The voice of track row `t` in `kit`.
pub open spec fn kit_voice(kit: Kit, t: int) -> DrumVoice {
    match kit {
        Kit::Tr909 => kit_909(t),
        Kit::Tr808 => kit_808(t),
        Kit::Rock => kit_rock(t),
        Kit::Sid => kit_sid(t),
    }
}

pub type KitDef = [DrumVoice; NUM_TRACKS];

/// The seven voices of a kit, in track order.
pub fn kit_for(kit: Kit) -> (r: KitDef)
    ensures
        forall|t: int| 0 <= t < NUM_TRACKS ==> #[trigger] r[t] == kit_voice(kit, t),
{
    match kit {
        Kit::Tr909 => [
            DrumVoice::new(3405, 936, NOISE, 0x03, 0x09, 133, 16, TRI | GATE, 2, 3065),
            DrumVoice::new(22000, 22000, NOISE, 0x01, 0x06, 0, 9, TRI | GATE, 2, 2724),
            DrumVoice::new(32000, 32000, NOISE, 0x01, 0x01, 0, 2, 0, 0, 0),
            DrumVoice::new(32000, 32000, NOISE, 0x01, 0x07, 0, 11, 0, 0, 0),
            DrumVoice::new(16000, 4257, NOISE, 0x02, 0x08, 30, 13, TRI | GATE, 2, 4257),
            DrumVoice::new(24000, 24000, NOISE, 0x01, 0x04, 0, 5, 0, 0, 0),
            DrumVoice::new(30000, 30000, NOISE, 0x01, 0x0C, 0, 24, 0, 0, 0),
        ],
        Kit::Tr808 => [
            DrumVoice::new(2213, 851, SAW, 0x09, 0x00, 19, 80, TRI | GATE, 2, 0),
            DrumVoice::new(12000, 12000, NOISE, 0x03, 0x00, 0, 14, TRI | GATE, 2, 2724),
            DrumVoice::new(58000, 58000, NOISE, 0x01, 0x01, 0, 4, 0, 0, 0),
            DrumVoice::new(58000, 58000, NOISE, 0x01, 0x05, 0, 22, 0, 0, 0),
            DrumVoice::new(2213, 851, PULSE, 0x05, 0x00, 14, 20, 0, 0, 0),
            DrumVoice::new(16000, 16000, NOISE, 0x01, 0x05, 0, 8, 0, 0, 0),
            DrumVoice::new(20000, 20000, NOISE, 0x02, 0x0D, 0, 38, 0, 0, 0),
        ],
        Kit::Rock => [
            DrumVoice::new(6500, 100, TRI, 0x02, 0x0A, 25, 22, 0, 0, 0),
            DrumVoice::new(28000, 28000, NOISE, 0x01, 0x08, 0, 11, PULSE | GATE, 1, 3800),
            DrumVoice::new(20000, 20000, NOISE, 0x01, 0x02, 0, 3, 0, 0, 0),
            DrumVoice::new(20000, 20000, NOISE, 0x01, 0x09, 0, 13, 0, 0, 0),
            DrumVoice::new(16000, 1396, NOISE, 0x02, 0x09, 106, 22, SAW | GATE, 2, 3746),
            DrumVoice::new(19000, 19000, NOISE, 0x01, 0x05, 0, 6, 0, 0, 0),
            DrumVoice::new(17000, 17000, NOISE, 0x02, 0x0E, 0, 38, 0, 0, 0),
        ],
        Kit::Sid => [
            DrumVoice::new(4257, 681, NOISE, 0x02, 0x00, 255, 14, PULSE | GATE, 2, 0),
            DrumVoice::new(18000, 18000, NOISE, 0x01, 0x00, 0, 5, 0, 0, 0),
            DrumVoice::new(62000, 62000, NOISE, 0x01, 0x00, 0, 2, 0, 0, 0),
            DrumVoice::new(62000, 62000, NOISE, 0x01, 0x03, 0, 12, 0, 0, 0),
            DrumVoice::new(6811, 1362, NOISE, 0x02, 0x00, 544, 10, PULSE | GATE, 2, 0),
            DrumVoice::new(20000, 20000, NOISE, 0x02, 0x00, 0, 8, 0, 0, 0),
            DrumVoice::new(55000, 55000, NOISE, 0x01, 0x0C, 0, 30, 0, 0, 0),
        ],
    }
}

/// Every kit voice sweeps down (never up), stays on for at least one tick,
/// and its sweep target plus step fits a 16-bit frequency.
pub proof fn lemma_kit_voices_sane(kit: Kit, t: int)
    requires
        0 <= t < NUM_TRACKS,
    ensures
        kit_voice(kit, t).freq_end <= kit_voice(kit, t).freq_start,
        kit_voice(kit, t).freq_end + kit_voice(kit, t).sweep_rate <= u16::MAX,
        kit_voice(kit, t).ttl > 0,
{
    assert(TRI | GATE == 0x11u8) by (bit_vector);
    assert(PULSE | GATE == 0x41u8) by (bit_vector);
    assert(SAW | GATE == 0x21u8) by (bit_vector);
}

// ── Voice routing ────────────────────────────────────────────────────────────
/// Physical voice (0..6) of track row `t`; the two hats share voice 2.
pub open spec fn voice_of_track(t: int) -> int {
    if t <= 2 {
        t
    } else {
        t - 1
    }
}

/// Physical voice index for each track (mirrors T2V in original sid.c).
/// Voices 0-2 → SID1, voices 3-5 → SID2.
pub fn track_to_voice(t: usize) -> (r: usize)
    requires
        t < NUM_TRACKS,
    ensures
        r as int == voice_of_track(t as int),
        r < 6,
{
    if t <= 2 {
        t
    } else {
        t - 1
    }
}

/// SID chip (0 or 1) of physical voice `v`.
pub fn voice_sid(v: usize) -> (r: u8)
    requires
        v < 6,
    ensures
        r as int == v / 3,
{
    if v < 3 {
        0
    } else {
        1
    }
}

/// Voice number (0..3) on its chip of physical voice `v`.
pub fn voice_num(v: usize) -> (r: u8)
    requires
        v < 6,
    ensures
        r as int == v % 3,
{
    if v < 3 {
        v as u8
    } else {
        (v - 3) as u8
    }
}

} // verus!
