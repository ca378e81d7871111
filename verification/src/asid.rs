//! The SID voice engine behind ASID / USBSID-Pico playback.
//!
//! `AsidBackend` keeps the sweep state of the six SID voices (three per chip)
//! and turns drum events and timer ticks into SID register writes. Sending
//! the writes to the device is left to the caller, who writes them in order
//! and then flushes.
use vstd::prelude::*;

use crate::kits::{kit_for, kit_voice, track_to_voice, voice_num, voice_of_track, voice_sid, DrumVoice, GATE, PULSE};
use crate::types::{DrumEvent, Kit, Velocity, NUM_TRACKS};

verus! {

/// Number of physical voices: three on each of the two SID chips.
pub const NUM_VOICES: usize = 6;

/// The SID master-volume register.
pub const REG_VOLUME: u8 = 0x18;

/// Active voice sweep state.
#[derive(Debug, Clone, Copy, PartialEq, Eq, Structural)]
pub struct VoiceState {
    pub freq: u16,
    pub freq_end: u16,
    pub sweep: u16,
    pub ttl: u8,
    pub active: bool,
    pub wave2: u8,
    pub wave2_tick: u8,
    pub freq2: u16,
}

/// A voice that is not playing.
pub open spec fn silent_voice() -> VoiceState {
    VoiceState {
        freq: 0,
        freq_end: 0,
        sweep: 0,
        ttl: 0,
        active: false,
        wave2: 0,
        wave2_tick: 0,
        freq2: 0,
    }
}

/// The state a voice starts in when it is triggered with kit voice `kv`.
pub open spec fn started_voice(kv: DrumVoice) -> VoiceState {
    VoiceState {
        freq: kv.freq_start,
        freq_end: kv.freq_end,
        sweep: kv.sweep_rate,
        ttl: kv.ttl,
        active: true,
        wave2: kv.wave2,
        wave2_tick: kv.wave2_tick,
        freq2: kv.freq2,
    }
}

impl VoiceState {
    /// The sweep target plus the sweep step fits a 16-bit frequency.
    pub open spec fn wf(self) -> bool {
        self.freq_end + self.sweep <= u16::MAX
    }

    /// A voice that is not playing.
    pub fn idle() -> (r: Self)
        ensures
            r == silent_voice(),
    {
        VoiceState {
            freq: 0,
            freq_end: 0,
            sweep: 0,
            ttl: 0,
            active: false,
            wave2: 0,
            wave2_tick: 0,
            freq2: 0,
        }
    }
}

/// One write of `val` to register `reg` of SID chip `sid`.
#[derive(Debug, Clone, Copy, PartialEq, Eq, Structural)]
pub struct RegWrite {
    pub sid: u8,
    pub reg: u8,
    pub val: u8,
}

pub open spec fn rw(sid: u8, reg: u8, val: u8) -> RegWrite {
    RegWrite { sid, reg, val }
}

/// A write to one of the 25 registers of one of the two chips.
pub open spec fn valid_write(w: RegWrite) -> bool {
    w.sid <= 1 && w.reg <= REG_VOLUME
}

pub open spec fn all_valid(ws: Seq<RegWrite>) -> bool {
    forall|i: int| 0 <= i < ws.len() ==> valid_write(#[trigger] ws[i])
}

impl RegWrite {
    /// Register address on the USBSID-Pico: SID2 registers sit 0x20 above
    /// those of SID1.
    pub fn global_reg(&self) -> (r: u8)
        requires
            valid_write(*self),
        ensures
            r == self.reg + 0x20 * self.sid,
    {
        self.reg + self.sid * 0x20
    }
}

/// The two writes that set the frequency registers at `base`, `base + 1`
/// to `f` (low byte first).
pub open spec fn freq_writes(sid: u8, base: u8, f: u16) -> Seq<RegWrite> {
    seq![rw(sid, base, (f & 0xFF) as u8), rw(sid, (base + 1) as u8, (f >> 8) as u8)]
}

/// SID master volume for a velocity scaled by a 0..=127 track volume
/// (127 keeps it), rounded, and held to 15.
pub open spec fn scaled_volume(v: Velocity, volume_127: u8) -> u8 {
    let x = (v.sid_level() * volume_127 + 64) / 127;
    if x < 15 {
        x as u8
    } else {
        15
    }
}

/// The writes that program voice `num` of chip `sid` for kit voice `kv` at
/// master volume `vol`: volume, pulse width (for pulse waveforms), test bit,
/// envelope, start frequency, and last the waveform plus gate bit.
pub open spec fn program_writes(sid: u8, num: u8, kv: DrumVoice, vol: u8) -> Seq<RegWrite> {
    let base = (num * 7) as u8;
    let pulse = (kv.waveform & PULSE) != 0 || (kv.wave2 & PULSE) != 0;
    seq![rw(sid, REG_VOLUME, vol)] + (if pulse {
        seq![rw(sid, (base + 2) as u8, 0x00), rw(sid, (base + 3) as u8, 0x08)]
    } else {
        Seq::empty()
    }) + seq![
        rw(sid, (base + 4) as u8, 0x08),
        rw(sid, (base + 5) as u8, kv.attack_decay),
        rw(sid, (base + 6) as u8, kv.sustain_release),
    ] + freq_writes(sid, base, kv.freq_start) + seq![rw(sid, (base + 4) as u8, kv.waveform | GATE)]
}

/// The waveform-switch part of a tick: counts the switch delay down and, when
/// it runs out, sets the second frequency (if any) and the second waveform.
pub open spec fn wave_phase(v: VoiceState, sid: u8, base: u8) -> (VoiceState, Seq<RegWrite>) {
    if v.wave2 != 0 && v.wave2_tick > 0 {
        let left = (v.wave2_tick - 1) as u8;
        if left == 0 {
            let fw = if v.freq2 != 0 {
                freq_writes(sid, base, v.freq2)
            } else {
                Seq::empty()
            };
            let nf = if v.freq2 != 0 {
                v.freq2
            } else {
                v.freq
            };
            (
                VoiceState { wave2_tick: 0, freq: nf, wave2: 0, ..v },
                fw.push(rw(sid, (base + 4) as u8, v.wave2)),
            )
        } else {
            (VoiceState { wave2_tick: left, ..v }, Seq::empty())
        }
    } else {
        (v, Seq::empty())
    }
}

/// One tick of physical voice `vi`: waveform switch, then gate countdown
/// (gate off and stop when it runs out), then one pitch-sweep step toward
/// the target frequency. Silent voices are left alone.
pub open spec fn tick_voice(v: VoiceState, vi: int) -> (VoiceState, Seq<RegWrite>) {
    let sid = (vi / 3) as u8;
    let base = ((vi % 3) * 7) as u8;
    if !v.active {
        (v, Seq::empty())
    } else {
        let (v1, w1) = wave_phase(v, sid, base);
        if v1.ttl == 1 {
            (VoiceState { ttl: 0, active: false, ..v1 }, w1.push(rw(sid, (base + 4) as u8, 0)))
        } else {
            let v2 = if v1.ttl > 0 {
                VoiceState { ttl: (v1.ttl - 1) as u8, ..v1 }
            } else {
                v1
            };
            if v2.sweep != 0 && v2.freq > v2.freq_end {
                let next = if v2.freq > v2.freq_end + v2.sweep {
                    (v2.freq - v2.sweep) as u16
                } else {
                    v2.freq_end
                };
                (VoiceState { freq: next, ..v2 }, w1 + freq_writes(sid, base, next))
            } else {
                (v2, w1)
            }
        }
    }
}

/// The writes of one tick for the first `n` voices, in voice order.
pub open spec fn tick_writes(voices: Seq<VoiceState>, n: int) -> Seq<RegWrite>
    decreases n,
{
    if n <= 0 {
        Seq::empty()
    } else {
        tick_writes(voices, n - 1) + tick_voice(voices[n - 1], n - 1).1
    }
}

/// What triggering `ev` at track volume `vol` does to the voices of a
/// backend playing `kit`, and the writes it gives.
pub open spec fn trigger_effect(voices: Seq<VoiceState>, kit: Kit, ev: DrumEvent, vol: u8) -> (
    Seq<VoiceState>,
    Seq<RegWrite>,
) {
    if ev.velocity == Velocity::Off {
        (voices, Seq::empty())
    } else {
        let t = ev.track.row();
        let vi = voice_of_track(t);
        let kv = kit_voice(kit, t);
        (
            voices.update(vi, started_voice(kv)),
            program_writes((vi / 3) as u8, (vi % 3) as u8, kv, scaled_volume(ev.velocity, vol)),
        )
    }
}

/// The voices after one tick.
pub open spec fn ticked_voices(voices: Seq<VoiceState>) -> Seq<VoiceState> {
    Seq::new(NUM_VOICES as nat, |i: int| tick_voice(voices[i], i).0)
}

/// Six voices, each within 16-bit sweep arithmetic.
pub open spec fn voices_wf(voices: Seq<VoiceState>) -> bool {
    &&& voices.len() == NUM_VOICES
    &&& forall|i: int| 0 <= i < NUM_VOICES ==> (#[trigger] voices[i]).wf()
}

/// ASID/USBSID-Pico voice engine: six voices and the kit they play.
pub struct AsidBackend {
    pub voices: [VoiceState; NUM_VOICES],
    pub kit: Kit,
}

proof fn lemma_freq_writes_valid(sid: u8, base: u8, f: u16)
    requires
        sid <= 1,
        base <= 14,
    ensures
        all_valid(freq_writes(sid, base, f)),
{
}

proof fn lemma_tick_voice(v: VoiceState, vi: int)
    requires
        0 <= vi < NUM_VOICES,
        v.wf(),
    ensures
        tick_voice(v, vi).0.wf(),
        all_valid(tick_voice(v, vi).1),
        tick_voice(v, vi).0.freq_end == v.freq_end,
        tick_voice(v, vi).0.sweep == v.sweep,
{
    let sid = (vi / 3) as u8;
    let base = ((vi % 3) * 7) as u8;
    assert(sid <= 1 && base <= 14);
    lemma_freq_writes_valid(sid, base, v.freq2);
    let (v1, w1) = wave_phase(v, sid, base);
    assert(all_valid(w1));
    if v1.freq > v1.freq_end + v1.sweep {
        lemma_freq_writes_valid(sid, base, (v1.freq - v1.sweep) as u16);
    }
    lemma_freq_writes_valid(sid, base, v1.freq_end);
}

fn push_freq(writes: &mut Vec<RegWrite>, sid: u8, base: u8, f: u16)
    requires
        base <= 14,
    ensures
        final(writes)@ == old(writes)@ + freq_writes(sid, base, f),
{
    writes.push(RegWrite { sid, reg: base, val: (f & 0xFF) as u8 });
    writes.push(RegWrite { sid, reg: base + 1, val: (f >> 8) as u8 });
    assert(final(writes)@ =~= old(writes)@ + freq_writes(sid, base, f));
}

/// One tick of one voice; see `tick_voice`.
fn tick_one(v: VoiceState, vi: usize) -> (r: (VoiceState, Vec<RegWrite>))
    requires
        vi < NUM_VOICES,
        v.wf(),
    ensures
        r.0 == tick_voice(v, vi as int).0,
        r.1@ == tick_voice(v, vi as int).1,
{
    let mut writes: Vec<RegWrite> = Vec::new();
    if !v.active {
        return (v, writes);
    }
    let sid = voice_sid(vi);
    let base = voice_num(vi) * 7;
    let mut s = v;

    // Waveform switch (Hubbard technique)
    if s.wave2 != 0 && s.wave2_tick > 0 {
        s.wave2_tick = s.wave2_tick - 1;
        if s.wave2_tick == 0 {
            if s.freq2 != 0 {
                let f = s.freq2;
                push_freq(&mut writes, sid, base, f);
                s.freq = f;
            }
            let w2 = s.wave2;
            writes.push(RegWrite { sid, reg: base + 4, val: w2 });
            s.wave2 = 0;
        }
    }
    let ghost v1 = s;
    let ghost w1 = writes@;
    assert(wave_phase(v, sid, base) == (v1, w1));

    // Gate duration
    if s.ttl > 0 {
        s.ttl = s.ttl - 1;
        if s.ttl == 0 {
            writes.push(RegWrite { sid, reg: base + 4, val: 0 });
            s.active = false;
            return (s, writes);
        }
    }

    // Pitch sweep
    if s.sweep != 0 && s.freq > s.freq_end {
        let next = if s.freq > s.freq_end + s.sweep {
            s.freq - s.sweep
        } else {
            s.freq_end
        };
        s.freq = next;
        push_freq(&mut writes, sid, base, next);
    }
    (s, writes)
}

impl AsidBackend {
    /// Every voice's sweep target plus step fits a 16-bit frequency.
    pub open spec fn wf(&self) -> bool {
        voices_wf(self.voices@)
    }

    /// A backend with all voices silent, playing `kit`.
    pub fn new(kit: Kit) -> (r: Self)
        ensures
            r.kit == kit,
            forall|i: int| 0 <= i < NUM_VOICES ==> #[trigger] r.voices[i] == silent_voice(),
            r.wf(),
    {
        AsidBackend { voices: [VoiceState::idle(); NUM_VOICES], kit }
    }

    pub fn set_kit(&mut self, kit: Kit)
        ensures
            final(self).kit == kit,
            final(self).voices == old(self).voices,
    {
        self.kit = kit;
    }

    /// Clears the voice state (every voice silent); the kit is kept.
    pub fn reset(&mut self)
        ensures
            final(self).kit == old(self).kit,
            forall|i: int| 0 <= i < NUM_VOICES ==> #[trigger] final(self).voices[i] == silent_voice(),
            final(self).wf(),
    {
        self.voices = [VoiceState::idle(); NUM_VOICES];
    }

    /// Trigger a drum event: returns the register writes that program the
    /// track's voice, and starts that voice's sweep state. `volume_127`
    /// scales the SID master volume derived from the velocity (127 = no
    /// scaling). An `Off` event does nothing.
    pub fn trigger(&mut self, event: &DrumEvent, volume_127: u8) -> (w: Vec<RegWrite>)
        requires
            old(self).wf(),
        ensures
            final(self).wf(),
            final(self).kit == old(self).kit,
            all_valid(w@),
            (final(self).voices@, w@) == trigger_effect(
                old(self).voices@,
                old(self).kit,
                *event,
                volume_127,
            ),
            event.velocity == Velocity::Off ==> w@ == Seq::<RegWrite>::empty() && final(self).voices
                == old(self).voices,
            event.velocity != Velocity::Off ==> ({
                let t = event.track.row();
                let vi = voice_of_track(t);
                let kv = kit_voice(old(self).kit, t);
                &&& w@ == program_writes(
                    (vi / 3) as u8,
                    (vi % 3) as u8,
                    kv,
                    scaled_volume(event.velocity, volume_127),
                )
                &&& final(self).voices@ == old(self).voices@.update(vi, started_voice(kv))
            }),
    {
        let mut writes: Vec<RegWrite> = Vec::new();
        if !event.velocity.is_active() {
            return writes;
        }
        let track_idx = event.track.index();
        let vi = track_to_voice(track_idx);
        let sid = voice_sid(vi);
        let num = voice_num(vi);
        let kit = kit_for(self.kit);
        let kv = kit[track_idx];
        proof {
            crate::kits::lemma_kit_voices_sane(self.kit, track_idx as int);
        }
        let base_vol = event.velocity.sid_vol() as u16;
        assert(base_vol * volume_127 <= 15 * 255) by (nonlinear_arith)
            requires
                base_vol <= 15,
        ;
        let scaled = (base_vol * volume_127 as u16 + 64) / 127;
        let vol: u8 = if scaled < 15 { scaled as u8 } else { 15 };

        // Program the voice registers.
        let base = num * 7;
        writes.push(RegWrite { sid, reg: REG_VOLUME, val: vol });
        if (kv.waveform & PULSE != 0) || (kv.wave2 & PULSE != 0) {
            writes.push(RegWrite { sid, reg: base + 2, val: 0x00 });
            writes.push(RegWrite { sid, reg: base + 3, val: 0x08 });
        }
        writes.push(RegWrite { sid, reg: base + 4, val: GATE << 3 });  // TEST bit — reset oscillator
        writes.push(RegWrite { sid, reg: base + 5, val: kv.attack_decay });
        writes.push(RegWrite { sid, reg: base + 6, val: kv.sustain_release });
        push_freq(&mut writes, sid, base, kv.freq_start);
        writes.push(RegWrite { sid, reg: base + 4, val: kv.waveform | GATE });
        proof {
            assert(GATE << 3 == 0x08u8) by (bit_vector);
            assert(writes@ =~= program_writes(sid, num, kv, vol));
            lemma_freq_writes_valid(sid, base, kv.freq_start);
        }

        self.voices[vi] = VoiceState {
            freq: kv.freq_start,
            freq_end: kv.freq_end,
            sweep: kv.sweep_rate,
            ttl: kv.ttl,
            active: true,
            wave2: kv.wave2,
            wave2_tick: kv.wave2_tick,
            freq2: kv.freq2,
        };
        assert(self.voices@ =~= old(self).voices@.update(vi as int, started_voice(kv)));
        writes
    }

    /// Advance sweep state by one tick (~240 Hz): returns the register writes
    /// of all six voices, in voice order.
    pub fn tick(&mut self) -> (w: Vec<RegWrite>)
        requires
            old(self).wf(),
        ensures
            final(self).wf(),
            final(self).kit == old(self).kit,
            forall|i: int|
                0 <= i < NUM_VOICES ==> #[trigger] final(self).voices[i] == tick_voice(
                    old(self).voices[i],
                    i,
                ).0,
            w@ == tick_writes(old(self).voices@, NUM_VOICES as int),
            final(self).voices@ == ticked_voices(old(self).voices@),
            all_valid(w@),
    {
        let ghost start = self.voices@;
        let mut writes: Vec<RegWrite> = Vec::new();
        let mut vi: usize = 0;
        while vi < NUM_VOICES
            invariant
                vi <= NUM_VOICES,
                self.kit == old(self).kit,
                start == old(self).voices@,
                forall|i: int| 0 <= i < NUM_VOICES ==> (#[trigger] start[i]).wf(),
                forall|i: int| 0 <= i < vi ==> #[trigger] self.voices[i] == tick_voice(start[i], i).0,
                forall|i: int| vi <= i < NUM_VOICES ==> #[trigger] self.voices[i] == start[i],
                forall|i: int| 0 <= i < NUM_VOICES ==> (#[trigger] self.voices[i]).wf(),
                writes@ == tick_writes(start, vi as int),
                all_valid(writes@),
            decreases NUM_VOICES - vi,
        {
            proof {
                lemma_tick_voice(start[vi as int], vi as int);
            }
            let (nv, mut w) = tick_one(self.voices[vi], vi);
            self.voices[vi] = nv;
            writes.append(&mut w);
            assert(writes@ =~= tick_writes(start, vi as int + 1));
            vi = vi + 1;
        }
        assert(self.voices@ =~= ticked_voices(old(self).voices@));
        writes
    }
}

// ── Laws ─────────────────────────────────────────────────────────────────────
/// The state of voice `vi` after `n` ticks.
pub open spec fn tick_n(v: VoiceState, vi: int, n: nat) -> VoiceState
    decreases n,
{
    if n == 0 {
        v
    } else {
        tick_voice(tick_n(v, vi, (n - 1) as nat), vi).0
    }
}

/// A silent voice stays as it is and writes nothing.
pub proof fn lemma_silent_voice_untouched(v: VoiceState, vi: int)
    requires
        !v.active,
    ensures
        tick_voice(v, vi) == (v, Seq::<RegWrite>::empty()),
{
}

/// While its gate counter runs, a playing voice loses one count per tick.
pub proof fn lemma_gate_countdown(v: VoiceState, vi: int, j: nat)
    requires
        v.active,
        j < v.ttl,
    ensures
        tick_n(v, vi, j).active,
        tick_n(v, vi, j).ttl == v.ttl - j,
        tick_n(v, vi, j).freq_end == v.freq_end,
        tick_n(v, vi, j).sweep == v.sweep,
        tick_n(v, vi, j).freq2 == v.freq2,
        v.wave2 != 0 && v.wave2_tick > 0 && j < v.wave2_tick ==> tick_n(v, vi, j).wave2 == v.wave2
            && tick_n(v, vi, j).wave2_tick == v.wave2_tick - j,
        v.wave2 != 0 && v.wave2_tick > 0 && j >= v.wave2_tick ==> tick_n(v, vi, j).wave2 == 0,
        v.wave2 == 0 || v.wave2_tick == 0 ==> tick_n(v, vi, j).wave2 == v.wave2 && tick_n(
            v,
            vi,
            j,
        ).wave2_tick == v.wave2_tick,
    decreases j,
{
    if j > 0 {
        lemma_gate_countdown(v, vi, (j - 1) as nat);
    }
}

/// A voice started with a gate time of `ttl >= 1` ticks sounds for exactly
/// `ttl` ticks: it is still on after `ttl - 1` ticks, and the `ttl`-th tick
/// turns the voice off: its waveform register is cleared on that tick.
pub proof fn lemma_gate_lifetime(v: VoiceState, vi: int)
    requires
        0 <= vi < NUM_VOICES,
        v.active,
        v.ttl >= 1,
    ensures
        tick_n(v, vi, (v.ttl - 1) as nat).active,
        !tick_n(v, vi, v.ttl as nat).active,
        tick_voice(tick_n(v, vi, (v.ttl - 1) as nat), vi).1.last() == rw(
            (vi / 3) as u8,
            ((vi % 3) * 7 + 4) as u8,
            0,
        ),
{
    lemma_gate_countdown(v, vi, (v.ttl - 1) as nat);
}

/// Every kit voice that is triggered sounds for exactly its gate time.
pub proof fn lemma_kit_voice_lifetime(kit: Kit, t: int)
    requires
        0 <= t < NUM_TRACKS,
    ensures
        ({
            let kv = kit_voice(kit, t);
            let vi = voice_of_track(t);
            &&& tick_n(started_voice(kv), vi, (kv.ttl - 1) as nat).active
            &&& !tick_n(started_voice(kv), vi, kv.ttl as nat).active
        }),
{
    crate::kits::lemma_kit_voices_sane(kit, t);
    lemma_gate_lifetime(started_voice(kit_voice(kit, t)), voice_of_track(t));
}

/// The pitch sweep moves toward the target and never past it: with no
/// waveform switch pending, a voice at or above its target frequency stays
/// at or above it and never rises, and while it still sounds above the
/// target with a nonzero sweep, it strictly falls.
pub proof fn lemma_sweep_toward_target(v: VoiceState, vi: int)
    requires
        0 <= vi < NUM_VOICES,
        v.wf(),
        v.active,
        v.wave2 == 0,
        v.freq >= v.freq_end,
    ensures
        v.freq_end <= tick_voice(v, vi).0.freq <= v.freq,
        tick_voice(v, vi).0.active && v.sweep != 0 && v.freq > v.freq_end ==> tick_voice(
            v,
            vi,
        ).0.freq < v.freq,
{
}

/// Closing: when a voice has no second waveform pending on its last tick,
/// that tick writes exactly one register: the voice's control register set to 0
/// (gate off) — no frequency. From then on, until the voice is triggered
/// again, every tick leaves it silent and writes nothing for it.
pub proof fn lemma_gate_off_tick(v: VoiceState, vi: int, j: nat)
    requires
        0 <= vi < NUM_VOICES,
        v.active,
        v.ttl >= 1,
        v.wave2 == 0 || v.wave2_tick < v.ttl,
        j >= v.ttl,
    ensures
        tick_voice(tick_n(v, vi, (v.ttl - 1) as nat), vi).1 == seq![
            rw((vi / 3) as u8, ((vi % 3) * 7 + 4) as u8, 0),
        ],
        !tick_n(v, vi, j).active,
        tick_voice(tick_n(v, vi, j), vi).1 == Seq::<RegWrite>::empty(),
    decreases j,
{
    lemma_gate_countdown(v, vi, (v.ttl - 1) as nat);
    let last = tick_n(v, vi, (v.ttl - 1) as nat);
    assert(!(last.wave2 != 0 && last.wave2_tick > 0 && last.wave2_tick == 1));
    assert(tick_voice(last, vi).1 =~= seq![rw((vi / 3) as u8, ((vi % 3) * 7 + 4) as u8, 0)]);
    if j > v.ttl {
        lemma_gate_off_tick(v, vi, (j - 1) as nat);
    }
}

/// For every built-in kit voice, the second waveform comes in before the
/// last tick, so that tick writes only the closing control byte, and nothing
/// is written for the voice on later ticks.
pub proof fn lemma_kit_voice_gate_off(kit: Kit, t: int, j: nat)
    requires
        0 <= t < NUM_TRACKS,
        j >= kit_voice(kit, t).ttl,
    ensures
        ({
            let kv = kit_voice(kit, t);
            let vi = voice_of_track(t);
            &&& tick_voice(tick_n(started_voice(kv), vi, (kv.ttl - 1) as nat), vi).1 == seq![
                rw((vi / 3) as u8, ((vi % 3) * 7 + 4) as u8, 0),
            ]
            &&& !tick_n(started_voice(kv), vi, j).active
            &&& tick_voice(tick_n(started_voice(kv), vi, j), vi).1 == Seq::<RegWrite>::empty()
        }),
{
    crate::kits::lemma_kit_voices_sane(kit, t);
    assert(crate::kits::TRI | crate::kits::GATE == 0x11u8) by (bit_vector);
    assert(crate::kits::PULSE | crate::kits::GATE == 0x41u8) by (bit_vector);
    assert(crate::kits::SAW | crate::kits::GATE == 0x21u8) by (bit_vector);
    lemma_gate_off_tick(started_voice(kit_voice(kit, t)), voice_of_track(t), j);
}

pub open spec fn max_u16(a: int, b: int) -> int {
    if a < b {
        b
    } else {
        a
    }
}

/// The tick's sweep, stated for voice `vi` in state `v` (see
/// `lemma_sweep_step`): with `f` the frequency after the waveform-switch
/// part of the tick, a nonzero sweep above the target moves the voice to
/// `max(f - sweep, freq_end)`, written low byte then high byte after the
/// switch's writes; otherwise the sweep writes nothing.
pub open spec fn sweep_law(v: VoiceState, vi: int) -> bool {
    let sid = (vi / 3) as u8;
    let base = ((vi % 3) * 7) as u8;
    let (v1, w1) = wave_phase(v, sid, base);
    let f = v1.freq;
    let g = max_u16(f - v.sweep, v.freq_end as int);
    &&& tick_voice(v, vi).0.active
    &&& (v.sweep != 0 && f > v.freq_end) ==> {
        &&& tick_voice(v, vi).0.freq == g
        &&& tick_voice(v, vi).1 == w1 + seq![
            rw(sid, base, (g as u16 & 0xFF) as u8),
            rw(sid, (base + 1) as u8, (g as u16 >> 8) as u8),
        ]
        &&& v.freq_end <= g < f
    }
    &&& !(v.sweep != 0 && f > v.freq_end) ==> {
        &&& tick_voice(v, vi).0.freq == f
        &&& tick_voice(v, vi).1 == w1
    }
}

/// The pitch sweep on every tick of a sounding voice that is not its
/// gate-off tick: with `f` the frequency after the waveform-switch part of
/// the tick (the second frequency once the switch has set it), a voice with
/// a nonzero sweep above its target moves to `max(f - sweep, freq_end)`,
/// written low byte then high byte after the switch's writes; otherwise no
/// frequency is written by the sweep. The sweep never raises the frequency
/// and never takes it below the target.
pub proof fn lemma_sweep_step(v: VoiceState, vi: int)
    requires
        0 <= vi < NUM_VOICES,
        v.wf(),
        v.active,
        v.ttl != 1,
    ensures
        sweep_law(v, vi),
{
    let sid = (vi / 3) as u8;
    let base = ((vi % 3) * 7) as u8;
    let (v1, w1) = wave_phase(v, sid, base);
    let f = v1.freq;
    if v.sweep != 0 && f > v.freq_end {
        let g = max_u16(f - v.sweep, v.freq_end as int);
        assert(tick_voice(v, vi).1 =~= w1 + seq![
            rw(sid, base, (g as u16 & 0xFF) as u8),
            rw(sid, (base + 1) as u8, (g as u16 >> 8) as u8),
        ]);
    }
}

/// The sweep law holds on every tick of a triggered kit voice before its
/// gate-off tick, whether or not its waveform switch has happened.
pub proof fn lemma_kit_voice_sweep(kit: Kit, t: int, j: nat)
    requires
        0 <= t < NUM_TRACKS,
        j + 1 < kit_voice(kit, t).ttl,
    ensures
        sweep_law(tick_n(started_voice(kit_voice(kit, t)), voice_of_track(t), j), voice_of_track(t)),
{
    crate::kits::lemma_kit_voices_sane(kit, t);
    let v = started_voice(kit_voice(kit, t));
    lemma_gate_countdown(v, voice_of_track(t), j);
    lemma_sweep_step(tick_n(v, voice_of_track(t), j), voice_of_track(t));
}

/// The waveform switch: on the tick where a pending second waveform comes
/// in (its delay runs out), a voice with no second frequency keeps its
/// frequency — no frequency register is written by the switch, only the
/// new waveform goes to its control register, as the first write of the
/// tick — and its sweep then goes on from that frequency. A voice with a
/// second frequency jumps to it first: its low and high bytes are the first
/// two writes, then the waveform. Either way the switch is spent.
pub proof fn lemma_wave_switch(v: VoiceState, vi: int)
    requires
        0 <= vi < NUM_VOICES,
        v.wf(),
        v.active,
        v.ttl != 1,
        v.wave2 != 0,
        v.wave2_tick == 1,
    ensures
        ({
            let sid = (vi / 3) as u8;
            let base = ((vi % 3) * 7) as u8;
            let (v2, w) = tick_voice(v, vi);
            let f = if v.freq2 != 0 {
                v.freq2
            } else {
                v.freq
            };
            &&& v2.active
            &&& v2.wave2 == 0
            &&& v2.wave2_tick == 0
            &&& v.freq2 == 0 ==> w[0] == rw(sid, (base + 4) as u8, v.wave2)
            &&& v.freq2 != 0 ==> {
                &&& w[0] == rw(sid, base, (v.freq2 & 0xFF) as u8)
                &&& w[1] == rw(sid, (base + 1) as u8, (v.freq2 >> 8) as u8)
                &&& w[2] == rw(sid, (base + 4) as u8, v.wave2)
            }
            &&& (v.sweep != 0 && f > v.freq_end) ==> v2.freq == max_u16(
                f - v.sweep,
                v.freq_end as int,
            ) && w.len() == (if v.freq2 != 0 {
                5int
            } else {
                3int
            })
            &&& !(v.sweep != 0 && f > v.freq_end) ==> v2.freq == f && w.len() == (if v.freq2
                != 0 {
                3int
            } else {
                1int
            })
        }),
{
    lemma_sweep_step(v, vi);
}

} // verus!
