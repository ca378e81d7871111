//! The drum machine's transport and playback decisions.
//!
//! `DrumMachine` holds the pattern, the transport and the clock
//! accumulators, and turns each user action or timer tick into a new state
//! and a list of `Output`s: commands for the MIDI-out side and register
//! writes for the SID device. Performing the outputs (and reading the MIDI
//! input, the clock and the user's actions) is up to the caller.
use vstd::prelude::*;

use crate::asid::{
    silent_voice, tick_writes, ticked_voices, trigger_effect, voices_wf, AsidBackend, RegWrite,
    VoiceState, NUM_VOICES,
};
use crate::kits::voice_of_track;
use crate::midi::{MidiCommand, MidiCommandSpec, MidiInEvent, NoteHit};
use crate::sequencer::{step_duration, step_duration_ms};
use crate::types::{
    step_events, DrumEvent, Kit, Pattern, Transport, Velocity, NUM_STEPS, NUM_TRACKS,
};

verus! {

/// Period of the timer tick that drives `clock_tick`, in milliseconds.
pub const CLOCK_MS: u64 = 5;

/// 24 PPQN MIDI clocks per quarter note; the sequencer fires a step every
/// 16th note, i.e. every (24 / 4) = 6 incoming clocks.
pub const MIDI_CLOCKS_PER_STEP: u64 = 6;

/// Where step events go.
#[derive(Debug, Clone, Copy, PartialEq, Eq, Structural)]
pub enum OutputMode {
    Midi,
    Asid,
}

/// Work for the caller, in the order given.
#[derive(Debug)]
pub enum Output {
    /// Hand the command to the MIDI-out side.
    Midi(MidiCommand),
    /// Write these registers to the SID device in order, then flush.
    Sid(Vec<RegWrite>),
    /// Mute the SID device.
    SidMute,
    /// Reset the SID device.
    SidReset,
}

pub enum OutputSpec {
    Midi(MidiCommandSpec),
    Sid(Seq<RegWrite>),
    SidMute,
    SidReset,
}

impl View for Output {
    type V = OutputSpec;

    open spec fn view(&self) -> OutputSpec {
        match self {
            Output::Midi(c) => OutputSpec::Midi(c@),
            Output::Sid(w) => OutputSpec::Sid(w@),
            Output::SidMute => OutputSpec::SidMute,
            Output::SidReset => OutputSpec::SidReset,
        }
    }
}

pub open spec fn outputs_view(v: Seq<Output>) -> Seq<OutputSpec> {
    v.map_values(|o: Output| o@)
}

/// The SID engine state: voices and kit.
#[verifier::ext_equal]
pub struct SidState {
    pub voices: Seq<VoiceState>,
    pub kit: Kit,
}

/// The mathematical state of the drum machine.
#[verifier::ext_equal]
pub struct MachineView {
    pub pattern: Pattern,
    pub transport: Transport,
    pub tick_acc_ms: u64,
    pub midi_clock_acc_us: u64,
    pub midi_in_clock_count: u64,
    pub output_mode: OutputMode,
    pub midi_out: bool,
    pub clock_in: bool,
    pub sid: Option<SidState>,
}

/// The sequencer: pattern, transport, clock accumulators, where output goes,
/// and the SID engine when a SID device is attached.
pub struct DrumMachine {
    pub pattern: Pattern,
    pub transport: Transport,
    /// Milliseconds accumulated toward the next internal step.
    pub tick_acc_ms: u64,
    /// Microseconds accumulated toward the next MIDI clock out.
    pub midi_clock_acc_us: u64,
    /// MIDI clocks received since the external transport started.
    pub midi_in_clock_count: u64,
    pub output_mode: OutputMode,
    /// A MIDI-out port is connected.
    pub midi_out: bool,
    /// An external MIDI clock source is connected (it then drives the steps).
    pub clock_in: bool,
    pub asid: Option<AsidBackend>,
}

impl View for DrumMachine {
    type V = MachineView;

    open spec fn view(&self) -> MachineView {
        MachineView {
            pattern: self.pattern,
            transport: self.transport,
            tick_acc_ms: self.tick_acc_ms,
            midi_clock_acc_us: self.midi_clock_acc_us,
            midi_in_clock_count: self.midi_in_clock_count,
            output_mode: self.output_mode,
            midi_out: self.midi_out,
            clock_in: self.clock_in,
            sid: match self.asid {
                Some(b) => Some(SidState { voices: b.voices@, kit: b.kit }),
                None => None,
            },
        }
    }
}

// ── The model ────────────────────────────────────────────────────────────────
/// Upper bound of the MIDI clock period, reached at 1 bpm.
pub open spec fn max_clock_period_us() -> int {
    2_500_000
}

impl MachineView {
    /// The current step is on the grid, the SID voices are well formed, and
    /// the MIDI clock accumulator stays under the longest clock period.
    pub open spec fn wf(self) -> bool {
        &&& self.transport.current_step < NUM_STEPS
        &&& self.midi_clock_acc_us < max_clock_period_us()
        &&& (self.sid matches Some(s) ==> voices_wf(s.voices))
    }
}

/// A command, if a MIDI-out port is connected.
pub open spec fn send_model(m: MachineView, cmd: MidiCommandSpec) -> Seq<OutputSpec> {
    if m.midi_out {
        seq![OutputSpec::Midi(cmd)]
    } else {
        Seq::empty()
    }
}

/// A mute of the SID device, if one is attached.
pub open spec fn mute_model(m: MachineView) -> Seq<OutputSpec> {
    if m.sid is Some {
        seq![OutputSpec::SidMute]
    } else {
        Seq::empty()
    }
}

/// The MIDI hit of an event: its GM note, its velocity scaled by the track
/// volume (127 = unchanged), and the track pan.
pub open spec fn note_hit(p: Pattern, e: DrumEvent) -> NoteHit {
    let t = e.track.row();
    (e.track.gm_note(), (e.velocity.midi_value() * p.track_volume[t] / 127) as u8, p.track_pan[t])
}

/// Triggering the first `n` events on the SID engine, each at its track's
/// volume: the engine state afterwards and one batch of writes per event.
pub open spec fn sid_fire(s: SidState, p: Pattern, evs: Seq<DrumEvent>, n: int) -> (
    SidState,
    Seq<OutputSpec>,
)
    decreases n,
{
    if n <= 0 {
        (s, Seq::empty())
    } else {
        let (s1, o1) = sid_fire(s, p, evs, n - 1);
        let e = evs[n - 1];
        let (v2, w) = trigger_effect(s1.voices, s1.kit, e, p.track_volume[e.track.row()]);
        (SidState { voices: v2, kit: s1.kit }, o1.push(OutputSpec::Sid(w)))
    }
}

/// Playing step `step`: nothing when no track fires; otherwise, in MIDI
/// mode, one `Notes` command with a hit per event, and in ASID mode, the
/// events triggered on the SID engine (when a device is attached).
pub open spec fn fire_model(m: MachineView, step: u8) -> (MachineView, Seq<OutputSpec>) {
    let evs = step_events(m.pattern.steps, step);
    if evs.len() == 0 {
        (m, Seq::empty())
    } else {
        match m.output_mode {
            OutputMode::Midi => (
                m,
                send_model(
                    m,
                    MidiCommandSpec::Notes(evs.map_values(|e: DrumEvent| note_hit(m.pattern, e))),
                ),
            ),
            OutputMode::Asid => match m.sid {
                None => (m, Seq::empty()),
                Some(s) => {
                    let (s2, o) = sid_fire(s, m.pattern, evs, evs.len() as int);
                    (MachineView { sid: Some(s2), ..m }, o)
                },
            },
        }
    }
}

/// Pressing play: the transport starts from step 0 with cleared
/// accumulators, MIDI Start is sent, and step 0 plays.
pub open spec fn play_model(m: MachineView) -> (MachineView, Seq<OutputSpec>) {
    let m1 = MachineView {
        transport: Transport { playing: true, current_step: 0, ..m.transport },
        tick_acc_ms: 0,
        midi_clock_acc_us: 0,
        midi_in_clock_count: 0,
        ..m
    };
    let (m2, o) = fire_model(m1, 0);
    (m2, send_model(m, MidiCommandSpec::Start) + o)
}

/// Pressing stop: the transport stops and returns to step 0, MIDI Stop is
/// sent and the SID device is muted.
pub open spec fn stop_model(m: MachineView) -> (MachineView, Seq<OutputSpec>) {
    (
        MachineView {
            transport: Transport { playing: false, current_step: 0, ..m.transport },
            ..m
        },
        send_model(m, MidiCommandSpec::Stop) + mute_model(m),
    )
}

/// `x + y` as `u64` arithmetic wraps.
pub open spec fn wrap_add_u64(x: u64, y: u64) -> u64 {
    if x + y > u64::MAX {
        (x + y - 0x1_0000_0000_0000_0000) as u64
    } else {
        (x + y) as u64
    }
}

/// One transport message from the external clock source.
pub open spec fn in_event_model(m: MachineView, ev: MidiInEvent) -> (MachineView, Seq<OutputSpec>) {
    match ev {
        MidiInEvent::Start => {
            let m1 = MachineView {
                transport: Transport { playing: true, current_step: 0, ..m.transport },
                midi_in_clock_count: 0,
                ..m
            };
            fire_model(m1, 0)
        },
        MidiInEvent::Continue => (
            MachineView { transport: Transport { playing: true, ..m.transport }, ..m },
            Seq::empty(),
        ),
        MidiInEvent::Stop => (
            MachineView { transport: Transport { playing: false, ..m.transport }, ..m },
            mute_model(m),
        ),
        MidiInEvent::Clock => {
            if m.transport.playing {
                let c = wrap_add_u64(m.midi_in_clock_count, 1);
                if c % 6 == 0 {
                    let next = ((m.transport.current_step + 1) % 16) as u8;
                    let m1 = MachineView {
                        transport: Transport { current_step: next, ..m.transport },
                        midi_in_clock_count: c,
                        ..m
                    };
                    fire_model(m1, next)
                } else {
                    (MachineView { midi_in_clock_count: c, ..m }, Seq::empty())
                }
            } else {
                (m, Seq::empty())
            }
        },
    }
}

/// The first `n` received transport messages, in order.
pub open spec fn in_events_model(m: MachineView, evs: Seq<MidiInEvent>, n: int) -> (
    MachineView,
    Seq<OutputSpec>,
)
    decreases n,
{
    if n <= 0 {
        (m, Seq::empty())
    } else {
        let (m1, o1) = in_events_model(m, evs, n - 1);
        let (m2, o2) = in_event_model(m1, evs[n - 1]);
        (m2, o1 + o2)
    }
}

/// MIDI clock period (24 per quarter note) in microseconds at `bpm`
/// (taken as at least 1).
pub open spec fn clock_period_us(bpm: u16) -> int {
    let b: int = if bpm < 1 {
        1
    } else {
        bpm as int
    };
    60_000_000int / (b * 24)
}

/// How many whole periods `acc` holds.
pub open spec fn clocks_due(acc: int, period: int) -> nat
    decreases acc,
{
    if period <= 0 || acc < period {
        0
    } else {
        1 + clocks_due(acc - period, period)
    }
}

/// What is left of `acc` after the whole periods are taken out.
pub open spec fn clock_rest(acc: int, period: int) -> int
    decreases acc,
{
    if period <= 0 || acc < period {
        acc
    } else {
        clock_rest(acc - period, period)
    }
}

/// MIDI clock out: while playing with a MIDI-out port, one tick adds 5 ms
/// and one Clock is sent for each whole clock period accumulated.
pub open spec fn midi_clock_model(m: MachineView) -> (MachineView, Seq<OutputSpec>) {
    if m.transport.playing && m.midi_out {
        let acc = m.midi_clock_acc_us + CLOCK_MS * 1000;
        let period = clock_period_us(m.transport.bpm);
        (
            MachineView { midi_clock_acc_us: clock_rest(acc, period) as u64, ..m },
            Seq::new(clocks_due(acc, period), |i: int| OutputSpec::Midi(MidiCommandSpec::Clock)),
        )
    } else {
        (m, Seq::empty())
    }
}

/// The internal step timer: while playing without an external clock, one
/// tick adds 5 ms; once the next step's duration is reached, it is taken
/// off and the next step plays.
pub open spec fn internal_step_model(m: MachineView) -> (MachineView, Seq<OutputSpec>) {
    if m.transport.playing && !m.clock_in {
        let acc = wrap_add_u64(m.tick_acc_ms, CLOCK_MS);
        let next = ((m.transport.current_step + 1) % 16) as u8;
        let threshold = step_duration(next, m.transport.bpm, m.transport.swing);
        if acc >= threshold {
            let m1 = MachineView {
                tick_acc_ms: (acc - threshold) as u64,
                transport: Transport { current_step: next, ..m.transport },
                ..m
            };
            fire_model(m1, next)
        } else {
            (MachineView { tick_acc_ms: acc, ..m }, Seq::empty())
        }
    } else {
        (m, Seq::empty())
    }
}

/// The SID sweep tick, when a device is attached.
pub open spec fn sid_tick_model(m: MachineView) -> (MachineView, Seq<OutputSpec>) {
    match m.sid {
        None => (m, Seq::empty()),
        Some(s) => (
            MachineView { sid: Some(SidState { voices: ticked_voices(s.voices), kit: s.kit }), ..m },
            seq![OutputSpec::Sid(tick_writes(s.voices, NUM_VOICES as int))],
        ),
    }
}

/// One 5 ms timer tick: the SID sweep tick; the transport messages received
/// from an external clock (when one is connected); MIDI clock out; and the
/// internal step timer — in this order.
pub open spec fn clock_tick_model(m: MachineView, incoming: Seq<MidiInEvent>) -> (
    MachineView,
    Seq<OutputSpec>,
) {
    let (m1, o1) = sid_tick_model(m);
    let (m2, o2) = if m1.clock_in {
        in_events_model(m1, incoming, incoming.len() as int)
    } else {
        (m1, Seq::empty())
    };
    let (m3, o3) = midi_clock_model(m2);
    let (m4, o4) = internal_step_model(m3);
    (m4, o1 + o2 + o3 + o4)
}

// ── The machine ──────────────────────────────────────────────────────────────
proof fn lemma_outputs_push(v: Seq<Output>, o: Output)
    ensures
        outputs_view(v.push(o)) == outputs_view(v).push(o@),
{
    assert(outputs_view(v.push(o)) =~= outputs_view(v).push(o@));
}

proof fn lemma_outputs_append(a: Seq<Output>, b: Seq<Output>)
    ensures
        outputs_view(a + b) == outputs_view(a) + outputs_view(b),
{
    assert(outputs_view(a + b) =~= outputs_view(a) + outputs_view(b));
}

fn append_outputs(out: &mut Vec<Output>, more: Vec<Output>)
    ensures
        outputs_view(final(out)@) == outputs_view(old(out)@) + outputs_view(more@),
{
    let mut more = more;
    let ghost m = more@;
    out.append(&mut more);
    proof {
        lemma_outputs_append(old(out)@, m);
    }
}

proof fn lemma_note_velocity(v: Velocity, vol: u8)
    ensures
        v.midi_value() * vol <= 127 * 255,
        v.midi_value() * vol / 127 <= 255,
{
    let a = v.midi_value();
    assert(a * vol <= 127 * 255 && a * vol / 127 <= 255) by (nonlinear_arith)
        requires
            a <= 127,
            vol <= 255,
    ;
}

impl DrumMachine {
    /// The state at start-up with `pattern` loaded: stopped at step 0, tempo
    /// and swing from the pattern, MIDI output mode, nothing connected.
    pub fn new(pattern: Pattern) -> (r: Self)
        ensures
            r@.wf(),
            r.pattern == pattern,
            r.transport == (Transport {
                playing: false,
                current_step: 0,
                bpm: pattern.tempo,
                swing: pattern.swing,
            }),
            r.tick_acc_ms == 0,
            r.midi_clock_acc_us == 0,
            r.midi_in_clock_count == 0,
            r.output_mode == OutputMode::Midi,
            !r.midi_out,
            !r.clock_in,
            r.asid is None,
    {
        let bpm = pattern.tempo;
        let swing = pattern.swing;
        DrumMachine {
            pattern,
            transport: Transport { playing: false, current_step: 0, bpm, swing },
            tick_acc_ms: 0,
            midi_clock_acc_us: 0,
            midi_in_clock_count: 0,
            output_mode: OutputMode::Midi,
            midi_out: false,
            clock_in: false,
            asid: None,
        }
    }

    fn send(&self, out: &mut Vec<Output>, cmd: MidiCommand)
        ensures
            outputs_view(final(out)@) == outputs_view(old(out)@) + send_model(self@, cmd@),
    {
        let ghost c = cmd@;
        if self.midi_out {
            let o = Output::Midi(cmd);
            proof {
                lemma_outputs_push(out@, o);
            }
            out.push(o);
        } else {
            assert(outputs_view(out@) + send_model(self@, c) =~= outputs_view(out@));
        }
    }

    fn mute(&self, out: &mut Vec<Output>)
        ensures
            outputs_view(final(out)@) == outputs_view(old(out)@) + mute_model(self@),
    {
        if self.asid.is_some() {
            proof {
                lemma_outputs_push(out@, Output::SidMute);
            }
            out.push(Output::SidMute);
        } else {
            assert(outputs_view(out@) + mute_model(self@) =~= outputs_view(out@));
        }
    }

    /// Plays step `step` of the pattern: sends its events as MIDI notes or
    /// triggers them on the SID engine, depending on the output mode.
    pub fn fire_step(&mut self, step: u8) -> (out: Vec<Output>)
        requires
            old(self)@.wf(),
            step < NUM_STEPS,
        ensures
            final(self)@ == fire_model(old(self)@, step).0,
            outputs_view(out@) == fire_model(old(self)@, step).1,
            final(self)@.wf(),
    {
        let events = self.pattern.events_at_step(step);
        let mut out: Vec<Output> = Vec::new();
        if events.len() == 0 {
            assert(outputs_view(out@) =~= Seq::<OutputSpec>::empty());
            return out;
        }
        proof {
            crate::types::lemma_step_events_shape(self.pattern.steps, step, NUM_TRACKS as int);
        }
        match self.output_mode {
            OutputMode::Midi => {
                let mut notes: Vec<NoteHit> = Vec::new();
                let mut i: usize = 0;
                while i < events.len()
                    invariant
                        i <= events@.len(),
                        events@ == step_events(self.pattern.steps, step),
                        notes@ == events@.take(i as int).map_values(
                            |e: DrumEvent| note_hit(self.pattern, e),
                        ),
                    decreases events@.len() - i,
                {
                    let ev = events[i];
                    let t = ev.track.index();
                    let vol = self.pattern.track_volume[t];
                    proof {
                        lemma_note_velocity(ev.velocity, vol);
                    }
                    let vel = (ev.velocity.midi_velocity() as u16 * vol as u16 / 127) as u8;
                    notes.push((ev.track.midi_note(), vel, self.pattern.track_pan[t]));
                    assert(events@.take(i + 1) =~= events@.take(i as int).push(ev));
                    assert(notes@ =~= events@.take(i + 1).map_values(
                        |e: DrumEvent| note_hit(self.pattern, e),
                    ));
                    i = i + 1;
                }
                assert(events@.take(events@.len() as int) =~= events@);
                self.send(&mut out, MidiCommand::Notes(notes));
                assert(outputs_view(Seq::<Output>::empty()) =~= Seq::<OutputSpec>::empty());
                assert(Seq::<OutputSpec>::empty() + send_model(
                    self@,
                    MidiCommandSpec::Notes(notes@),
                ) =~= send_model(self@, MidiCommandSpec::Notes(notes@)));
            },
            OutputMode::Asid => {
                let taken = self.asid.take();
                match taken {
                    None => {
                        assert(outputs_view(out@) =~= Seq::<OutputSpec>::empty());
                    },
                    Some(mut b) => {
                        let ghost s0 = SidState { voices: b.voices@, kit: b.kit };
                        let mut i: usize = 0;
                        while i < events.len()
                            invariant
                                i <= events@.len(),
                                events@ == step_events(self.pattern.steps, step),
                                b.wf(),
                                (SidState { voices: b.voices@, kit: b.kit }, outputs_view(out@))
                                    == sid_fire(s0, self.pattern, events@, i as int),
                            decreases events@.len() - i,
                        {
                            let ev = events[i];
                            let vol = self.pattern.track_volume[ev.track.index()];
                            let w = b.trigger(&ev, vol);
                            let o = Output::Sid(w);
                            proof {
                                lemma_outputs_push(out@, o);
                            }
                            out.push(o);
                            assert(SidState { voices: b.voices@, kit: b.kit } =~= sid_fire(
                                s0,
                                self.pattern,
                                events@,
                                i + 1,
                            ).0);
                            i = i + 1;
                        }
                        self.asid = Some(b);
                        assert(self@ =~= fire_model(old(self)@, step).0);
                    },
                }
            },
        }
        out
    }

    /// Play: start from step 0 with cleared accumulators, send MIDI Start and
    /// play step 0.
    pub fn play(&mut self) -> (out: Vec<Output>)
        requires
            old(self)@.wf(),
        ensures
            final(self)@ == play_model(old(self)@).0,
            outputs_view(out@) == play_model(old(self)@).1,
            final(self)@.wf(),
    {
        let mut out: Vec<Output> = Vec::new();
        self.send(&mut out, MidiCommand::Start);
        self.transport.playing = true;
        self.transport.current_step = 0;
        self.tick_acc_ms = 0;
        self.midi_clock_acc_us = 0;
        self.midi_in_clock_count = 0;
        let fired = self.fire_step(0);
        append_outputs(&mut out, fired);
        assert(outputs_view(Seq::<Output>::empty()) =~= Seq::<OutputSpec>::empty());
        assert(Seq::<OutputSpec>::empty() + send_model(old(self)@, MidiCommandSpec::Start)
            =~= send_model(old(self)@, MidiCommandSpec::Start));
        out
    }

    /// Stop: the transport stops at step 0, MIDI Stop is sent and the SID
    /// device is muted.
    pub fn stop(&mut self) -> (out: Vec<Output>)
        requires
            old(self)@.wf(),
        ensures
            final(self)@ == stop_model(old(self)@).0,
            outputs_view(out@) == stop_model(old(self)@).1,
            final(self)@.wf(),
    {
        let mut out: Vec<Output> = Vec::new();
        self.transport.playing = false;
        self.transport.current_step = 0;
        self.send(&mut out, MidiCommand::Stop);
        self.mute(&mut out);
        assert(outputs_view(Seq::<Output>::empty()) =~= Seq::<OutputSpec>::empty());
        assert(Seq::<OutputSpec>::empty() + send_model(old(self)@, MidiCommandSpec::Stop)
            =~= send_model(old(self)@, MidiCommandSpec::Stop));
        out
    }
}

proof fn lemma_clock_drain(acc: int, period: int)
    requires
        period > 0,
        acc >= 0,
    ensures
        0 <= clock_rest(acc, period) < period,
        clock_rest(acc, period) <= acc,
        acc == clock_rest(acc, period) + clocks_due(acc, period) * period,
    decreases acc,
{
    if acc >= period {
        lemma_clock_drain(acc - period, period);
        let k = clocks_due(acc - period, period);
        assert((1 + k) * period == k * period + period) by (nonlinear_arith);
    } else {
        assert(clocks_due(acc, period) == 0);
        assert(0 * period == 0) by (nonlinear_arith);
    }
}

proof fn lemma_clock_period(bpm: u16)
    ensures
        1 <= clock_period_us(bpm) <= max_clock_period_us(),
{
    let b: int = if bpm < 1 {
        1
    } else {
        bpm as int
    };
    assert(1 <= 60_000_000int / (b * 24) <= 2_500_000) by (nonlinear_arith)
        requires
            1 <= b <= 65535,
    ;
}

impl DrumMachine {
    /// One transport message from the external clock source.
    pub fn handle_clock_in(&mut self, ev: MidiInEvent) -> (out: Vec<Output>)
        requires
            old(self)@.wf(),
        ensures
            final(self)@ == in_event_model(old(self)@, ev).0,
            outputs_view(out@) == in_event_model(old(self)@, ev).1,
            final(self)@.wf(),
    {
        match ev {
            MidiInEvent::Start => {
                self.transport.playing = true;
                self.transport.current_step = 0;
                self.midi_in_clock_count = 0;
                self.fire_step(0)
            },
            MidiInEvent::Continue => {
                self.transport.playing = true;
                let out: Vec<Output> = Vec::new();
                assert(outputs_view(out@) =~= Seq::<OutputSpec>::empty());
                out
            },
            MidiInEvent::Stop => {
                let mut out: Vec<Output> = Vec::new();
                self.transport.playing = false;
                self.mute(&mut out);
                assert(outputs_view(Seq::<Output>::empty()) + mute_model(old(self)@) =~= mute_model(
                    old(self)@,
                ));
                out
            },
            MidiInEvent::Clock => {
                if self.transport.playing {
                    self.midi_in_clock_count = self.midi_in_clock_count.wrapping_add(1);
                    if self.midi_in_clock_count % MIDI_CLOCKS_PER_STEP == 0 {
                        let next = (self.transport.current_step + 1) % 16;
                        self.transport.current_step = next;
                        return self.fire_step(next);
                    }
                }
                let out: Vec<Output> = Vec::new();
                assert(outputs_view(out@) =~= Seq::<OutputSpec>::empty());
                out
            },
        }
    }

    /// MIDI clock out for one 5 ms tick.
    fn send_midi_clocks(&mut self) -> (out: Vec<Output>)
        requires
            old(self)@.wf(),
        ensures
            final(self)@ == midi_clock_model(old(self)@).0,
            outputs_view(out@) == midi_clock_model(old(self)@).1,
            final(self)@.wf(),
    {
        let mut out: Vec<Output> = Vec::new();
        if self.transport.playing && self.midi_out {
            let mut acc: u64 = self.midi_clock_acc_us + CLOCK_MS * 1_000;
            let bpm: u64 = if self.transport.bpm < 1 { 1 } else { self.transport.bpm as u64 };
            let period: u64 = 60_000_000 / (bpm * 24);
            proof {
                lemma_clock_period(self.transport.bpm);
            }
            let ghost acc0 = acc as int;
            while acc >= period
                invariant
                    period as int == clock_period_us(self.transport.bpm),
                    1 <= period <= max_clock_period_us(),
                    acc <= acc0,
                    clock_rest(acc as int, period as int) == clock_rest(acc0, period as int),
                    out@.len() + clocks_due(acc as int, period as int) == clocks_due(
                        acc0,
                        period as int,
                    ),
                    forall|i: int|
                        0 <= i < out@.len() ==> (#[trigger] out@[i])@ == OutputSpec::Midi(
                            MidiCommandSpec::Clock,
                        ),
                decreases acc,
            {
                acc = acc - period;
                out.push(Output::Midi(MidiCommand::Clock));
            }
            self.midi_clock_acc_us = acc;
            proof {
                lemma_clock_drain(acc0, period as int);
                assert(clock_rest(acc as int, period as int) == acc);
                assert(self@ =~= midi_clock_model(old(self)@).0);
                assert(outputs_view(out@) =~= Seq::new(
                    clocks_due(acc0, period as int),
                    |i: int| OutputSpec::Midi(MidiCommandSpec::Clock),
                ));
            }
        } else {
            assert(outputs_view(out@) =~= Seq::<OutputSpec>::empty());
        }
        out
    }

    /// The internal step timer for one 5 ms tick.
    fn advance_internal_clock(&mut self) -> (out: Vec<Output>)
        requires
            old(self)@.wf(),
        ensures
            final(self)@ == internal_step_model(old(self)@).0,
            outputs_view(out@) == internal_step_model(old(self)@).1,
            final(self)@.wf(),
    {
        if self.transport.playing && !self.clock_in {
            self.tick_acc_ms = self.tick_acc_ms.wrapping_add(CLOCK_MS);
            let next = (self.transport.current_step + 1) % 16;
            let threshold = step_duration_ms(next, self.transport.bpm, self.transport.swing);
            if self.tick_acc_ms >= threshold {
                self.tick_acc_ms = self.tick_acc_ms - threshold;
                self.transport.current_step = next;
                return self.fire_step(next);
            }
        }
        let out: Vec<Output> = Vec::new();
        assert(outputs_view(out@) =~= Seq::<OutputSpec>::empty());
        out
    }

    /// One 5 ms timer tick, with the transport messages received from the
    /// external clock source since the last tick: advances the SID sweeps,
    /// follows the external transport (when a clock source is connected),
    /// sends MIDI clock and runs the internal step timer.
    pub fn clock_tick(&mut self, incoming: &Vec<MidiInEvent>) -> (out: Vec<Output>)
        requires
            old(self)@.wf(),
        ensures
            final(self)@ == clock_tick_model(old(self)@, incoming@).0,
            outputs_view(out@) == clock_tick_model(old(self)@, incoming@).1,
            final(self)@.wf(),
    {
        let mut out: Vec<Output> = Vec::new();
        // ASID voice sweep updates (regardless of playing state).
        let taken = self.asid.take();
        match taken {
            Some(mut b) => {
                let w = b.tick();
                let o = Output::Sid(w);
                proof {
                    lemma_outputs_push(out@, o);
                }
                out.push(o);
                self.asid = Some(b);
            },
            None => {},
        }
        let ghost m1 = self@;
        let ghost o1 = outputs_view(out@);
        assert(m1 =~= sid_tick_model(old(self)@).0);
        assert(o1 =~= sid_tick_model(old(self)@).1);
        // Incoming MIDI clock / transport events.
        if self.clock_in {
            let mut i: usize = 0;
            while i < incoming.len()
                invariant
                    i <= incoming@.len(),
                    self@.wf(),
                    m1.clock_in,
                    (self@, outputs_view(out@)) == ({
                        let (m, o) = in_events_model(m1, incoming@, i as int);
                        (m, o1 + o)
                    }),
                decreases incoming@.len() - i,
            {
                let more = self.handle_clock_in(incoming[i]);
                append_outputs(&mut out, more);
                assert(outputs_view(out@) =~= o1 + in_events_model(m1, incoming@, i + 1).1);
                i = i + 1;
            }
        } else {
            assert(o1 + Seq::<OutputSpec>::empty() =~= o1);
        }
        let ghost m2 = self@;
        let ghost o2 = outputs_view(out@);
        // MIDI clock OUT: emit 24 PPQN ticks while playing.
        let clocks = self.send_midi_clocks();
        append_outputs(&mut out, clocks);
        // Internal step timer — only when an external clock is not driving us.
        let stepped = self.advance_internal_clock();
        append_outputs(&mut out, stepped);
        proof {
            let (mm2, oo2) = if m1.clock_in {
                in_events_model(m1, incoming@, incoming@.len() as int)
            } else {
                (m1, Seq::<OutputSpec>::empty())
            };
            assert(m2 == mm2);
            assert(o2 =~= o1 + oo2);
            let (m3, o3) = midi_clock_model(m2);
            let (m4, o4) = internal_step_model(m3);
            assert(outputs_view(out@) =~= o1 + oo2 + o3 + o4);
        }
        out
    }
}

impl DrumMachine {
    /// Clicking a grid cell: the step's velocity moves on in the click cycle.
    pub fn toggle_step(&mut self, track: usize, step: usize)
        requires
            old(self)@.wf(),
            track < NUM_TRACKS,
            step < NUM_STEPS,
        ensures
            final(self)@ == (MachineView {
                pattern: Pattern {
                    steps: final(self).pattern.steps,
                    ..old(self).pattern
                },
                ..old(self)@
            }),
            final(self).pattern.steps[track as int][step as int] == old(
                self,
            ).pattern.steps[track as int][step as int].next_in_cycle(),
            forall|t: int, s: int|
                0 <= t < NUM_TRACKS && 0 <= s < NUM_STEPS && (t != track || s != step)
                    ==> #[trigger] final(self).pattern.steps[t][s] == old(self).pattern.steps[t][s],
            final(self)@.wf(),
    {
        self.pattern.steps[track][step] = self.pattern.steps[track][step].cycle();
    }

    /// The tempo slider: sets the transport tempo and the pattern tempo.
    pub fn set_tempo(&mut self, bpm: u16)
        requires
            old(self)@.wf(),
        ensures
            final(self)@ == (MachineView {
                pattern: Pattern { tempo: bpm, ..old(self).pattern },
                transport: Transport { bpm, ..old(self).transport },
                ..old(self)@
            }),
            final(self)@.wf(),
    {
        self.transport.bpm = bpm;
        self.pattern.tempo = bpm;
    }

    /// The swing slider: sets the transport swing and the pattern swing.
    pub fn set_swing(&mut self, swing: u8)
        requires
            old(self)@.wf(),
        ensures
            final(self)@ == (MachineView {
                pattern: Pattern { swing, ..old(self).pattern },
                transport: Transport { swing, ..old(self).transport },
                ..old(self)@
            }),
            final(self)@.wf(),
    {
        self.transport.swing = swing;
        self.pattern.swing = swing;
    }

    /// Choosing a kit: the pattern's kit, and the kit the SID engine plays.
    pub fn select_kit(&mut self, kit: Kit)
        requires
            old(self)@.wf(),
        ensures
            final(self)@ == (MachineView {
                pattern: Pattern { kit, ..old(self).pattern },
                sid: match old(self)@.sid {
                    Some(s) => Some(SidState { kit, ..s }),
                    None => None,
                },
                ..old(self)@
            }),
            final(self)@.wf(),
    {
        self.pattern.kit = kit;
        let taken = self.asid.take();
        if let Some(mut b) = taken {
            b.set_kit(kit);
            self.asid = Some(b);
        }
        assert(self@ =~= (MachineView {
            pattern: Pattern { kit, ..old(self).pattern },
            sid: match old(self)@.sid {
                Some(s) => Some(SidState { kit, ..s }),
                None => None,
            },
            ..old(self)@
        }));
    }

    /// A track's volume slider, held to 0..=127.
    pub fn set_track_volume(&mut self, track: usize, volume: u8)
        requires
            old(self)@.wf(),
            track < NUM_TRACKS,
        ensures
            final(self)@ == (MachineView {
                pattern: Pattern { track_volume: final(self).pattern.track_volume, ..old(self).pattern },
                ..old(self)@
            }),
            final(self).pattern.track_volume@ == old(self).pattern.track_volume@.update(
                track as int,
                if volume < 127 {
                    volume
                } else {
                    127
                },
            ),
            final(self)@.wf(),
    {
        self.pattern.track_volume[track] = if volume < 127 { volume } else { 127 };
        assert(self.pattern.track_volume@ =~= old(self).pattern.track_volume@.update(
            track as int,
            if volume < 127 {
                volume
            } else {
                127
            },
        ));
    }

    /// A track's pan slider, held to -64..=63.
    pub fn set_track_pan(&mut self, track: usize, pan: i8)
        requires
            old(self)@.wf(),
            track < NUM_TRACKS,
        ensures
            final(self)@ == (MachineView {
                pattern: Pattern { track_pan: final(self).pattern.track_pan, ..old(self).pattern },
                ..old(self)@
            }),
            final(self).pattern.track_pan@ == old(self).pattern.track_pan@.update(
                track as int,
                if pan < -64 {
                    -64i8
                } else if pan > 63 {
                    63i8
                } else {
                    pan
                },
            ),
            final(self)@.wf(),
    {
        let p: i8 = if pan < -64 {
            -64
        } else if pan > 63 {
            63
        } else {
            pan
        };
        self.pattern.track_pan[track] = p;
        assert(self.pattern.track_pan@ =~= old(self).pattern.track_pan@.update(track as int, p));
    }

    /// Loading a pattern (a preset or a file): tempo and swing follow it, the
    /// SID engine switches to its kit, and a running transport stops (sending
    /// MIDI Stop).
    pub fn load_pattern(&mut self, pattern: Pattern) -> (out: Vec<Output>)
        requires
            old(self)@.wf(),
        ensures
            final(self)@ == (MachineView {
                pattern,
                transport: Transport {
                    bpm: pattern.tempo,
                    swing: pattern.swing,
                    playing: false,
                    ..old(self).transport
                },
                sid: match old(self)@.sid {
                    Some(s) => Some(SidState { kit: pattern.kit, ..s }),
                    None => None,
                },
                ..old(self)@
            }),
            outputs_view(out@) == (if old(self).transport.playing {
                send_model(old(self)@, MidiCommandSpec::Stop)
            } else {
                Seq::empty()
            }),
            final(self)@.wf(),
    {
        let mut out: Vec<Output> = Vec::new();
        self.transport.bpm = pattern.tempo;
        self.transport.swing = pattern.swing;
        let taken = self.asid.take();
        if let Some(mut b) = taken {
            b.set_kit(pattern.kit);
            self.asid = Some(b);
        }
        self.pattern = pattern;
        if self.transport.playing {
            self.transport.playing = false;
            self.send(&mut out, MidiCommand::Stop);
            assert(outputs_view(Seq::<Output>::empty()) + send_model(old(self)@, MidiCommandSpec::Stop)
                =~= send_model(old(self)@, MidiCommandSpec::Stop));
        } else {
            assert(outputs_view(out@) =~= Seq::<OutputSpec>::empty());
        }
        out
    }

    /// Switching the output mode. Leaving ASID mode mutes and resets the SID
    /// device and detaches it; entering ASID mode disconnects MIDI out.
    pub fn set_output_mode(&mut self, mode: OutputMode) -> (out: Vec<Output>)
        requires
            old(self)@.wf(),
        ensures
            mode == OutputMode::Midi ==> final(self)@ == (MachineView {
                output_mode: mode,
                sid: None,
                ..old(self)@
            }),
            mode == OutputMode::Asid ==> final(self)@ == (MachineView {
                output_mode: mode,
                midi_out: false,
                ..old(self)@
            }),
            outputs_view(out@) == (if mode == OutputMode::Midi && old(self).asid is Some {
                seq![OutputSpec::SidMute, OutputSpec::SidReset]
            } else {
                Seq::empty()
            }),
            final(self)@.wf(),
    {
        let mut out: Vec<Output> = Vec::new();
        self.output_mode = mode;
        match mode {
            OutputMode::Midi => {
                if self.asid.is_some() {
                    out.push(Output::SidMute);
                    out.push(Output::SidReset);
                }
                self.asid = None;
            },
            OutputMode::Asid => {
                self.midi_out = false;
            },
        }
        assert(outputs_view(out@) =~= (if mode == OutputMode::Midi && old(self).asid is Some {
            seq![OutputSpec::SidMute, OutputSpec::SidReset]
        } else {
            Seq::empty()
        }));
        out
    }

    /// Records whether a MIDI-out port is connected.
    pub fn set_midi_out(&mut self, connected: bool)
        requires
            old(self)@.wf(),
        ensures
            final(self)@ == (MachineView { midi_out: connected, ..old(self)@ }),
            final(self)@.wf(),
    {
        self.midi_out = connected;
    }

    /// Records whether an external clock source is connected; (dis)connecting
    /// restarts the count of received clocks.
    pub fn set_clock_in(&mut self, connected: bool)
        requires
            old(self)@.wf(),
        ensures
            final(self)@ == (MachineView {
                clock_in: connected,
                midi_in_clock_count: 0,
                ..old(self)@
            }),
            final(self)@.wf(),
    {
        self.clock_in = connected;
        self.midi_in_clock_count = 0;
    }

    /// A SID device was attached: the SID engine starts with silent voices
    /// and the pattern's kit.
    pub fn attach_asid(&mut self)
        requires
            old(self)@.wf(),
        ensures
            final(self)@ == (MachineView {
                sid: Some(
                    SidState {
                        voices: Seq::new(NUM_VOICES as nat, |i: int| silent_voice()),
                        kit: old(self).pattern.kit,
                    },
                ),
                ..old(self)@
            }),
            final(self)@.wf(),
    {
        let b = AsidBackend::new(self.pattern.kit);
        self.asid = Some(b);
        assert(self@ =~= (MachineView {
            sid: Some(
                SidState {
                    voices: Seq::new(NUM_VOICES as nat, |i: int| silent_voice()),
                    kit: old(self).pattern.kit,
                },
            ),
            ..old(self)@
        }));
    }
}

// ── Laws ─────────────────────────────────────────────────────────────────────
proof fn lemma_fire_keeps_transport(m: MachineView, step: u8)
    ensures
        fire_model(m, step).0.transport == m.transport,
        fire_model(m, step).0.tick_acc_ms == m.tick_acc_ms,
        fire_model(m, step).0.midi_clock_acc_us == m.midi_clock_acc_us,
        fire_model(m, step).0.midi_in_clock_count == m.midi_in_clock_count,
        fire_model(m, step).0.clock_in == m.clock_in,
        fire_model(m, step).0.midi_out == m.midi_out,
{
}

/// The internal timer moves the transport at most one step per tick, to the
/// next step on the grid, and not at all while an external clock drives it
/// or while stopped.
pub proof fn lemma_internal_step_advances(m: MachineView)
    requires
        m.wf(),
    ensures
        ({
            let m2 = internal_step_model(m).0;
            ||| m2.transport.current_step == m.transport.current_step
            ||| m2.transport.current_step == (m.transport.current_step + 1) % 16
        }),
        m.clock_in || !m.transport.playing ==> internal_step_model(m).0 == m,
{
    let acc = wrap_add_u64(m.tick_acc_ms, CLOCK_MS);
    let next = ((m.transport.current_step + 1) % 16) as u8;
    let threshold = step_duration(next, m.transport.bpm, m.transport.swing);
    let m1 = MachineView {
        tick_acc_ms: (acc - threshold) as u64,
        transport: Transport { current_step: next, ..m.transport },
        ..m
    };
    lemma_fire_keeps_transport(m1, next);
}

/// `n` MIDI clock messages.
pub open spec fn clocks(n: nat) -> Seq<MidiInEvent> {
    Seq::new(n, |i: int| MidiInEvent::Clock)
}

proof fn lemma_clocks_partial(m: MachineView, k: nat)
    requires
        m.transport.playing,
        m.midi_in_clock_count % 6 == 0,
        m.midi_in_clock_count + 6 <= u64::MAX,
        1 <= k <= 5,
    ensures
        in_events_model(m, clocks(6), k as int).0 == (MachineView {
            midi_in_clock_count: (m.midi_in_clock_count + k) as u64,
            ..m
        }),
    decreases k,
{
    let prev = in_events_model(m, clocks(6), k - 1).0;
    if k > 1 {
        lemma_clocks_partial(m, (k - 1) as nat);
    } else {
        assert(prev == m);
    }
    assert(prev.transport == m.transport);
    assert(prev.midi_in_clock_count == m.midi_in_clock_count + k - 1);
    assert(clocks(6)[k - 1] == MidiInEvent::Clock);
    let c = m.midi_in_clock_count + k;
    assert(c % 6 != 0) by (nonlinear_arith)
        requires
            m.midi_in_clock_count % 6 == 0,
            c == m.midi_in_clock_count + k,
            1 <= k <= 5,
    ;
    assert(wrap_add_u64(prev.midi_in_clock_count, 1) == c);
    assert(in_events_model(m, clocks(6), k as int).0 =~= (MachineView {
        midi_in_clock_count: (m.midi_in_clock_count + k) as u64,
        ..m
    }));
}

/// Following an external clock at 24 clocks per quarter note: from a step
/// boundary (the count of received clocks a multiple of 6, as after Start),
/// six clocks move a running transport exactly one step on.
pub proof fn lemma_six_clocks_one_step(m: MachineView)
    requires
        m.wf(),
        m.transport.playing,
        m.midi_in_clock_count % 6 == 0,
        m.midi_in_clock_count + 6 <= u64::MAX,
    ensures
        in_events_model(m, clocks(6), 6).0.transport.current_step == (m.transport.current_step + 1)
            % 16,
        in_events_model(m, clocks(6), 6).0.midi_in_clock_count == m.midi_in_clock_count + 6,
        in_events_model(m, clocks(6), 6).0.transport.playing,
{
    lemma_clocks_partial(m, 5);
    let m5 = in_events_model(m, clocks(6), 5).0;
    assert(clocks(6)[5] == MidiInEvent::Clock);
    let c = m.midi_in_clock_count + 6;
    assert(c % 6 == 0) by (nonlinear_arith)
        requires
            m.midi_in_clock_count % 6 == 0,
            c == m.midi_in_clock_count + 6,
    ;
    let next = ((m5.transport.current_step + 1) % 16) as u8;
    let m6 = MachineView {
        transport: Transport { current_step: next, ..m5.transport },
        midi_in_clock_count: c as u64,
        ..m5
    };
    lemma_fire_keeps_transport(m6, next);
}

/// MIDI clock out follows the tempo without drift: every microsecond of the
/// tick is accounted for, either as a whole clock period sent or as the
/// remainder carried to the next tick, which stays under one period.
pub proof fn lemma_midi_clock_conservation(m: MachineView)
    requires
        m.wf(),
        m.transport.playing,
        m.midi_out,
    ensures
        ({
            let (m2, o) = midi_clock_model(m);
            let period = clock_period_us(m.transport.bpm);
            &&& m2.midi_clock_acc_us < period
            &&& m.midi_clock_acc_us + CLOCK_MS * 1000 == m2.midi_clock_acc_us + o.len() * period
        }),
{
    let period = clock_period_us(m.transport.bpm);
    lemma_clock_period(m.transport.bpm);
    lemma_clock_drain(m.midi_clock_acc_us + CLOCK_MS * 1000, period);
}

/// Play always starts at step 0 with the transport running, and its first
/// output is MIDI Start (when a MIDI-out port is connected); stop always
/// leaves the transport stopped at step 0.
pub proof fn lemma_play_stop(m: MachineView)
    requires
        m.wf(),
    ensures
        play_model(m).0.transport.playing,
        play_model(m).0.transport.current_step == 0,
        m.midi_out ==> play_model(m).1[0] == OutputSpec::Midi(MidiCommandSpec::Start),
        !stop_model(m).0.transport.playing,
        stop_model(m).0.transport.current_step == 0,
{
    let m1 = MachineView {
        transport: Transport { playing: true, current_step: 0, ..m.transport },
        tick_acc_ms: 0,
        midi_clock_acc_us: 0,
        midi_in_clock_count: 0,
        ..m
    };
    lemma_fire_keeps_transport(m1, 0);
}

/// Following an external clock over any number of clocks: from any count
/// `c` of received clocks at step `k`, `n` clocks leave a running transport
/// at step `(k + (c + n) / 6 - c / 6) % 16` — one sixteenth-note step for
/// every sixth clock — with the count at `c + n`.
pub proof fn lemma_clock_in_steps(m: MachineView, evs: Seq<MidiInEvent>, n: int)
    requires
        m.transport.playing,
        m.transport.current_step < NUM_STEPS,
        0 <= n <= evs.len(),
        forall|i: int| 0 <= i < evs.len() ==> evs[i] == MidiInEvent::Clock,
        m.midi_in_clock_count + n <= u64::MAX,
    ensures
        ({
            let r = in_events_model(m, evs, n).0;
            let c = m.midi_in_clock_count as int;
            let k = m.transport.current_step as int;
            &&& r.transport.playing
            &&& r.transport.bpm == m.transport.bpm
            &&& r.midi_in_clock_count == c + n
            &&& r.transport.current_step == (k + (c + n) / 6 - c / 6) % 16
        }),
    decreases n,
{
    let c = m.midi_in_clock_count as int;
    let k = m.transport.current_step as int;
    if n == 0 {
        assert((k + c / 6 - c / 6) % 16 == k);
    } else {
        lemma_clock_in_steps(m, evs, n - 1);
        let r1 = in_events_model(m, evs, n - 1).0;
        let x = k + (c + n - 1) / 6 - c / 6;
        assert(x >= 0) by (nonlinear_arith)
            requires
                n >= 1,
                c >= 0,
                k >= 0,
                x == k + (c + n - 1) / 6 - c / 6,
        ;
        assert(evs[n - 1] == MidiInEvent::Clock);
        let cn = wrap_add_u64(r1.midi_in_clock_count, 1);
        assert(cn == c + n);
        if cn % 6 == 0 {
            let next = ((r1.transport.current_step + 1) % 16) as u8;
            let m1 = MachineView {
                transport: Transport { current_step: next, ..r1.transport },
                midi_in_clock_count: cn,
                ..r1
            };
            lemma_fire_keeps_transport(m1, next);
            assert((c + n) / 6 == (c + n - 1) / 6 + 1) by (nonlinear_arith)
                requires
                    (c + n) % 6 == 0,
                    c + n >= 1,
            ;
            assert((x % 16 + 1) % 16 == (x + 1) % 16) by (nonlinear_arith)
                requires
                    x >= 0,
            ;
        } else {
            assert((c + n) / 6 == (c + n - 1) / 6) by (nonlinear_arith)
                requires
                    (c + n) % 6 != 0,
                    c + n >= 1,
            ;
        }
    }
}

/// Whether an output is a MIDI timing clock.
pub open spec fn is_clock(o: OutputSpec) -> bool {
    o matches OutputSpec::Midi(MidiCommandSpec::Clock)
}

/// The number of MIDI timing clocks among the outputs.
pub open spec fn clock_count(o: Seq<OutputSpec>) -> nat
    decreases o.len(),
{
    if o.len() == 0 {
        0
    } else {
        clock_count(o.drop_last()) + if is_clock(o.last()) {
            1nat
        } else {
            0nat
        }
    }
}

proof fn lemma_clock_count_add(a: Seq<OutputSpec>, b: Seq<OutputSpec>)
    ensures
        clock_count(a + b) == clock_count(a) + clock_count(b),
    decreases b.len(),
{
    if b.len() == 0 {
        assert(a + b =~= a);
    } else {
        lemma_clock_count_add(a, b.drop_last());
        assert((a + b).drop_last() =~= a + b.drop_last());
        assert((a + b).last() == b.last());
    }
}

proof fn lemma_clock_count_none(o: Seq<OutputSpec>)
    requires
        forall|i: int| 0 <= i < o.len() ==> !is_clock(#[trigger] o[i]),
    ensures
        clock_count(o) == 0,
    decreases o.len(),
{
    if o.len() > 0 {
        lemma_clock_count_none(o.drop_last());
    }
}

proof fn lemma_clock_count_all(n: nat)
    ensures
        clock_count(Seq::new(n, |i: int| OutputSpec::Midi(MidiCommandSpec::Clock))) == n,
    decreases n,
{
    if n > 0 {
        lemma_clock_count_all((n - 1) as nat);
        assert(Seq::new(n, |i: int| OutputSpec::Midi(MidiCommandSpec::Clock)).drop_last() =~= Seq::new(
            (n - 1) as nat,
            |i: int| OutputSpec::Midi(MidiCommandSpec::Clock),
        ));
    }
}

proof fn lemma_sid_fire_no_clock(s: SidState, p: Pattern, evs: Seq<DrumEvent>, n: int)
    ensures
        forall|i: int|
            0 <= i < sid_fire(s, p, evs, n).1.len() ==> !is_clock(#[trigger] sid_fire(s, p, evs, n).1[i]),
    decreases n,
{
    if n > 0 {
        lemma_sid_fire_no_clock(s, p, evs, n - 1);
        let (s1, o1) = sid_fire(s, p, evs, n - 1);
        let e = evs[n - 1];
        let (v2, w) = trigger_effect(s1.voices, s1.kit, e, p.track_volume[e.track.row()]);
        let cur = sid_fire(s, p, evs, n).1;
        assert(cur == o1.push(OutputSpec::Sid(w)));
        assert forall|i: int| 0 <= i < cur.len() implies !is_clock(#[trigger] cur[i]) by {
            if i < o1.len() {
                assert(cur[i] == o1[i]);
            }
        }
    }
}

proof fn lemma_fire_no_clock(m: MachineView, step: u8)
    ensures
        clock_count(fire_model(m, step).1) == 0,
{
    let evs = step_events(m.pattern.steps, step);
    if evs.len() > 0 {
        match m.output_mode {
            OutputMode::Midi => {
                lemma_clock_count_none(fire_model(m, step).1);
            },
            OutputMode::Asid => {
                if let Some(s) = m.sid {
                    lemma_sid_fire_no_clock(s, m.pattern, evs, evs.len() as int);
                }
                lemma_clock_count_none(fire_model(m, step).1);
            },
        }
    } else {
        lemma_clock_count_none(fire_model(m, step).1);
    }
}

/// One tick while playing on the internal clock with a MIDI-out port: the
/// clocks sent and the carried remainder are those of `midi_clock_model`,
/// and the conditions hold for the next tick.
proof fn lemma_tick_clocks(m: MachineView)
    requires
        m.transport.playing,
        m.midi_out,
        !m.clock_in,
    ensures
        ({
            let (m2, o) = clock_tick_model(m, Seq::empty());
            let acc = m.midi_clock_acc_us + CLOCK_MS * 1000;
            let period = clock_period_us(m.transport.bpm);
            &&& m2.transport.playing
            &&& m2.midi_out
            &&& !m2.clock_in
            &&& m2.transport.bpm == m.transport.bpm
            &&& m2.midi_clock_acc_us == clock_rest(acc, period)
            &&& clock_count(o) == clocks_due(acc, period)
        }),
{
    let (m1, o1) = sid_tick_model(m);
    let (m3, o3) = midi_clock_model(m1);
    let (m4, o4) = internal_step_model(m3);
    let acc = m.midi_clock_acc_us + CLOCK_MS * 1000;
    let period = clock_period_us(m.transport.bpm);
    lemma_clock_period(m.transport.bpm);
    lemma_clock_drain(acc, period);
    lemma_clock_count_none(o1);
    lemma_clock_count_all(clocks_due(acc, period));
    assert(o3 =~= Seq::new(clocks_due(acc, period), |i: int| OutputSpec::Midi(MidiCommandSpec::Clock)));
    let a4 = wrap_add_u64(m3.tick_acc_ms, CLOCK_MS);
    let next = ((m3.transport.current_step + 1) % 16) as u8;
    let threshold = step_duration(next, m3.transport.bpm, m3.transport.swing);
    let m3b = MachineView {
        tick_acc_ms: (a4 - threshold) as u64,
        transport: Transport { current_step: next, ..m3.transport },
        ..m3
    };
    lemma_fire_keeps_transport(m3b, next);
    lemma_fire_no_clock(m3b, next);
    lemma_clock_count_none(Seq::<OutputSpec>::empty());
    let o2 = Seq::<OutputSpec>::empty();
    assert(clock_tick_model(m, Seq::empty()).1 == o1 + o2 + o3 + o4);
    lemma_clock_count_add(o1, o2);
    lemma_clock_count_add(o1 + o2, o3);
    lemma_clock_count_add(o1 + o2 + o3, o4);
}

/// `n` timer ticks with no incoming MIDI: the state afterwards and all the
/// outputs, in order.
pub open spec fn run_ticks(m: MachineView, n: nat) -> (MachineView, Seq<OutputSpec>)
    decreases n,
{
    if n == 0 {
        (m, Seq::empty())
    } else {
        let (m1, o1) = run_ticks(m, (n - 1) as nat);
        let (m2, o2) = clock_tick_model(m1, Seq::empty());
        (m2, o1 + o2)
    }
}

proof fn lemma_run_ticks_clocks(m: MachineView, n: nat)
    requires
        m.transport.playing,
        m.midi_out,
        !m.clock_in,
    ensures
        ({
            let (mn, o) = run_ticks(m, n);
            let period = clock_period_us(m.transport.bpm);
            &&& mn.transport.playing
            &&& mn.midi_out
            &&& !mn.clock_in
            &&& mn.transport.bpm == m.transport.bpm
            &&& m.midi_clock_acc_us + CLOCK_MS * 1000 * n == mn.midi_clock_acc_us + clock_count(o)
                * period
            &&& n >= 1 ==> mn.midi_clock_acc_us < period
        }),
    decreases n,
{
    let period = clock_period_us(m.transport.bpm);
    lemma_clock_period(m.transport.bpm);
    if n == 0 {
        assert(clock_count(Seq::<OutputSpec>::empty()) == 0);
        assert(m.midi_clock_acc_us + CLOCK_MS * 1000 * n == m.midi_clock_acc_us) by (nonlinear_arith)
            requires
                n == 0,
        ;
        assert(0 * period == 0) by (nonlinear_arith);
    } else {
        lemma_run_ticks_clocks(m, (n - 1) as nat);
        let (m1, o1) = run_ticks(m, (n - 1) as nat);
        let (m2, o2) = clock_tick_model(m1, Seq::empty());
        lemma_tick_clocks(m1);
        let acc = m1.midi_clock_acc_us + CLOCK_MS * 1000;
        lemma_clock_drain(acc, period);
        lemma_clock_count_add(o1, o2);
        let c1 = clock_count(o1);
        let c2 = clock_count(o2);
        assert(m.midi_clock_acc_us + CLOCK_MS * 1000 * n == m.midi_clock_acc_us + CLOCK_MS * 1000 * (
        n - 1) + 5000) by (nonlinear_arith);
        assert((c1 + c2) * period == c1 * period + c2 * period) by (nonlinear_arith);
    }
}

/// MIDI clock out at 24 per quarter note over any number of ticks: while
/// playing on the internal clock with a MIDI-out port and no incoming MIDI,
/// `n >= 1` ticks of 5 ms from accumulator `a` at clock period `p` send
/// exactly `(a + 5000 n) / p` clocks and leave the accumulator at
/// `(a + 5000 n) % p`.
pub proof fn lemma_midi_clock_over_ticks(m: MachineView, n: nat)
    requires
        m.transport.playing,
        m.midi_out,
        !m.clock_in,
        n >= 1,
    ensures
        ({
            let (mn, o) = run_ticks(m, n);
            let total = m.midi_clock_acc_us + CLOCK_MS * 1000 * n;
            let period = clock_period_us(m.transport.bpm);
            &&& clock_count(o) == total / period
            &&& mn.midi_clock_acc_us == total % period
        }),
{
    lemma_run_ticks_clocks(m, n);
    let (mn, o) = run_ticks(m, n);
    let total = m.midi_clock_acc_us + CLOCK_MS * 1000 * n;
    let period = clock_period_us(m.transport.bpm);
    lemma_clock_period(m.transport.bpm);
    vstd::arithmetic::div_mod::lemma_fundamental_div_mod_converse(
        total,
        period,
        clock_count(o) as int,
        mn.midi_clock_acc_us as int,
    );
}

/// The SID master volume for a hit: the velocity's SID level scaled by the
/// track volume (127 = unchanged), rounded, at most 15.
pub open spec fn hit_volume(level: u8, track_volume: u8) -> int {
    let x = (level * track_volume + 64) / 127;
    if x < 15 {
        x
    } else {
        15
    }
}

proof fn lemma_sid_fire_volumes(s: SidState, p: Pattern, evs: Seq<DrumEvent>, n: int)
    requires
        0 <= n <= evs.len(),
        forall|i: int| 0 <= i < evs.len() ==> (#[trigger] evs[i]).velocity != Velocity::Off,
    ensures
        sid_fire(s, p, evs, n).1.len() == n,
        forall|i: int|
            0 <= i < n ==> (#[trigger] sid_fire(s, p, evs, n).1[i] matches OutputSpec::Sid(w) && w.len()
                > 0 && w[0].sid as int == voice_of_track(evs[i].track.row()) / 3 && w[0].reg
                == 0x18 && w[0].val as int == hit_volume(
                evs[i].velocity.sid_level(),
                p.track_volume[evs[i].track.row()],
            )),
    decreases n,
{
    if n > 0 {
        lemma_sid_fire_volumes(s, p, evs, n - 1);
        let (s1, o1) = sid_fire(s, p, evs, n - 1);
        let e = evs[n - 1];
        let (v2, w) = trigger_effect(s1.voices, s1.kit, e, p.track_volume[e.track.row()]);
        let cur = sid_fire(s, p, evs, n).1;
        assert(cur == o1.push(OutputSpec::Sid(w)));
        assert forall|i: int| 0 <= i < n implies (#[trigger] cur[i] matches OutputSpec::Sid(w) && w.len()
            > 0 && w[0].sid as int == voice_of_track(evs[i].track.row()) / 3 && w[0].reg == 0x18
            && w[0].val as int == hit_volume(
            evs[i].velocity.sid_level(),
            p.track_volume[evs[i].track.row()],
        )) by {
            if i < n - 1 {
                assert(cur[i] == o1[i]);
            }
        }
    }
}

/// Each hit played on the SID device sounds at its own track's volume: in
/// ASID mode with a device attached, a step gives one batch of writes per
/// event, in event order, and the batch of event `e` starts by setting the
/// master volume register (0x18) of the chip playing `e`'s voice to the
/// velocity's SID level scaled by the volume of `e`'s track.
pub proof fn lemma_asid_hits_use_track_volume(m: MachineView, step: u8)
    requires
        step < NUM_STEPS,
        m.output_mode == OutputMode::Asid,
        m.sid is Some,
    ensures
        ({
            let evs = step_events(m.pattern.steps, step);
            let o = fire_model(m, step).1;
            &&& o.len() == evs.len()
            &&& forall|i: int|
                0 <= i < evs.len() ==> (#[trigger] o[i] matches OutputSpec::Sid(w) && w.len() > 0
                    && w[0].sid as int == voice_of_track(evs[i].track.row()) / 3 && w[0].reg
                    == 0x18 && w[0].val as int == hit_volume(
                    evs[i].velocity.sid_level(),
                    m.pattern.track_volume[evs[i].track.row()],
                ))
        }),
{
    let evs = step_events(m.pattern.steps, step);
    crate::types::lemma_step_events_shape(m.pattern.steps, step, NUM_TRACKS as int);
    if evs.len() > 0 {
        let s = m.sid->0;
        lemma_sid_fire_volumes(s, m.pattern, evs, evs.len() as int);
    }
}

/// Continue resumes from the current position: it sets the transport
/// running and changes nothing else — the step, the count of received
/// clocks, the pattern, the accumulators and the SID state stay — and sends
/// nothing. In particular Stop then Continue returns to the same step and
/// clock count with the transport running, and nothing is played by the
/// Continue.
pub proof fn lemma_continue_resumes(m: MachineView)
    ensures
        ({
            let (m2, o) = in_event_model(m, MidiInEvent::Continue);
            &&& m2.transport.playing
            &&& m2.transport.current_step == m.transport.current_step
            &&& m2.transport.bpm == m.transport.bpm
            &&& m2.transport.swing == m.transport.swing
            &&& m2.midi_in_clock_count == m.midi_in_clock_count
            &&& m2.tick_acc_ms == m.tick_acc_ms
            &&& m2.midi_clock_acc_us == m.midi_clock_acc_us
            &&& m2.pattern == m.pattern
            &&& m2.sid == m.sid
            &&& m2.output_mode == m.output_mode
            &&& m2.midi_out == m.midi_out
            &&& m2.clock_in == m.clock_in
            &&& o.len() == 0
        }),
        ({
            let (ms, os) = in_event_model(m, MidiInEvent::Stop);
            let (mc, oc) = in_event_model(ms, MidiInEvent::Continue);
            &&& mc.transport.playing
            &&& mc.transport.current_step == m.transport.current_step
            &&& mc.midi_in_clock_count == m.midi_in_clock_count
            &&& oc.len() == 0
        }),
{
}

/// One tick on the internal clock: the time toward the next step grows by
/// 5 ms; once it reaches the duration of the step to be fired next (step
/// `(k + 1) % 16` from step `k`), that step becomes current and the
/// duration is taken off the accumulated time.
proof fn lemma_tick_internal(m: MachineView)
    requires
        m.transport.playing,
        !m.clock_in,
        m.tick_acc_ms + CLOCK_MS <= u64::MAX,
    ensures
        ({
            let m2 = clock_tick_model(m, Seq::empty()).0;
            let k = m.transport.current_step;
            let d = step_duration(((k + 1) % 16) as u8, m.transport.bpm, m.transport.swing);
            &&& m2.transport.playing
            &&& !m2.clock_in
            &&& m2.transport.bpm == m.transport.bpm
            &&& m2.transport.swing == m.transport.swing
            &&& m.tick_acc_ms + CLOCK_MS < d ==> m2.transport.current_step == k
                && m2.tick_acc_ms == m.tick_acc_ms + CLOCK_MS
            &&& m.tick_acc_ms + CLOCK_MS >= d ==> m2.transport.current_step == (k + 1) % 16
                && m2.tick_acc_ms == m.tick_acc_ms + CLOCK_MS - d
        }),
{
    let (m1, o1) = sid_tick_model(m);
    let (m3, o3) = midi_clock_model(m1);
    let a4 = wrap_add_u64(m3.tick_acc_ms, CLOCK_MS);
    let next = ((m3.transport.current_step + 1) % 16) as u8;
    let threshold = step_duration(next, m3.transport.bpm, m3.transport.swing);
    let m3b = MachineView {
        tick_acc_ms: (a4 - threshold) as u64,
        transport: Transport { current_step: next, ..m3.transport },
        ..m3
    };
    lemma_fire_keeps_transport(m3b, next);
}

/// The internal step timer waits, before firing each step, exactly that
/// step's own duration (with swing, the short wait comes before an even
/// step and the long wait before an odd one): running from step `k` with no
/// time accumulated, the transport stays at step `k` for every number of
/// ticks `n` with `5 n` short of the duration `d` of step `(k + 1) % 16`,
/// and moves to that step on the first tick at which `5 n` reaches `d`.
pub proof fn lemma_internal_step_waits_next_duration(m: MachineView, n: nat)
    requires
        m.transport.playing,
        !m.clock_in,
        m.tick_acc_ms == 0,
        m.transport.current_step < NUM_STEPS,
    ensures
        ({
            let k = m.transport.current_step;
            let d = step_duration(((k + 1) % 16) as u8, m.transport.bpm, m.transport.swing);
            let mn = run_ticks(m, n).0;
            &&& 5 * n < d ==> mn.transport.current_step == k && mn.tick_acc_ms == 5 * n
            &&& 5 * (n - 1) < d <= 5 * n && n >= 1 ==> mn.transport.current_step == (k + 1) % 16
                && mn.tick_acc_ms == 5 * n - d
        }),
    decreases n,
{
    let k = m.transport.current_step;
    let d = step_duration(((k + 1) % 16) as u8, m.transport.bpm, m.transport.swing);
    crate::sequencer::lemma_step_duration_positive(((k + 1) % 16) as u8, m.transport.bpm, m.transport.swing);
    if n > 0 {
        lemma_internal_step_waits_next_duration(m, (n - 1) as nat);
        lemma_run_ticks_keeps(m, (n - 1) as nat);
        let m1 = run_ticks(m, (n - 1) as nat).0;
        if 5 * (n - 1) < d {
            lemma_tick_internal(m1);
        }
    }
}

/// Ticks with no incoming MIDI keep the transport running on the internal
/// clock at the same tempo and swing.
proof fn lemma_run_ticks_keeps(m: MachineView, n: nat)
    requires
        m.transport.playing,
        !m.clock_in,
    ensures
        run_ticks(m, n).0.transport.playing,
        !run_ticks(m, n).0.clock_in,
        run_ticks(m, n).0.transport.bpm == m.transport.bpm,
        run_ticks(m, n).0.transport.swing == m.transport.swing,
    decreases n,
{
    if n > 0 {
        lemma_run_ticks_keeps(m, (n - 1) as nat);
        let m1 = run_ticks(m, (n - 1) as nat).0;
        let (ma, oa) = sid_tick_model(m1);
        let (mb, ob) = midi_clock_model(ma);
        let a4 = wrap_add_u64(mb.tick_acc_ms, CLOCK_MS);
        let next = ((mb.transport.current_step + 1) % 16) as u8;
        let threshold = step_duration(next, mb.transport.bpm, mb.transport.swing);
        let mc = MachineView {
            tick_acc_ms: (a4 - threshold) as u64,
            transport: Transport { current_step: next, ..mb.transport },
            ..mb
        };
        lemma_fire_keeps_transport(mc, next);
    }
}

} // verus!
