//! Core value types of the drum machine: step velocities, tracks, kits,
//! patterns and the transport state.
use vstd::prelude::*;

verus! {

pub const NUM_TRACKS: usize = 7;

pub const NUM_STEPS: usize = 16;

pub const TEMPO_MIN: u16 = 40;

pub const TEMPO_MAX: u16 = 280;

// ── Velocity ─────────────────────────────────────────────────────────────────
/// The four velocity levels a step can hold; `Off` is a silent step.
#[derive(Debug, Clone, Copy, PartialEq, Eq, Structural)]
pub enum Velocity {
    Off,
    Soft,
    Medium,
    Loud,
}

impl Velocity {
    /// The byte that stands for this velocity in the pattern file (0..=3).
    pub open spec fn code(self) -> u8 {
        match self {
            Velocity::Off => 0,
            Velocity::Soft => 1,
            Velocity::Medium => 2,
            Velocity::Loud => 3,
        }
    }

    /// Decoding of a file byte: 1, 2, 3 name a level, every other byte is `Off`.
    pub open spec fn from_code(v: u8) -> Velocity {
        if v == 1 {
            Velocity::Soft
        } else if v == 2 {
            Velocity::Medium
        } else if v == 3 {
            Velocity::Loud
        } else {
            Velocity::Off
        }
    }

    /// The click order of the step grid: Off → Loud → Medium → Soft → Off.
    pub open spec fn next_in_cycle(self) -> Velocity {
        match self {
            Velocity::Off => Velocity::Loud,
            Velocity::Loud => Velocity::Medium,
            Velocity::Medium => Velocity::Soft,
            Velocity::Soft => Velocity::Off,
        }
    }

    /// MIDI note-on velocity of a level.
    pub open spec fn midi_value(self) -> u8 {
        match self {
            Velocity::Off => 0,
            Velocity::Soft => 40,
            Velocity::Medium => 80,
            Velocity::Loud => 127,
        }
    }

    /// SID master-volume level (0..=15) of a level.
    pub open spec fn sid_level(self) -> u8 {
        match self {
            Velocity::Off => 0x00,
            Velocity::Soft => 0x06,
            Velocity::Medium => 0x0B,
            Velocity::Loud => 0x0F,
        }
    }

    pub fn from_u8(v: u8) -> (r: Self)
        ensures
            r == Velocity::from_code(v),
    {
        match v {
            1 => Velocity::Soft,
            2 => Velocity::Medium,
            3 => Velocity::Loud,
            _ => Velocity::Off,
        }
    }

    /// The file byte of this velocity.
    pub fn to_u8(self) -> (r: u8)
        ensures
            r == self.code(),
    {
        match self {
            Velocity::Off => 0,
            Velocity::Soft => 1,
            Velocity::Medium => 2,
            Velocity::Loud => 3,
        }
    }

    /// Cycles Off→Loud→Medium→Soft→Off on each click.
    pub fn cycle(self) -> (r: Self)
        ensures
            r == self.next_in_cycle(),
    {
        match self {
            Velocity::Off => Velocity::Loud,
            Velocity::Loud => Velocity::Medium,
            Velocity::Medium => Velocity::Soft,
            Velocity::Soft => Velocity::Off,
        }
    }

    pub fn is_active(self) -> (r: bool)
        ensures
            r == (self != Velocity::Off),
    {
        match self {
            Velocity::Off => false,
            _ => true,
        }
    }

    pub fn midi_velocity(self) -> (r: u8)
        ensures
            r == self.midi_value(),
    {
        match self {
            Velocity::Off => 0,
            Velocity::Soft => 40,
            Velocity::Medium => 80,
            Velocity::Loud => 127,
        }
    }

    /// SID master-volume level used in the original hardware (0-15).
    pub fn sid_vol(self) -> (r: u8)
        ensures
            r == self.sid_level(),
    {
        match self {
            Velocity::Off => 0x00,
            Velocity::Soft => 0x06,
            Velocity::Medium => 0x0B,
            Velocity::Loud => 0x0F,
        }
    }
}

impl Default for Velocity {
    fn default() -> (r: Self)
        ensures
            r == Velocity::Off,
    {
        Velocity::Off
    }
}

/// Every velocity survives being written as a file byte and read back.
pub proof fn lemma_velocity_code_roundtrip(v: Velocity)
    ensures
        Velocity::from_code(v.code()) == v,
        v.code() <= 3,
{
}

/// Four clicks on a step bring it back to where it was, and every click
/// changes it.
pub proof fn lemma_velocity_cycle_period(v: Velocity)
    ensures
        v.next_in_cycle() != v,
        v.next_in_cycle().next_in_cycle().next_in_cycle().next_in_cycle() == v,
{
}

/// A level is sounding exactly when its MIDI velocity and its SID volume are
/// nonzero; louder levels never map to smaller values, and the SID volume
/// fits the 4-bit register.
pub proof fn lemma_velocity_levels(v: Velocity, w: Velocity)
    ensures
        (v != Velocity::Off) <==> v.midi_value() > 0,
        (v != Velocity::Off) <==> v.sid_level() > 0,
        v.sid_level() <= 15,
        v.midi_value() <= 127,
        v.code() <= w.code() ==> v.midi_value() <= w.midi_value(),
        v.code() <= w.code() ==> v.sid_level() <= w.sid_level(),
{
}

// ── Track ────────────────────────────────────────────────────────────────────
/// The seven instrument rows of a pattern, in row order.
#[derive(Debug, Clone, Copy, PartialEq, Eq, Structural)]
pub enum Track {
    Kick,
    Snare,
    ClosedHat,
    OpenHat,
    Tom,
    Clap,
    Crash,
}

/// The track of row `i` (0..7).
pub open spec fn track_at(i: int) -> Track {
    if i == 0 {
        Track::Kick
    } else if i == 1 {
        Track::Snare
    } else if i == 2 {
        Track::ClosedHat
    } else if i == 3 {
        Track::OpenHat
    } else if i == 4 {
        Track::Tom
    } else if i == 5 {
        Track::Clap
    } else {
        Track::Crash
    }
}

impl Track {
    /// Row number of the track in the pattern grid.
    pub open spec fn row(self) -> int {
        match self {
            Track::Kick => 0,
            Track::Snare => 1,
            Track::ClosedHat => 2,
            Track::OpenHat => 3,
            Track::Tom => 4,
            Track::Clap => 5,
            Track::Crash => 6,
        }
    }

    /// General MIDI drum-map note of the track (channel 10).
    pub open spec fn gm_note(self) -> u8 {
        match self {
            Track::Kick => 36,
            Track::Snare => 38,
            Track::ClosedHat => 42,
            Track::OpenHat => 46,
            Track::Tom => 45,
            Track::Clap => 39,
            Track::Crash => 49,
        }
    }

    /// All tracks in row order.
    pub fn all() -> (r: [Track; NUM_TRACKS])
        ensures
            forall|i: int| 0 <= i < NUM_TRACKS ==> #[trigger] r[i] == track_at(i),
    {
        [Track::Kick, Track::Snare, Track::ClosedHat, Track::OpenHat, Track::Tom, Track::Clap, Track::Crash]
    }

    /// Row number of the track.
    pub fn index(self) -> (r: usize)
        ensures
            r as int == self.row(),
            r < NUM_TRACKS,
    {
        match self {
            Track::Kick => 0,
            Track::Snare => 1,
            Track::ClosedHat => 2,
            Track::OpenHat => 3,
            Track::Tom => 4,
            Track::Clap => 5,
            Track::Crash => 6,
        }
    }

    pub fn label(self) -> (r: &'static str)
        ensures
            r@ == (match self {
                Track::Kick => "Kick"@,
                Track::Snare => "Snare"@,
                Track::ClosedHat => "C.Hat"@,
                Track::OpenHat => "O.Hat"@,
                Track::Tom => "Tom"@,
                Track::Clap => "Clap"@,
                Track::Crash => "Crash"@,
            }),
    {
        match self {
            Track::Kick => "Kick",
            Track::Snare => "Snare",
            Track::ClosedHat => "C.Hat",
            Track::OpenHat => "O.Hat",
            Track::Tom => "Tom",
            Track::Clap => "Clap",
            Track::Crash => "Crash",
        }
    }

    /// GM drum map note numbers (MIDI channel 10).
    pub fn midi_note(self) -> (r: u8)
        ensures
            r == self.gm_note(),
    {
        match self {
            Track::Kick => 36,
            Track::Snare => 38,
            Track::ClosedHat => 42,
            Track::OpenHat => 46,
            Track::Tom => 45,
            Track::Clap => 39,
            Track::Crash => 49,
        }
    }

    pub fn from_index(i: usize) -> (r: Option<Self>)
        ensures
            i < NUM_TRACKS ==> r == Some(track_at(i as int)),
            i >= NUM_TRACKS ==> r is None,
    {
        if i < NUM_TRACKS {
            let all = Track::all();
            Some(all[i])
        } else {
            None
        }
    }
}

/// The General MIDI drum map on channel 10: Kick = Bass Drum 1 (36),
/// Snare = Acoustic Snare (38), ClosedHat = Closed Hi-Hat (42), OpenHat =
/// Open Hi-Hat (46), Tom = Low Floor Tom (45), Clap = Hand Clap (39),
/// Crash = Crash Cymbal 1 (49); no two tracks share a note.
pub proof fn lemma_gm_drum_map(t: Track, u: Track)
    ensures
        Track::Kick.gm_note() == 36,
        Track::Snare.gm_note() == 38,
        Track::ClosedHat.gm_note() == 42,
        Track::OpenHat.gm_note() == 46,
        Track::Tom.gm_note() == 45,
        Track::Clap.gm_note() == 39,
        Track::Crash.gm_note() == 49,
        t != u ==> t.gm_note() != u.gm_note(),
        35 <= t.gm_note() <= 81,
{
}

/// Row numbers and tracks correspond one to one.
pub proof fn lemma_track_rows(t: Track, i: int)
    ensures
        0 <= t.row() < NUM_TRACKS,
        track_at(t.row()) == t,
        0 <= i < NUM_TRACKS ==> track_at(i).row() == i,
{
}

// ── Kit ──────────────────────────────────────────────────────────────────────
/// The four synthesis kits.
#[derive(Debug, Clone, Copy, PartialEq, Eq, Structural)]
pub enum Kit {
    Tr909,
    Tr808,
    Rock,
    Sid,
}

impl Kit {
    /// The byte that stands for the kit in the pattern file.
    pub open spec fn code(self) -> u8 {
        match self {
            Kit::Tr909 => 0,
            Kit::Tr808 => 1,
            Kit::Rock => 2,
            Kit::Sid => 3,
        }
    }

    /// Decoding of a kit byte: unknown bytes give the 909 kit.
    pub open spec fn from_code(v: u8) -> Kit {
        if v == 1 {
            Kit::Tr808
        } else if v == 2 {
            Kit::Rock
        } else if v == 3 {
            Kit::Sid
        } else {
            Kit::Tr909
        }
    }

    /// All kits in menu order.
    pub fn all() -> (r: [Kit; 4])
        ensures
            r[0] == Kit::Tr909,
            r[1] == Kit::Tr808,
            r[2] == Kit::Rock,
            r[3] == Kit::Sid,
    {
        [Kit::Tr909, Kit::Tr808, Kit::Rock, Kit::Sid]
    }

    pub fn label(self) -> (r: &'static str)
        ensures
            r@ == (match self {
                Kit::Tr909 => "909"@,
                Kit::Tr808 => "808"@,
                Kit::Rock => "Rock"@,
                Kit::Sid => "SID"@,
            }),
    {
        match self {
            Kit::Tr909 => "909",
            Kit::Tr808 => "808",
            Kit::Rock => "Rock",
            Kit::Sid => "SID",
        }
    }

    pub fn from_u8(v: u8) -> (r: Self)
        ensures
            r == Kit::from_code(v),
    {
        match v {
            1 => Kit::Tr808,
            2 => Kit::Rock,
            3 => Kit::Sid,
            _ => Kit::Tr909,
        }
    }

    /// The file byte of this kit.
    pub fn to_u8(self) -> (r: u8)
        ensures
            r == self.code(),
    {
        match self {
            Kit::Tr909 => 0,
            Kit::Tr808 => 1,
            Kit::Rock => 2,
            Kit::Sid => 3,
        }
    }
}

impl Default for Kit {
    fn default() -> (r: Self)
        ensures
            r == Kit::Tr909,
    {
        Kit::Tr909
    }
}

/// Every kit survives being written as a file byte and read back.
pub proof fn lemma_kit_code_roundtrip(k: Kit)
    ensures
        Kit::from_code(k.code()) == k,
        k.code() <= 3,
{
}

// ── DrumEvent ────────────────────────────────────────────────────────────────
/// One hit to play: which track, how loud, at which step.
#[derive(Debug, Clone, Copy)]
pub struct DrumEvent {
    pub track: Track,
    pub velocity: Velocity,
    pub step: u8,
}

// ── Pattern ──────────────────────────────────────────────────────────────────
/// A 7-track × 16-step pattern with its playback settings and per-track mix.
#[derive(Debug, Clone)]
pub struct Pattern {
    pub steps: [[Velocity; NUM_STEPS]; NUM_TRACKS],
    pub name: String,
    pub kit: Kit,
    pub tempo: u16,
    pub swing: u8,
    /// Per-track volume, 0..=127.
    pub track_volume: [u8; NUM_TRACKS],
    /// Per-track pan, -64..=63.
    pub track_pan: [i8; NUM_TRACKS],
}

/// Whether track row `t` sounds at step `s`: its step is active, and the
/// closed hat is silenced when the open hat fires (the two share a voice).
pub open spec fn fires(steps: [[Velocity; NUM_STEPS]; NUM_TRACKS], t: int, s: int) -> bool {
    &&& steps[t][s] != Velocity::Off
    &&& !(t == 2 && steps[3][s] != Velocity::Off)
}

/// The events of the first `n` track rows at step `s`, in row order.
pub open spec fn events_upto(steps: [[Velocity; NUM_STEPS]; NUM_TRACKS], s: u8, n: int) -> Seq<
    DrumEvent,
>
    decreases n,
{
    if n <= 0 {
        Seq::empty()
    } else {
        let prev = events_upto(steps, s, n - 1);
        if fires(steps, n - 1, s as int) {
            prev.push(DrumEvent { track: track_at(n - 1), velocity: steps[n - 1][s as int], step: s })
        } else {
            prev
        }
    }
}

/// The events a pattern grid produces at step `s`.
pub open spec fn step_events(steps: [[Velocity; NUM_STEPS]; NUM_TRACKS], s: u8) -> Seq<DrumEvent> {
    events_upto(steps, s, NUM_TRACKS as int)
}

impl Pattern {
    /// Returns all active drum events at the given step, respecting the
    /// CHH/OHH voice-sharing rule: closed hat is silenced when open hat fires.
    pub fn events_at_step(&self, step: u8) -> (r: Vec<DrumEvent>)
        requires
            step < NUM_STEPS,
        ensures
            r@ == step_events(self.steps, step),
    {
        let s = step as usize;
        let ohh_fires = self.steps[3][s].is_active();
        let all = Track::all();
        let mut out: Vec<DrumEvent> = Vec::new();
        let mut t: usize = 0;
        while t < NUM_TRACKS
            invariant
                t <= NUM_TRACKS,
                s == step as usize,
                s < NUM_STEPS,
                ohh_fires == (self.steps[3][s as int] != Velocity::Off),
                forall|i: int| 0 <= i < NUM_TRACKS ==> #[trigger] all[i] == track_at(i),
                out@ == events_upto(self.steps, step, t as int),
            decreases NUM_TRACKS - t,
        {
            let track = all[t];
            let vel = self.steps[t][s];
            if vel.is_active() && !(t == 2 && ohh_fires) {
                out.push(DrumEvent { track, velocity: vel, step });
            }
            t = t + 1;
        }
        out
    }
}

impl Default for Pattern {
    fn default() -> (r: Self)
        ensures
            forall|t: int, s: int|
                0 <= t < NUM_TRACKS && 0 <= s < NUM_STEPS ==> #[trigger] r.steps[t][s]
                    == Velocity::Off,
            r.name@ == "New Pattern"@,
            r.kit == Kit::Tr909,
            r.tempo == 120,
            r.swing == 0,
            forall|t: int| 0 <= t < NUM_TRACKS ==> #[trigger] r.track_volume[t] == 100,
            forall|t: int| 0 <= t < NUM_TRACKS ==> #[trigger] r.track_pan[t] == 0,
    {
        Pattern {
            steps: [[Velocity::Off; NUM_STEPS]; NUM_TRACKS],
            name: "New Pattern".to_owned(),
            kit: Kit::Tr909,
            tempo: 120,
            swing: 0,
            track_volume: [100u8; NUM_TRACKS],
            track_pan: [0i8; NUM_TRACKS],
        }
    }
}

/// The closed hat never sounds together with the open hat, every event
/// carries the step it was asked for and a sounding velocity, and the events
/// come in row order, one per track at most.
pub proof fn lemma_step_events_shape(steps: [[Velocity; NUM_STEPS]; NUM_TRACKS], s: u8, n: int)
    requires
        0 <= n <= NUM_TRACKS,
        s < NUM_STEPS,
    ensures
        events_upto(steps, s, n).len() <= n,
        forall|i: int|
            0 <= i < events_upto(steps, s, n).len() ==> {
                let e = #[trigger] events_upto(steps, s, n)[i];
                &&& e.step == s
                &&& e.velocity != Velocity::Off
                &&& e.velocity == steps[e.track.row()][s as int]
                &&& e.track.row() < n
                &&& !(e.track == Track::ClosedHat && steps[3][s as int] != Velocity::Off)
            },
        forall|i: int, j: int|
            0 <= i < j < events_upto(steps, s, n).len() ==> (#[trigger] events_upto(
                steps,
                s,
                n,
            )[i]).track.row() < (#[trigger] events_upto(steps, s, n)[j]).track.row(),
    decreases n,
{
    if n > 0 {
        lemma_step_events_shape(steps, s, n - 1);
    }
}

/// A track sounds at a step exactly when an event for it is produced there.
pub proof fn lemma_step_events_complete(
    steps: [[Velocity; NUM_STEPS]; NUM_TRACKS],
    s: u8,
    n: int,
    t: int,
)
    requires
        0 <= n <= NUM_TRACKS,
        s < NUM_STEPS,
        0 <= t < n,
    ensures
        fires(steps, t, s as int) <==> exists|i: int|
            0 <= i < events_upto(steps, s, n).len() && (#[trigger] events_upto(steps, s, n)[i]).track
                == track_at(t),
    decreases n,
{
    lemma_step_events_shape(steps, s, n);
    if t < n - 1 {
        lemma_step_events_complete(steps, s, n - 1, t);
        lemma_step_events_shape(steps, s, n - 1);
        let prev = events_upto(steps, s, n - 1);
        let cur = events_upto(steps, s, n);
        if fires(steps, t, s as int) {
            let i = choose|i: int| 0 <= i < prev.len() && (#[trigger] prev[i]).track == track_at(t);
            assert(cur[i] == prev[i]);
        }
        if exists|i: int| 0 <= i < cur.len() && (#[trigger] cur[i]).track == track_at(t) {
            let i = choose|i: int| 0 <= i < cur.len() && (#[trigger] cur[i]).track == track_at(t);
            if i < prev.len() {
                assert(cur[i] == prev[i]);
            } else {
                assert(cur[i].track == track_at(n - 1));
                assert(track_at(t).row() == t);
                assert(track_at(n - 1).row() == n - 1);
            }
        }
    } else {
        lemma_step_events_shape(steps, s, n - 1);
        let prev = events_upto(steps, s, n - 1);
        let cur = events_upto(steps, s, n);
        if fires(steps, t, s as int) {
            assert(cur[cur.len() - 1].track == track_at(t));
        }
        if exists|i: int| 0 <= i < cur.len() && (#[trigger] cur[i]).track == track_at(t) {
            let i = choose|i: int| 0 <= i < cur.len() && (#[trigger] cur[i]).track == track_at(t);
            if i < prev.len() {
                assert(prev[i].track.row() < n - 1);
                assert(track_at(t).row() == t);
            }
        }
    }
}

// ── Transport ────────────────────────────────────────────────────────────────
/// Playback state: whether it runs, the step shown, tempo and swing.
#[derive(Debug, Clone)]
pub struct Transport {
    pub playing: bool,
    pub current_step: u8,
    pub bpm: u16,
    pub swing: u8,
}

impl Default for Transport {
    fn default() -> (r: Self)
        ensures
            !r.playing,
            r.current_step == 0,
            r.bpm == 120,
            r.swing == 0,
    {
        Transport { playing: false, current_step: 0, bpm: 120, swing: 0 }
    }
}

} // verus!
