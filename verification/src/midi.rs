//! MIDI messages: what the drum machine sends on the GM drum channel, and the
//! transport messages it follows from an external clock.
//!
//! `MidiBackend` turns commands into the raw messages to send, in order; the
//! caller hands each message to its MIDI output connection.
use vstd::prelude::*;

verus! {

/// One step worth of drum hits: (note, velocity, pan -64..=63).
pub type NoteHit = (u8, u8, i8);

/// Commands sent to the MIDI-out side.
#[derive(Debug, Clone)]
pub enum MidiCommand {
    /// One step worth of drum hits: (note, velocity, pan -64..=63).
    Notes(Vec<NoteHit>),
    Start,
    Stop,
    Clock,
}

/// The mathematical value of a command.
pub enum MidiCommandSpec {
    Notes(Seq<NoteHit>),
    Start,
    Stop,
    Clock,
}

impl View for MidiCommand {
    type V = MidiCommandSpec;

    open spec fn view(&self) -> MidiCommandSpec {
        match self {
            MidiCommand::Notes(v) => MidiCommandSpec::Notes(v@),
            MidiCommand::Start => MidiCommandSpec::Start,
            MidiCommand::Stop => MidiCommandSpec::Stop,
            MidiCommand::Clock => MidiCommandSpec::Clock,
        }
    }
}

/// Transport / clock messages received from an external MIDI source.
#[derive(Debug, Clone, Copy, PartialEq, Eq, Structural)]
pub enum MidiInEvent {
    Clock,
    Start,
    Stop,
    Continue,
}

/// The event a received message stands for: the real-time bytes 0xF8
/// (clock), 0xFA (start), 0xFB (continue) and 0xFC (stop) as first byte;
/// anything else is ignored.
pub open spec fn spec_in_event(msg: Seq<u8>) -> Option<MidiInEvent> {
    if msg.len() == 0 {
        None
    } else if msg[0] == 0xF8 {
        Some(MidiInEvent::Clock)
    } else if msg[0] == 0xFA {
        Some(MidiInEvent::Start)
    } else if msg[0] == 0xFB {
        Some(MidiInEvent::Continue)
    } else if msg[0] == 0xFC {
        Some(MidiInEvent::Stop)
    } else {
        None
    }
}

impl MidiInEvent {
    /// The transport event a received message carries, if any.
    pub fn from_message(msg: &[u8]) -> (r: Option<MidiInEvent>)
        ensures
            r == spec_in_event(msg@),
    {
        if msg.len() == 0 {
            return None;
        }
        let byte = msg[0];
        if byte == 0xF8 {
            Some(MidiInEvent::Clock)
        } else if byte == 0xFA {
            Some(MidiInEvent::Start)
        } else if byte == 0xFB {
            Some(MidiInEvent::Continue)
        } else if byte == 0xFC {
            Some(MidiInEvent::Stop)
        } else {
            None
        }
    }
}

/// MIDI channel for GM drums (channel 10 = index 9).
pub const DRUM_CHANNEL: u8 = 9;

pub open spec fn note_on_msg(ch: u8, note: u8, vel: u8) -> Seq<u8> {
    seq![0x90u8 | ch, note, vel]
}

pub open spec fn note_off_msg(ch: u8, note: u8) -> Seq<u8> {
    seq![0x80u8 | ch, note, 0]
}

pub open spec fn cc_msg(ch: u8, controller: u8, value: u8) -> Seq<u8> {
    seq![0xB0u8 | ch, controller, value]
}

/// Pan -64..=63 as the CC10 value 0..=127 (out-of-range pans are held to it).
pub open spec fn pan_cc(pan: i8) -> u8 {
    let x = pan as int + 64;
    if x < 0 {
        0
    } else if x > 127 {
        127
    } else {
        x as u8
    }
}

/// The pan message for `pan`, unless `last` shows it already in effect,
/// and the CC value in effect afterwards.
pub open spec fn pan_update(last: Option<u8>, ch: u8, pan: i8) -> (Seq<Seq<u8>>, Option<u8>) {
    let cc = pan_cc(pan);
    if last == Some(cc) {
        (Seq::empty(), last)
    } else {
        (seq![cc_msg(ch, 10, cc)], Some(cc))
    }
}

/// Messages for the first `n` hits of `notes`, starting with `last` as the
/// pan in effect: for each hit, its pan (if it changes), a note-on and a
/// note-off; and the pan in effect afterwards.
pub open spec fn notes_messages(last: Option<u8>, ch: u8, notes: Seq<NoteHit>, n: int) -> (
    Seq<Seq<u8>>,
    Option<u8>,
)
    decreases n,
{
    if n <= 0 {
        (Seq::empty(), last)
    } else {
        let (msgs, l) = notes_messages(last, ch, notes, n - 1);
        let (pm, l2) = pan_update(l, ch, notes[n - 1].2);
        (msgs + pm + seq![note_on_msg(ch, notes[n - 1].0, notes[n - 1].1), note_off_msg(ch, notes[n - 1].0)], l2)
    }
}

/// The messages a command becomes, and the pan in effect afterwards.
pub open spec fn command_messages(last: Option<u8>, ch: u8, cmd: MidiCommandSpec) -> (
    Seq<Seq<u8>>,
    Option<u8>,
) {
    match cmd {
        MidiCommandSpec::Notes(notes) => notes_messages(last, ch, notes, notes.len() as int),
        MidiCommandSpec::Start => (seq![seq![0xFAu8]], last),
        MidiCommandSpec::Stop => (seq![seq![0xFCu8], cc_msg(ch, 123, 0)], last),
        MidiCommandSpec::Clock => (seq![seq![0xF8u8]], last),
    }
}

/// The bytes of each message in a list of messages.
pub open spec fn messages_view(v: Seq<Vec<u8>>) -> Seq<Seq<u8>> {
    v.map_values(|m: Vec<u8>| m@)
}

/// The MIDI-out encoder: the drum channel and the last pan (CC10) value sent
/// on it, which avoids redundant pan messages.
pub struct MidiBackend {
    pub channel: u8,
    /// Last CC10 (pan) value sent on this channel; avoids redundant CCs.
    pub last_pan_cc: Option<u8>,
}

impl MidiBackend {
    /// A fresh encoder on the GM drum channel that has sent no pan yet.
    pub fn new() -> (r: Self)
        ensures
            r.channel == DRUM_CHANNEL,
            r.last_pan_cc is None,
    {
        MidiBackend { channel: DRUM_CHANNEL, last_pan_cc: None }
    }

    /// The raw messages for a command, in sending order.
    pub fn handle(&mut self, cmd: MidiCommand) -> (msgs: Vec<Vec<u8>>)
        requires
            old(self).channel < 16,
        ensures
            final(self).channel == old(self).channel,
            messages_view(msgs@) == command_messages(old(self).last_pan_cc, old(self).channel, cmd@).0,
            final(self).last_pan_cc == command_messages(
                old(self).last_pan_cc,
                old(self).channel,
                cmd@,
            ).1,
    {
        let mut out: Vec<Vec<u8>> = Vec::new();
        match cmd {
            MidiCommand::Notes(notes) => {
                let mut i: usize = 0;
                while i < notes.len()
                    invariant
                        i <= notes@.len(),
                        self.channel == old(self).channel,
                        (messages_view(out@), self.last_pan_cc) == notes_messages(
                            old(self).last_pan_cc,
                            self.channel,
                            notes@,
                            i as int,
                        ),
                    decreases notes@.len() - i,
                {
                    let (note, vel, pan) = notes[i];
                    let ghost before = messages_view(out@);
                    if let Some(m) = self.set_pan(pan) {
                        out.push(m);
                    }
                    out.push(self.note_on(note, vel));
                    out.push(self.note_off(note));
                    proof {
                        let (pm, l2) = pan_update(
                            notes_messages(old(self).last_pan_cc, self.channel, notes@, i as int).1,
                            self.channel,
                            pan,
                        );
                        assert(messages_view(out@) =~= before + pm + seq![
                            note_on_msg(self.channel, note, vel),
                            note_off_msg(self.channel, note),
                        ]);
                    }
                    i = i + 1;
                }
            },
            MidiCommand::Start => {
                out.push(self.send_start());
                assert(messages_view(out@) =~= seq![seq![0xFAu8]]);
            },
            MidiCommand::Stop => {
                out.push(self.send_stop());
                out.push(self.all_notes_off());
                assert(messages_view(out@) =~= seq![seq![0xFCu8], cc_msg(self.channel, 123, 0)]);
            },
            MidiCommand::Clock => {
                out.push(self.send_clock());
                assert(messages_view(out@) =~= seq![seq![0xF8u8]]);
            },
        }
        out
    }

    /// Note-on on the drum channel.
    pub fn note_on(&self, note: u8, vel: u8) -> (m: Vec<u8>)
        ensures
            m@ == note_on_msg(self.channel, note, vel),
    {
        vec![0x90 | self.channel, note, vel]
    }

    /// Note-off on the drum channel.
    pub fn note_off(&self, note: u8) -> (m: Vec<u8>)
        ensures
            m@ == note_off_msg(self.channel, note),
    {
        vec![0x80 | self.channel, note, 0]
    }

    /// CC10 (Pan) on the drum channel for pan -64..=63 → 0..=127, or nothing
    /// when that value is already in effect.
    pub fn set_pan(&mut self, pan: i8) -> (m: Option<Vec<u8>>)
        ensures
            final(self).channel == old(self).channel,
            final(self).last_pan_cc == pan_update(old(self).last_pan_cc, old(self).channel, pan).1,
            pan_update(old(self).last_pan_cc, old(self).channel, pan).0.len() == 0 ==> m is None,
            pan_update(old(self).last_pan_cc, old(self).channel, pan).0.len() == 1 ==> (m matches Some(
                v,
            ) && v@ == pan_update(old(self).last_pan_cc, old(self).channel, pan).0[0]),
    {
        let x: i16 = pan as i16 + 64;
        let cc: u8 = if x < 0 {
            0
        } else if x > 127 {
            127
        } else {
            x as u8
        };
        if let Some(last) = self.last_pan_cc {
            if last == cc {
                return None;
            }
        }
        self.last_pan_cc = Some(cc);
        Some(vec![0xB0 | self.channel, 10, cc])
    }

    /// CC123 (All Notes Off) on the drum channel.
    pub fn all_notes_off(&self) -> (m: Vec<u8>)
        ensures
            m@ == cc_msg(self.channel, 123, 0),
    {
        vec![0xB0 | self.channel, 123, 0]
    }

    /// MIDI Start (0xFA).
    pub fn send_start(&self) -> (m: Vec<u8>)
        ensures
            m@ == seq![0xFAu8],
    {
        vec![0xFA]
    }

    /// MIDI Stop (0xFC).
    pub fn send_stop(&self) -> (m: Vec<u8>)
        ensures
            m@ == seq![0xFCu8],
    {
        vec![0xFC]
    }

    /// MIDI timing clock (0xF8).
    pub fn send_clock(&self) -> (m: Vec<u8>)
        ensures
            m@ == seq![0xF8u8],
    {
        vec![0xF8]
    }
}

// ── Laws ─────────────────────────────────────────────────────────────────────
/// Pans in -64..=63 map one to one onto the CC values 0..=127, and every pan
/// gives a valid CC value.
pub proof fn lemma_pan_cc_range(p: i8, q: i8)
    ensures
        pan_cc(p) <= 127,
        -64 <= p <= 63 ==> pan_cc(p) == p + 64,
        -64 <= p <= 63 && -64 <= q <= 63 && pan_cc(p) == pan_cc(q) ==> p == q,
{
}

/// Skipping repeated pan messages never changes the pan a note is played
/// with: after the messages for hit `i`, the pan in effect is that hit's pan.
/// Every hit gives two or three messages, the last two its note-on and
/// note-off.
pub proof fn lemma_notes_messages(last: Option<u8>, ch: u8, notes: Seq<NoteHit>, n: int)
    requires
        0 <= n <= notes.len(),
    ensures
        n > 0 ==> notes_messages(last, ch, notes, n).1 == Some(pan_cc(notes[n - 1].2)),
        2 * n <= notes_messages(last, ch, notes, n).0.len() <= 3 * n,
        n > 0 ==> ({
            let m = notes_messages(last, ch, notes, n).0;
            &&& m[m.len() - 2] == note_on_msg(ch, notes[n - 1].0, notes[n - 1].1)
            &&& m[m.len() - 1] == note_off_msg(ch, notes[n - 1].0)
        }),
    decreases n,
{
    if n > 0 {
        lemma_notes_messages(last, ch, notes, n - 1);
    }
}

/// The transport messages the drum machine sends are read back as the same
/// transport events by a machine that follows its clock.
pub proof fn lemma_transport_messages_roundtrip(last: Option<u8>, ch: u8)
    ensures
        spec_in_event(command_messages(last, ch, MidiCommandSpec::Start).0[0]) == Some(
            MidiInEvent::Start,
        ),
        spec_in_event(command_messages(last, ch, MidiCommandSpec::Stop).0[0]) == Some(
            MidiInEvent::Stop,
        ),
        spec_in_event(command_messages(last, ch, MidiCommandSpec::Clock).0[0]) == Some(
            MidiInEvent::Clock,
        ),
{
}

} // verus!
