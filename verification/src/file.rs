//! The `.db64` pattern file format.
//!
//! On-disk layout (current = 149 bytes, v1 = 135 bytes still readable):
//!
//! ```text
//! [0..4)        "DB64"  magic
//! [4]           kit     0=909, 1=808, 2=Rock, 3=SID
//! [5]           tempo   BPM (stored as one byte, read back as at least 40)
//! [6]           swing   0–99
//! [7..23)       name    16 bytes of UTF-8, space-padded
//! [23..135)     steps   7 tracks × 16 steps, each byte = velocity (0–3)
//! [135..142)    volume  7 bytes, 0..=127  (added in v2; defaulted to 100 if absent)
//! [142..149)    pan     7 bytes, signed,  (added in v2; defaulted to 0 if absent)
//! ```
use vstd::prelude::*;
use vstd::utf8::*;
use vstd::string::*;
use vstd::slice::slice_subrange;

use crate::types::{Kit, Pattern, Velocity, NUM_STEPS, NUM_TRACKS};

verus! {

pub const V1_SIZE: usize = 135;

pub const FILE_SIZE: usize = 149;

pub const NAME_OFFSET: usize = 7;

pub const NAME_LEN: usize = 16;

pub const STEPS_OFFSET: usize = 23;

pub const VOL_OFFSET: usize = 135;

pub const PAN_OFFSET: usize = 142;

/// Why a byte buffer is not a pattern.
#[derive(Debug, Clone, Copy, PartialEq, Eq, Structural)]
pub enum LoadError {
    /// Fewer than the 135 bytes of a v1 file.
    TooShort,
    /// The buffer does not start with "DB64".
    NotDb64,
}

impl LoadError {
    /// The message the error is reported with.
    pub fn message(&self) -> (r: &'static str)
        ensures
            r@ == (match self {
                LoadError::TooShort => "file too short"@,
                LoadError::NotDb64 => "not a DB64 file"@,
            }),
    {
        match self {
            LoadError::TooShort => "file too short",
            LoadError::NotDb64 => "not a DB64 file",
        }
    }
}

// ── Text ─────────────────────────────────────────────────────────────────────
/// The characters with the Unicode `White_Space` property, which is what
/// `str::trim_end` strips.
pub open spec fn is_white_space(c: char) -> bool {
    let v = c as u32;
    ||| 0x09 <= v <= 0x0D
    ||| v == 0x20
    ||| v == 0x85
    ||| v == 0xA0
    ||| v == 0x1680
    ||| 0x2000 <= v <= 0x200A
    ||| v == 0x2028
    ||| v == 0x2029
    ||| v == 0x202F
    ||| v == 0x205F
    ||| v == 0x3000
}

/// `s` without its trailing white space.
pub open spec fn trim_end_white_space(s: Seq<char>) -> Seq<char>
    decreases s.len(),
{
    if s.len() > 0 && is_white_space(s.last()) {
        trim_end_white_space(s.drop_last())
    } else {
        s
    }
}

/// The text `String::from_utf8_lossy` makes of `bytes`: the decoded
/// characters, with U+FFFD in place of each ill-formed sequence.
pub uninterp spec fn utf8_lossy(bytes: Seq<u8>) -> Seq<char>;

/// The text a byte sequence reads as: its decoding when it is valid UTF-8,
/// and what `String::from_utf8_lossy` makes of it otherwise.
pub open spec fn utf8_text(bytes: Seq<u8>) -> Seq<char> {
    if valid_utf8(bytes) {
        decode_utf8(bytes)
    } else {
        utf8_lossy(bytes)
    }
}

/// Calls `String::from_utf8_lossy`. Its documentation: the bytes are decoded
/// as UTF-8, and invalid sequences are replaced by U+FFFD; valid UTF-8 is
/// therefore decoded exactly. The result is named `utf8_lossy(bytes)`;
/// how ill-formed input is replaced is not stated beyond that name.
#[verifier::external_body]
fn string_from_utf8_lossy(bytes: &[u8]) -> (s: String)
    ensures
        s@ == utf8_lossy(bytes@),
        valid_utf8(bytes@) ==> s@ == decode_utf8(bytes@),
        s@ == utf8_text(bytes@),
{
    String::from_utf8_lossy(bytes).into_owned()
}

/// Calls `str::trim_end`, which returns the string with trailing white space
/// removed, white space being the Unicode `White_Space` property.
#[verifier::external_body]
fn str_trim_end(s: &str) -> (r: &str)
    ensures
        r@ == trim_end_white_space(s@),
{
    s.trim_end()
}

// ── Encoding ─────────────────────────────────────────────────────────────────
/// The four magic bytes "DB64".
pub open spec fn magic_byte(i: int) -> u8 {
    if i == 0 {
        0x44
    } else if i == 1 {
        0x42
    } else if i == 2 {
        0x36
    } else {
        0x34
    }
}

/// Byte `j` (0..16) of the name field for a name whose UTF-8 encoding is
/// `b`: the encoding, cut at 16 bytes, padded with spaces.
pub open spec fn name_byte(b: Seq<u8>, j: int) -> u8 {
    if j < b.len() {
        b[j]
    } else {
        0x20
    }
}

pub open spec fn min_int(a: int, b: int) -> int {
    if a < b {
        a
    } else {
        b
    }
}

/// Byte `i` (0..149) of the file a pattern is saved as.
pub open spec fn file_byte(p: Pattern, i: int) -> u8 {
    if i < 4 {
        magic_byte(i)
    } else if i == 4 {
        p.kit.code()
    } else if i == 5 {
        min_int(p.tempo as int, 255) as u8
    } else if i == 6 {
        min_int(p.swing as int, 99) as u8
    } else if i < 23 {
        name_byte(encode_utf8(p.name@), i - 7)
    } else if i < 135 {
        p.steps[(i - 23) / 16][(i - 23) % 16].code()
    } else if i < 142 {
        min_int(p.track_volume[i - 135] as int, 127) as u8
    } else {
        p.track_pan[i - 142] as u8
    }
}

/// The bytes a pattern is saved as.
pub open spec fn encode_pattern(p: Pattern) -> Seq<u8> {
    Seq::new(FILE_SIZE as nat, |i: int| file_byte(p, i))
}

// ── Decoding ─────────────────────────────────────────────────────────────────
/// Whether `data` starts with the magic bytes.
pub open spec fn has_magic(data: Seq<u8>) -> bool {
    forall|i: int| 0 <= i < 4 ==> #[trigger] data[i] == magic_byte(i)
}

/// Whether `data` is accepted as a pattern file.
pub open spec fn loadable(data: Seq<u8>) -> bool {
    data.len() >= V1_SIZE && has_magic(data)
}

pub open spec fn decoded_tempo(data: Seq<u8>) -> u16 {
    if data[5] < 40 {
        40
    } else {
        data[5] as u16
    }
}

pub open spec fn decoded_swing(data: Seq<u8>) -> u8 {
    if data[6] < 99 {
        data[6]
    } else {
        99
    }
}

/// The name read from a file: the 16 name bytes read as UTF-8 text,
/// with trailing white space removed.
pub open spec fn decoded_name(data: Seq<u8>) -> Seq<char> {
    trim_end_white_space(utf8_text(data.subrange(7, 23)))
}

pub open spec fn decoded_step(data: Seq<u8>, t: int, s: int) -> Velocity {
    Velocity::from_code(data[23 + 16 * t + s])
}

/// Volume of track `t`: read and held to 127 in a v2 file, 100 in a v1 file.
pub open spec fn decoded_volume(data: Seq<u8>, t: int) -> u8 {
    if data.len() >= FILE_SIZE {
        if data[135 + t] < 127 {
            data[135 + t]
        } else {
            127
        }
    } else {
        100
    }
}

/// Pan of track `t`: the byte read as signed in a v2 file, 0 in a v1 file.
pub open spec fn decoded_pan(data: Seq<u8>, t: int) -> i8 {
    if data.len() >= FILE_SIZE {
        data[142 + t] as i8
    } else {
        0
    }
}

/// Whether `p` is the pattern that loadable bytes `data` decode to.
pub open spec fn decodes_to(data: Seq<u8>, p: Pattern) -> bool {
    &&& p.kit == Kit::from_code(data[4])
    &&& p.tempo == decoded_tempo(data)
    &&& p.swing == decoded_swing(data)
    &&& p.name@ == decoded_name(data)
    &&& forall|t: int, s: int|
        0 <= t < NUM_TRACKS && 0 <= s < NUM_STEPS ==> #[trigger] p.steps[t][s] == decoded_step(
            data,
            t,
            s,
        )
    &&& forall|t: int| 0 <= t < NUM_TRACKS ==> #[trigger] p.track_volume[t] == decoded_volume(data, t)
    &&& forall|t: int| 0 <= t < NUM_TRACKS ==> #[trigger] p.track_pan[t] == decoded_pan(data, t)
}

proof fn lemma_step_index(t: int, s: int)
    requires
        0 <= t < NUM_TRACKS,
        0 <= s < NUM_STEPS,
    ensures
        (16 * t + s) / 16 == t,
        (16 * t + s) % 16 == s,
        23 <= 23 + 16 * t + s < 135,
{
    assert((16 * t + s) / 16 == t && (16 * t + s) % 16 == s) by (nonlinear_arith)
        requires
            0 <= s < 16,
    ;
}

impl Pattern {
    /// The 149 bytes the pattern is saved as.
    pub fn to_bytes(&self) -> (r: Vec<u8>)
        ensures
            r@ == encode_pattern(*self),
    {
        let mut buf: Vec<u8> = Vec::new();
        buf.push(0x44);
        buf.push(0x42);
        buf.push(0x36);
        buf.push(0x34);
        buf.push(self.kit.to_u8());
        buf.push(if self.tempo < 255 { self.tempo as u8 } else { 255 });
        buf.push(if self.swing < 99 { self.swing } else { 99 });
        proof {
            assert forall|j: int| 0 <= j < 7 implies buf@[j] == file_byte(*self, j) by {}
        }
        let name = self.name.as_str().as_bytes();
        let mut j: usize = 0;
        while j < NAME_LEN
            invariant
                j <= NAME_LEN,
                name@ == encode_utf8(self.name@),
                buf@.len() == 7 + j,
                forall|k: int| 0 <= k < buf@.len() ==> #[trigger] buf@[k] == file_byte(*self, k),
            decreases NAME_LEN - j,
        {
            let b = if j < name.len() { name[j] } else { 0x20 };
            buf.push(b);
            j = j + 1;
        }
        let mut t: usize = 0;
        while t < NUM_TRACKS
            invariant
                t <= NUM_TRACKS,
                buf@.len() == 23 + 16 * t,
                forall|k: int| 0 <= k < buf@.len() ==> #[trigger] buf@[k] == file_byte(*self, k),
            decreases NUM_TRACKS - t,
        {
            let mut s: usize = 0;
            while s < NUM_STEPS
                invariant
                    t < NUM_TRACKS,
                    s <= NUM_STEPS,
                    buf@.len() == 23 + 16 * t + s,
                    forall|k: int| 0 <= k < buf@.len() ==> #[trigger] buf@[k] == file_byte(*self, k),
                decreases NUM_STEPS - s,
            {
                proof {
                    lemma_step_index(t as int, s as int);
                }
                buf.push(self.steps[t][s].to_u8());
                s = s + 1;
            }
            t = t + 1;
        }
        let mut t: usize = 0;
        while t < NUM_TRACKS
            invariant
                t <= NUM_TRACKS,
                buf@.len() == 135 + t,
                forall|k: int| 0 <= k < buf@.len() ==> #[trigger] buf@[k] == file_byte(*self, k),
            decreases NUM_TRACKS - t,
        {
            let v = self.track_volume[t];
            buf.push(if v < 127 { v } else { 127 });
            t = t + 1;
        }
        let mut t: usize = 0;
        while t < NUM_TRACKS
            invariant
                t <= NUM_TRACKS,
                buf@.len() == 142 + t,
                forall|k: int| 0 <= k < buf@.len() ==> #[trigger] buf@[k] == file_byte(*self, k),
            decreases NUM_TRACKS - t,
        {
            buf.push(self.track_pan[t] as u8);
            t = t + 1;
        }
        assert(buf@ =~= encode_pattern(*self));
        buf
    }

    /// Reads a pattern from file bytes. Files of at least 135 bytes that start
    /// with "DB64" load; the volume and pan bytes are read only when the file
    /// has all 149 bytes, and default to 100 and 0 otherwise.
    pub fn from_bytes(data: &[u8]) -> (r: Result<Pattern, LoadError>)
        ensures
            data@.len() < V1_SIZE ==> r == Err::<Pattern, LoadError>(LoadError::TooShort),
            data@.len() >= V1_SIZE && !has_magic(data@) ==> r == Err::<Pattern, LoadError>(
                LoadError::NotDb64,
            ),
            loadable(data@) <==> r is Ok,
            r matches Ok(p) ==> decodes_to(data@, p),
    {
        if data.len() < V1_SIZE {
            return Err(LoadError::TooShort);
        }
        if data[0] != 0x44 || data[1] != 0x42 || data[2] != 0x36 || data[3] != 0x34 {
            return Err(LoadError::NotDb64);
        }
        assert(has_magic(data@));
        let kit = Kit::from_u8(data[4]);
        let tempo: u16 = if data[5] < 40 { 40 } else { data[5] as u16 };
        let swing: u8 = if data[6] < 99 { data[6] } else { 99 };
        let raw = slice_subrange(data, 7, 23);
        let text = string_from_utf8_lossy(raw);
        let trimmed = str_trim_end(text.as_str());
        let name = trimmed.to_owned();

        let mut steps = [[Velocity::Off; NUM_STEPS]; NUM_TRACKS];
        let mut t: usize = 0;
        while t < NUM_TRACKS
            invariant
                t <= NUM_TRACKS,
                data@.len() >= V1_SIZE,
                forall|a: int, b: int|
                    0 <= a < t && 0 <= b < NUM_STEPS ==> #[trigger] steps[a][b] == decoded_step(
                        data@,
                        a,
                        b,
                    ),
            decreases NUM_TRACKS - t,
        {
            let mut s: usize = 0;
            while s < NUM_STEPS
                invariant
                    t < NUM_TRACKS,
                    s <= NUM_STEPS,
                    data@.len() >= V1_SIZE,
                    forall|a: int, b: int|
                        0 <= a < t && 0 <= b < NUM_STEPS ==> #[trigger] steps[a][b] == decoded_step(
                            data@,
                            a,
                            b,
                        ),
                    forall|b: int| 0 <= b < s ==> #[trigger] steps[t as int][b] == decoded_step(
                        data@,
                        t as int,
                        b,
                    ),
                decreases NUM_STEPS - s,
            {
                steps[t][s] = Velocity::from_u8(data[STEPS_OFFSET + t * NUM_STEPS + s]);
                s = s + 1;
            }
            t = t + 1;
        }

        let mut track_volume = [100u8; NUM_TRACKS];
        let mut track_pan = [0i8; NUM_TRACKS];
        if data.len() >= FILE_SIZE {
            let mut t: usize = 0;
            while t < NUM_TRACKS
                invariant
                    t <= NUM_TRACKS,
                    data@.len() >= FILE_SIZE,
                    forall|a: int| 0 <= a < t ==> #[trigger] track_volume[a] == decoded_volume(data@, a),
                    forall|a: int| 0 <= a < t ==> #[trigger] track_pan[a] == decoded_pan(data@, a),
                decreases NUM_TRACKS - t,
            {
                let v = data[VOL_OFFSET + t];
                track_volume[t] = if v < 127 { v } else { 127 };
                track_pan[t] = data[PAN_OFFSET + t] as i8;
                t = t + 1;
            }
        }
        let p = Pattern { steps, name, kit, tempo, swing, track_volume, track_pan };
        proof {
            assert(raw@ == data@.subrange(7, 23));
        }
        Ok(p)
    }
}

// ── Laws ─────────────────────────────────────────────────────────────────────
/// `n` space characters.
pub open spec fn spaces(n: nat) -> Seq<char> {
    Seq::new(n, |i: int| ' ')
}

/// Whether a name survives the name field: it fits in 16 bytes of UTF-8 and
/// does not end in white space (which loading strips).
pub open spec fn name_fits(name: Seq<char>) -> bool {
    &&& encode_utf8(name).len() <= NAME_LEN
    &&& (name.len() == 0 || !is_white_space(name.last()))
}

proof fn lemma_encode_utf8_concat(a: Seq<char>, b: Seq<char>)
    ensures
        encode_utf8(a + b) == encode_utf8(a) + encode_utf8(b),
    decreases a.len(),
{
    if a.len() == 0 {
        assert(a + b =~= b);
        assert(encode_utf8(a) + encode_utf8(b) =~= encode_utf8(b));
    } else {
        lemma_encode_utf8_concat(a.drop_first(), b);
        assert((a + b).drop_first() =~= a.drop_first() + b);
        assert((a + b)[0] == a[0]);
        assert(encode_utf8(a + b) =~= encode_scalar(a[0] as u32) + encode_utf8(a.drop_first() + b));
        assert(encode_utf8(a) + encode_utf8(b) =~= encode_scalar(a[0] as u32) + (encode_utf8(
            a.drop_first(),
        ) + encode_utf8(b)));
    }
}

proof fn lemma_encode_spaces(n: nat)
    ensures
        encode_utf8(spaces(n)) =~= Seq::new(n, |i: int| 0x20u8),
{
    let sp = spaces(n);
    assert(is_ascii_chars(sp));
    is_ascii_chars_encode_utf8(sp);
    assert forall|i: int| 0 <= i < n implies encode_utf8(sp)[i] == 0x20u8 by {
        assert(sp[i] == ' ');
        assert((' ' as u8) == 0x20u8);
    }
}

proof fn lemma_trim_spaces(name: Seq<char>, n: nat)
    requires
        name.len() == 0 || !is_white_space(name.last()),
    ensures
        trim_end_white_space(name + spaces(n)) == name,
    decreases n,
{
    if n == 0 {
        assert(name + spaces(0) =~= name);
    } else {
        let s = name + spaces(n);
        assert(s.last() == ' ');
        assert(s.drop_last() =~= name + spaces((n - 1) as nat));
        lemma_trim_spaces(name, (n - 1) as nat);
    }
}

/// A name that fits the field is read back exactly as it was written.
pub proof fn lemma_name_roundtrip(p: Pattern)
    requires
        name_fits(p.name@),
    ensures
        decoded_name(encode_pattern(p)) == p.name@,
{
    let name = p.name@;
    let b = encode_utf8(name);
    let k = (NAME_LEN - b.len()) as nat;
    let field = encode_pattern(p).subrange(7, 23);
    lemma_encode_spaces(k);
    lemma_encode_utf8_concat(name, spaces(k));
    assert(field =~= encode_utf8(name + spaces(k)));
    encode_utf8_valid_utf8(name + spaces(k));
    encode_utf8_decode_utf8(name + spaces(k));
    lemma_trim_spaces(name, k);
}

/// Every saved pattern loads again. What comes back is the pattern with its
/// settings held to what the file stores: tempo at most 255 (and at least
/// 40), swing at most 99, volumes at most 127; kit, steps and pans come back
/// unchanged.
pub proof fn lemma_saved_file_loads(p: Pattern)
    ensures
        encode_pattern(p).len() == FILE_SIZE,
        loadable(encode_pattern(p)),
        Kit::from_code(encode_pattern(p)[4]) == p.kit,
        decoded_tempo(encode_pattern(p)) == (if p.tempo < 40 {
            40
        } else if p.tempo > 255 {
            255
        } else {
            p.tempo
        }),
        decoded_swing(encode_pattern(p)) == (if p.swing < 99 {
            p.swing
        } else {
            99
        }),
        forall|t: int, s: int|
            0 <= t < NUM_TRACKS && 0 <= s < NUM_STEPS ==> #[trigger] decoded_step(
                encode_pattern(p),
                t,
                s,
            ) == p.steps[t][s],
        forall|t: int|
            0 <= t < NUM_TRACKS ==> #[trigger] decoded_volume(encode_pattern(p), t) == (if p.track_volume[t]
                < 127 {
                p.track_volume[t]
            } else {
                127
            }),
        forall|t: int| 0 <= t < NUM_TRACKS ==> #[trigger] decoded_pan(encode_pattern(p), t) == p.track_pan[t],
{
    let d = encode_pattern(p);
    assert(has_magic(d));
    assert forall|t: int, s: int| 0 <= t < NUM_TRACKS && 0 <= s < NUM_STEPS implies #[trigger] decoded_step(
        d,
        t,
        s,
    ) == p.steps[t][s] by {
        lemma_step_index(t, s);
        crate::types::lemma_velocity_code_roundtrip(p.steps[t][s]);
    }
    assert forall|t: int| 0 <= t < NUM_TRACKS implies #[trigger] decoded_pan(d, t) == p.track_pan[t] by {
        let x = p.track_pan[t];
        assert((x as u8) as i8 == x) by (bit_vector);
    }
    crate::types::lemma_kit_code_roundtrip(p.kit);
}

/// Save then load gives back the same pattern, for every pattern whose
/// settings lie in what the file stores (tempo 40..=255, swing at most 99,
/// volumes at most 127) and whose name fits the name field.
pub proof fn lemma_save_load_roundtrip(p: Pattern, q: Pattern)
    requires
        40 <= p.tempo <= 255,
        p.swing <= 99,
        forall|t: int| 0 <= t < NUM_TRACKS ==> #[trigger] p.track_volume[t] <= 127,
        name_fits(p.name@),
        decodes_to(encode_pattern(p), q),
    ensures
        q.kit == p.kit,
        q.tempo == p.tempo,
        q.swing == p.swing,
        q.name@ == p.name@,
        q.steps == p.steps,
        q.track_volume == p.track_volume,
        q.track_pan == p.track_pan,
{
    lemma_saved_file_loads(p);
    lemma_name_roundtrip(p);
    assert(q.steps =~= p.steps) by {
        assert forall|t: int| 0 <= t < NUM_TRACKS implies q.steps[t] =~= p.steps[t] by {
            assert forall|s: int| 0 <= s < NUM_STEPS implies q.steps[t][s] == p.steps[t][s] by {
                assert(decoded_step(encode_pattern(p), t, s) == p.steps[t][s]);
            }
        }
    }
    assert(q.track_volume =~= p.track_volume) by {
        assert forall|t: int| 0 <= t < NUM_TRACKS implies q.track_volume[t] == p.track_volume[t] by {
            assert(decoded_volume(encode_pattern(p), t) == p.track_volume[t]);
        }
    }
    assert(q.track_pan =~= p.track_pan) by {
        assert forall|t: int| 0 <= t < NUM_TRACKS implies q.track_pan[t] == p.track_pan[t] by {
            assert(decoded_pan(encode_pattern(p), t) == p.track_pan[t]);
        }
    }
}

/// Old files stay readable: the first 135 bytes of a loadable file load on
/// their own, with the same kit, tempo, swing, name and steps, and with the
/// default mix (volume 100, pan 0) in place of the missing trailer.
pub proof fn lemma_v1_prefix_loads(data: Seq<u8>)
    requires
        loadable(data),
    ensures
        loadable(data.take(V1_SIZE as int)),
        data.take(V1_SIZE as int)[4] == data[4],
        decoded_tempo(data.take(V1_SIZE as int)) == decoded_tempo(data),
        decoded_swing(data.take(V1_SIZE as int)) == decoded_swing(data),
        decoded_name(data.take(V1_SIZE as int)) == decoded_name(data),
        forall|t: int, s: int|
            0 <= t < NUM_TRACKS && 0 <= s < NUM_STEPS ==> #[trigger] decoded_step(
                data.take(V1_SIZE as int),
                t,
                s,
            ) == decoded_step(data, t, s),
        forall|t: int|
            0 <= t < NUM_TRACKS ==> #[trigger] decoded_volume(data.take(V1_SIZE as int), t) == 100,
        forall|t: int| 0 <= t < NUM_TRACKS ==> #[trigger] decoded_pan(data.take(V1_SIZE as int), t) == 0,
{
    let v1 = data.take(V1_SIZE as int);
    assert(has_magic(v1)) by {
        assert forall|i: int| 0 <= i < 4 implies #[trigger] v1[i] == magic_byte(i) by {
            assert(data[i] == magic_byte(i));
        }
    }
    assert(v1.subrange(7, 23) =~= data.subrange(7, 23));
    assert forall|t: int, s: int| 0 <= t < NUM_TRACKS && 0 <= s < NUM_STEPS implies #[trigger] decoded_step(
        v1,
        t,
        s,
    ) == decoded_step(data, t, s) by {
        lemma_step_index(t, s);
    }
}

} // verus!
