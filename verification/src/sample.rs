//! WAV samples for SID `$D418` (master-volume) playback.
//!
//! WAV → signed 16-bit samples → mono → (resampled to 8 kHz by the caller)
//! → 4-bit values in 0..=15, ready to stream to the SID master-volume
//! register. WAV decoding is done by `hound`.
use vstd::prelude::*;

verus! {

/// SID samples are typically played at 8 kHz on USBSID-Pico — fits the SID's
/// effective bandwidth and keeps register-write traffic manageable.
pub const TARGET_SAMPLE_RATE: u32 = 8_000;

/// PAL SID cycle delay between consecutive `$D418` writes for ~8 kHz playback:
/// 985_248 / 8_000 ≈ 123.
pub const PAL_CYCLES_PER_SAMPLE: u16 = 123;

/// The audio properties in a WAV header.
#[derive(Debug, Clone, Copy, PartialEq, Eq, Structural)]
pub struct WavFormat {
    pub channels: u16,
    pub sample_rate: u32,
    pub bits_per_sample: u16,
    /// Samples are IEEE floats rather than integers.
    pub is_float: bool,
}

/// Why samples could not be had.
#[derive(Debug, Clone, PartialEq, Eq)]
pub enum SampleError {
    /// The bytes are not a WAV file `hound` reads; the text says why.
    Open(String),
    /// The samples are floats, which are converted by the caller.
    FloatSamples,
    /// Only mono and stereo files are mixed down.
    UnsupportedChannels(u16),
}

/// The header `hound` reads from WAV bytes, if it accepts them.
pub uninterp spec fn wav_header(bytes: Seq<u8>) -> Option<WavFormat>;

/// The integer samples `hound` reads from WAV bytes, interleaved, each
/// `None` where reading it failed.
pub uninterp spec fn wav_int_samples(bytes: Seq<u8>) -> Seq<Option<i32>>;

/// Calls `hound::WavReader::new` on the bytes, reads the header with
/// `spec()` and the samples with `into_samples::<i32>()`. The header is
/// named `wav_header(bytes)` and the samples `wav_int_samples(bytes)`;
/// hound documents that when the samples have more than 32 bits, or are
/// floats, every sample read fails, and that is stated too. The error text
/// is hound's message and is not stated.
#[verifier::external_body]
fn hound_read(bytes: &[u8]) -> (r: Result<(WavFormat, Vec<Option<i32>>), String>)
    ensures
        r is Ok <==> wav_header(bytes@) is Some,
        r matches Ok((f, s)) ==> {
            &&& wav_header(bytes@) == Some(f)
            &&& s@ == wav_int_samples(bytes@)
            &&& (f.bits_per_sample > 32 || f.is_float) ==> forall|i: int|
                0 <= i < s@.len() ==> s@[i] is None
        },
{
    match hound::WavReader::new(std::io::Cursor::new(bytes)) {
        Ok(reader) => {
            let spec = reader.spec();
            let is_float = match spec.sample_format {
                hound::SampleFormat::Float => true,
                hound::SampleFormat::Int => false,
            };
            let format = WavFormat { channels: spec.channels, sample_rate: spec.sample_rate, bits_per_sample: spec.bits_per_sample, is_float };
            Ok((format, reader.into_samples::<i32>().map(|x| x.ok()).collect()))
        },
        Err(e) => Err(e.to_string()),
    }
}

/// `x` held to the range of `i16`.
pub open spec fn clamp_i16(x: int) -> i16 {
    if x < i16::MIN {
        i16::MIN
    } else if x > i16::MAX {
        i16::MAX
    } else {
        x as i16
    }
}

/// Right shift that brings a `bits`-bit sample to 16 bits.
pub open spec fn sample_shift(bits: u16) -> int {
    if bits > 16 {
        bits - 16
    } else {
        0
    }
}

/// A `bits`-bit integer sample as a 16-bit one: shifted right by the extra
/// bits (arithmetic shift) and held to the `i16` range.
pub open spec fn to_i16(s: i32, bits: u16) -> i16 {
    clamp_i16((s >> sample_shift(bits) as i32) as int)
}

/// Converts a `bits_per_sample`-bit integer sample to 16 bits.
pub fn int_sample_to_i16(s: i32, bits_per_sample: u16) -> (r: i16)
    requires
        bits_per_sample <= 47,
    ensures
        r == to_i16(s, bits_per_sample),
{
    let shift: i32 = if bits_per_sample > 16 { bits_per_sample as i32 - 16 } else { 0 };
    let v: i32 = s >> shift;
    if v < -32768 {
        -32768
    } else if v > 32767 {
        32767
    } else {
        v as i16
    }
}

/// The samples that were read, as 16-bit samples, in order.
pub open spec fn read_samples_i16(raw: Seq<Option<i32>>, bits: u16, n: int) -> Seq<i16>
    decreases n,
{
    if n <= 0 {
        Seq::empty()
    } else {
        let prev = read_samples_i16(raw, bits, n - 1);
        match raw[n - 1] {
            Some(s) => prev.push(to_i16(s, bits)),
            None => prev,
        }
    }
}

/// The samples that were read (the `Some` entries), each converted from
/// `bits` bits to 16 bits, in order. Entries whose read failed are skipped.
pub fn samples_to_i16(raw: &Vec<Option<i32>>, bits: u16) -> (r: Vec<i16>)
    requires
        bits <= 47 || forall|j: int| 0 <= j < raw@.len() ==> raw@[j] is None,
    ensures
        r@ == read_samples_i16(raw@, bits, raw@.len() as int),
{
    let mut samples: Vec<i16> = Vec::new();
    let mut i: usize = 0;
    while i < raw.len()
        invariant
            i <= raw@.len(),
            bits <= 47 || forall|j: int| 0 <= j < raw@.len() ==> raw@[j] is None,
            samples@ == read_samples_i16(raw@, bits, i as int),
        decreases raw@.len() - i,
    {
        match raw[i] {
            Some(s) => {
                let v = int_sample_to_i16(s, bits);
                samples.push(v);
            },
            None => {},
        }
        i = i + 1;
    }
    samples
}

/// Integer WAV samples as decoded from a file.
pub struct DecodedWav {
    pub format: WavFormat,
    /// Interleaved 16-bit samples.
    pub samples: Vec<i16>,
}

/// Decodes integer WAV bytes to interleaved 16-bit samples (samples that
/// fail to read are skipped). Float files are reported as `FloatSamples`
/// for the caller to convert.
pub fn decode_wav_int(bytes: &[u8]) -> (r: Result<DecodedWav, SampleError>)
    ensures
        wav_header(bytes@) is None <==> r matches Err(SampleError::Open(_)),
        wav_header(bytes@) matches Some(f) && f.is_float ==> r == Err::<DecodedWav, SampleError>(
            SampleError::FloatSamples,
        ),
        r matches Ok(d) ==> ({
            let raw = wav_int_samples(bytes@);
            &&& wav_header(bytes@) == Some(d.format)
            &&& !d.format.is_float
            &&& d.samples@ == read_samples_i16(raw, d.format.bits_per_sample, raw.len() as int)
        }),
        wav_header(bytes@) matches Some(f) && !f.is_float ==> r is Ok,
{
    let (format, raw) = match hound_read(bytes) {
        Ok(r) => r,
        Err(e) => {
            return Err(SampleError::Open(e));
        },
    };
    if format.is_float {
        return Err(SampleError::FloatSamples);
    }
    let samples = samples_to_i16(&raw, format.bits_per_sample);
    Ok(DecodedWav { format, samples })
}

/// The mean of two samples, rounded toward zero.
pub open spec fn mean2(a: i16, b: i16) -> i16 {
    let s = a + b;
    (if s >= 0 {
        s / 2
    } else {
        -((-s) / 2)
    }) as i16
}

/// Stereo mixed down: frame `i` is the mean of samples `2i` and `2i+1`.
pub open spec fn mono_of_stereo(s: Seq<i16>) -> Seq<i16> {
    Seq::new(s.len() / 2, |i: int| mean2(s[2 * i], s[2 * i + 1]))
}

/// Mixes interleaved samples down to mono: mono passes through, stereo
/// frames are averaged (a trailing half frame is dropped), other channel
/// counts are refused.
pub fn mix_to_mono(samples: Vec<i16>, channels: u16) -> (r: Result<Vec<i16>, SampleError>)
    ensures
        channels == 1 ==> (r matches Ok(v) && v@ == samples@),
        channels == 2 ==> (r matches Ok(v) && v@ == mono_of_stereo(samples@)),
        channels != 1 && channels != 2 ==> r == Err::<Vec<i16>, SampleError>(
            SampleError::UnsupportedChannels(channels),
        ),
{
    if channels == 1 {
        return Ok(samples);
    }
    if channels != 2 {
        return Err(SampleError::UnsupportedChannels(channels));
    }
    let n: usize = samples.len();
    let frames = n / 2;
    let mut out: Vec<i16> = Vec::new();
    let mut i: usize = 0;
    while i < frames
        invariant
            i <= frames,
            n == samples@.len(),
            frames == n / 2,
            out@ == mono_of_stereo(samples@).take(i as int),
        decreases frames - i,
    {
        assert(2 * i + 1 < samples@.len());
        let j: usize = i + i;
        let a = samples[j] as i32;
        let b = samples[j + 1] as i32;
        let s = a + b;
        let m: i32 = if s >= 0 { s / 2 } else { -((-s) / 2) };
        out.push(m as i16);
        assert(out@ =~= mono_of_stereo(samples@).take(i + 1));
        i = i + 1;
    }
    assert(mono_of_stereo(samples@).take(frames as int) =~= mono_of_stereo(samples@));
    Ok(out)
}

/// The 4-bit level of a sample: -32768..=32767 mapped evenly onto 0..=15.
pub open spec fn nibble_of(s: i16) -> u8 {
    ((s + 32768) / 4096) as u8
}

/// Quantizes a sample to 4 bits (0..=15); silence maps to the midpoint 8.
pub fn quantize_nibble(s: i16) -> (r: u8)
    ensures
        r == nibble_of(s),
        r <= 15,
{
    let u: i32 = s as i32 + 32768;
    let r = ((u >> 12) as u8) & 0x0F;
    assert(((u >> 12) as u8) & 0x0F == (u / 4096) as u8) by (bit_vector)
        requires
            0 <= u < 65536,
    ;
    r
}

/// Quantizes every sample to 4 bits, in order.
pub fn quantize_samples(samples: &Vec<i16>) -> (r: Vec<u8>)
    ensures
        r@ == samples@.map_values(|s: i16| nibble_of(s)),
{
    let mut out: Vec<u8> = Vec::new();
    let mut i: usize = 0;
    while i < samples.len()
        invariant
            i <= samples@.len(),
            out@ == samples@.take(i as int).map_values(|s: i16| nibble_of(s)),
        decreases samples@.len() - i,
    {
        out.push(quantize_nibble(samples[i]));
        assert(samples@.take(i + 1) =~= samples@.take(i as int).push(samples@[i as int]));
        assert(out@ =~= samples@.take(i + 1).map_values(|s: i16| nibble_of(s)));
        i = i + 1;
    }
    assert(samples@.take(samples@.len() as int) =~= samples@);
    out
}

/// Quantization keeps the order of levels: a louder sample never gets a
/// lower nibble, the extremes map to 0 and 15, and silence to 8.
pub proof fn lemma_nibble_monotone(a: i16, b: i16)
    ensures
        a <= b ==> nibble_of(a) <= nibble_of(b),
        nibble_of(a) <= 15,
        nibble_of(i16::MIN) == 0,
        nibble_of(i16::MAX) == 15,
        nibble_of(0) == 8,
{
    assert(a <= b ==> (a + 32768) / 4096 <= (b + 32768) / 4096) by (nonlinear_arith);
}

} // verus!
