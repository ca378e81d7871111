use drumbox64::sample::{
    decode_wav_int, samples_to_i16, int_sample_to_i16, mix_to_mono, quantize_nibble, quantize_samples, SampleError,
};

#[test]
fn quantize_silence_to_midpoint() {
    let s: i16 = 0;
    let nibble = quantize_nibble(s);
    assert_eq!(nibble, 8); // mid-range = silence
}

#[test]
fn quantize_extremes() {
    let lo = quantize_nibble(i16::MIN);
    let hi = quantize_nibble(i16::MAX);
    assert_eq!(lo, 0);
    assert_eq!(hi, 15);
}

#[test]
fn quantize_steps_of_4096() {
    assert_eq!(quantize_nibble(-32768 + 4095), 0);
    assert_eq!(quantize_nibble(-32768 + 4096), 1);
    assert_eq!(quantize_samples(&vec![-1, 4096, 32767]), vec![7, 9, 15]);
}

#[test]
fn int_samples_are_narrowed_to_16_bits() {
    assert_eq!(int_sample_to_i16(1234, 16), 1234);
    assert_eq!(int_sample_to_i16(-128, 8), -128);
    assert_eq!(int_sample_to_i16(0x7FFF00, 24), 0x7FFF);
    assert_eq!(int_sample_to_i16(-256, 24), -1);
    assert_eq!(int_sample_to_i16(i32::MIN, 32), i16::MIN);
}

#[test]
fn stereo_is_averaged() {
    let m = mix_to_mono(vec![10, 20, -3, 0, 7], 2).unwrap();
    assert_eq!(m, vec![15, -1]);
    assert_eq!(mix_to_mono(vec![1, 2, 3], 1).unwrap(), vec![1, 2, 3]);
    assert_eq!(mix_to_mono(vec![1, 2, 3], 3), Err(SampleError::UnsupportedChannels(3)));
}

fn wav_bytes(bits: u16, channels: u16, samples: &[i32]) -> Vec<u8> {
    let spec = hound::WavSpec {
        channels,
        sample_rate: 8000,
        bits_per_sample: bits,
        sample_format: hound::SampleFormat::Int,
    };
    let mut cursor = std::io::Cursor::new(Vec::new());
    {
        let mut w = hound::WavWriter::new(&mut cursor, spec).unwrap();
        for &s in samples {
            w.write_sample(s).unwrap();
        }
        w.finalize().unwrap();
    }
    cursor.into_inner()
}

#[test]
fn decodes_16_bit_wav() {
    let bytes = wav_bytes(16, 1, &[0, 1000, -1000, 32767]);
    let d = decode_wav_int(&bytes).unwrap();
    assert_eq!(d.format.channels, 1);
    assert_eq!(d.format.sample_rate, 8000);
    assert_eq!(d.format.bits_per_sample, 16);
    assert!(!d.format.is_float);
    assert_eq!(d.samples, vec![0, 1000, -1000, 32767]);
}

#[test]
fn decodes_24_bit_wav_to_16_bits() {
    let bytes = wav_bytes(24, 2, &[256 * 1000, -256 * 1000]);
    let d = decode_wav_int(&bytes).unwrap();
    assert_eq!(d.format.bits_per_sample, 24);
    assert_eq!(d.samples, vec![1000, -1000]);
    assert_eq!(mix_to_mono(d.samples, d.format.channels).unwrap(), vec![0]);
}

#[test]
fn rejects_non_wav_bytes() {
    let r = decode_wav_int(b"not a wave file at all");
    assert!(matches!(r, Err(SampleError::Open(_))));
}

#[test]
fn read_samples_are_narrowed_and_failures_skipped() {
    let raw = vec![Some(0x123456), None, Some(-0x800000), Some(0x7FFFFF)];
    assert_eq!(samples_to_i16(&raw, 24), vec![0x1234, -0x8000, 0x7FFF]);
    assert_eq!(samples_to_i16(&vec![Some(-5), None], 16), vec![-5]);
    assert_eq!(samples_to_i16(&vec![None, None], 64), Vec::<i16>::new());
}
