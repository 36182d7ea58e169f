use hibiki_stream::wav_writer::{lcg_next, WavEncoder, DITHER_SEED, MAX_WAV_SAMPLES};
use std::io::Cursor;

#[test]
fn header_bytes_are_the_canonical_riff_layout() {
    let mut enc = WavEncoder::new();
    enc.push_chunk(&vec![0i16, 1, -1]);
    let bytes = enc.finalize().expect("in-memory encoding succeeds");
    assert_eq!(bytes.len(), 44 + 2 * 3);
    // RIFF chunk with file size 36 + 2 * 3
    assert_eq!(&bytes[0..4], b"RIFF");
    assert_eq!(&bytes[4..8], &42u32.to_le_bytes());
    assert_eq!(&bytes[8..12], b"WAVE");
    // fmt chunk: PCM, mono, 24 kHz, byte rate 48000, block align 2, 16 bit
    assert_eq!(&bytes[12..16], b"fmt ");
    assert_eq!(&bytes[16..20], &16u32.to_le_bytes());
    assert_eq!(&bytes[20..22], &1u16.to_le_bytes());
    assert_eq!(&bytes[22..24], &1u16.to_le_bytes());
    assert_eq!(&bytes[24..28], &24000u32.to_le_bytes());
    assert_eq!(&bytes[28..32], &48000u32.to_le_bytes());
    assert_eq!(&bytes[32..34], &2u16.to_le_bytes());
    assert_eq!(&bytes[34..36], &16u16.to_le_bytes());
    // data chunk with 6 bytes of little-endian samples
    assert_eq!(&bytes[36..40], b"data");
    assert_eq!(&bytes[40..44], &6u32.to_le_bytes());
    assert_eq!(&bytes[44..46], &0i16.to_le_bytes());
    assert_eq!(&bytes[46..48], &1i16.to_le_bytes());
    assert_eq!(&bytes[48..50], &(-1i16).to_le_bytes());
}

#[test]
fn test_wav_validation() {
    // encode half a second of a square wave and read it back
    let samples: Vec<i16> = (0..12000).map(|i| if i % 2 == 0 { 8000 } else { -8000 }).collect();
    let mut enc = WavEncoder::new();
    enc.push_chunk(&samples);
    assert_eq!(enc.sample_count(), 12000);
    let bytes = enc.finalize().expect("in-memory encoding succeeds");
    assert!(!bytes.is_empty(), "WAV file should not be empty");

    let mut reader = hound::WavReader::new(Cursor::new(bytes)).expect(
        "Could not open WAV file for validation",
    );
    let spec = reader.spec();
    assert_eq!(spec.channels, 1, "Expected mono audio");
    assert_eq!(spec.sample_rate, 24000, "Expected 24kHz sample rate");
    assert_eq!(spec.bits_per_sample, 16, "Expected 16-bit samples");
    assert_eq!(spec.sample_format, hound::SampleFormat::Int, "Expected Int sample format");
    let read_back: Vec<i16> = reader.samples::<i16>().map(|s| s.unwrap()).collect();
    assert_eq!(read_back.len(), samples.len());
    assert_eq!(read_back, samples);
}

#[test]
fn writing_s_samples_reads_back_s_samples() {
    for n in [0usize, 1, 2, 777] {
        let samples: Vec<i16> = (0..n).map(|i| (i as i32 - 400) as i16).collect();
        let mut enc = WavEncoder::new();
        enc.push_chunk(&samples);
        let bytes = enc.finalize().expect("in-memory encoding succeeds");
        let mut reader = hound::WavReader::new(Cursor::new(bytes)).unwrap();
        assert_eq!(reader.len() as usize, n);
        let read_back: Vec<i16> = reader.samples::<i16>().map(|s| s.unwrap()).collect();
        assert_eq!(read_back, samples);
    }
}

#[test]
fn encoding_always_produces_a_file() {
    // the encoder promises success: even an empty record encodes to the
    // 44-byte header alone
    let enc = WavEncoder::new();
    let bytes = enc.finalize();
    assert!(bytes.is_some());
    assert_eq!(bytes.unwrap().len(), 44);
}

#[test]
fn chunks_accumulate_in_order() {
    let mut enc = WavEncoder::new();
    enc.push_chunk(&vec![1, 2]);
    enc.push_chunk(&vec![3]);
    enc.push_chunk(&Vec::new());
    enc.push_chunk(&vec![4, 5]);
    assert_eq!(enc.sample_count(), 5);
    let bytes = enc.finalize().unwrap();
    let mut reader = hound::WavReader::new(Cursor::new(bytes)).unwrap();
    let read_back: Vec<i16> = reader.samples::<i16>().map(|s| s.unwrap()).collect();
    assert_eq!(read_back, vec![1, 2, 3, 4, 5]);
}

#[test]
fn dither_generator_follows_the_lcg() {
    assert_eq!(DITHER_SEED, 0x12345678);
    let mut state = DITHER_SEED;
    let mut expected = DITHER_SEED as u64;
    for _ in 0..100 {
        state = lcg_next(state);
        expected = (expected.wrapping_mul(1103515245).wrapping_add(12345)) % (1u64 << 32);
        assert_eq!(state as u64, expected);
    }
    assert_eq!(lcg_next(0x12345678), 191992145);
}

#[test]
fn sample_limit_fits_the_riff_size_fields() {
    assert_eq!(MAX_WAV_SAMPLES as u64, (u32::MAX as u64 - 36) / 2);
}
