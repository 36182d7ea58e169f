//! WAV encoding: the canonical RIFF layout of the saved file, the encoder
//! that accumulates converted samples, and the dither noise generator.
//!
//! The saved file is 24 kHz, mono, 16-bit PCM: a 44-byte header followed by
//! each sample as two little-endian bytes.  The byte layout is stated here as
//! a spec function and the encoding itself is done by the `hound` crate over
//! an in-memory cursor, trusted to produce exactly those bytes.  The
//! float-to-integer dither conversion is float arithmetic and runs outside
//! this crate; only its linear-congruential noise generator, which is exact
//! integer arithmetic, lives here.

use vstd::prelude::*;
use crate::resampler::TARGET_SAMPLE_RATE;

verus! {

/// Most samples a single file can hold: the RIFF size fields are 32 bits
/// and count `36 + 2 * n` and `2 * n` bytes.
pub const MAX_WAV_SAMPLES: usize = (0xFFFF_FFFF - 36) / 2;

/// Little-endian bytes of a 16-bit value.
pub open spec fn le16(x: u16) -> Seq<u8> {
    seq![(x % 256) as u8, (x / 256) as u8]
}

/// Little-endian bytes of a 32-bit value.
pub open spec fn le32(x: u32) -> Seq<u8> {
    seq![
        (x % 256) as u8,
        ((x / 256) % 256) as u8,
        ((x / 65536) % 256) as u8,
        ((x / 16777216) % 256) as u8,
    ]
}

/// The 16-bit value read back from two little-endian bytes.
pub open spec fn i16_from_le(b0: u8, b1: u8) -> i16 {
    ((b0 + 256 * b1) as u16) as i16
}

/// The data chunk: each sample as two little-endian bytes, in order.
pub open spec fn sample_data(s: Seq<i16>) -> Seq<u8>
    decreases s.len(),
{
    if s.len() == 0 {
        Seq::empty()
    } else {
        sample_data(s.drop_last()) + le16(s.last() as u16)
    }
}

/// The canonical 44-byte header of a mono, 24 kHz, 16-bit PCM file holding
/// `n` samples: RIFF chunk with the file size, `fmt ` chunk with PCM format
/// code 1, one channel, byte rate 48000 and block align 2, and the `data`
/// chunk header with the data byte count.
pub open spec fn wav_header(n: nat) -> Seq<u8> {
    seq![0x52u8, 0x49u8, 0x46u8, 0x46u8]  // "RIFF"
     + le32((36 + 2 * n) as u32) + seq![0x57u8, 0x41u8, 0x56u8, 0x45u8]  // "WAVE"
     + seq![0x66u8, 0x6du8, 0x74u8, 0x20u8]  // "fmt "
     + le32(16u32) + le16(1u16)  // PCM
     + le16(1u16)  // mono
     + le32(TARGET_SAMPLE_RATE as u32) + le32((2 * TARGET_SAMPLE_RATE) as u32)  // byte rate
     + le16(2u16)  // block align
     + le16(16u16)  // bits per sample
     + seq![0x64u8, 0x61u8, 0x74u8, 0x61u8]  // "data"
     + le32((2 * n) as u32)
}

/// The whole file: header, then the data chunk.
pub open spec fn wav_file_bytes(s: Seq<i16>) -> Seq<u8> {
    wav_header(s.len()) + sample_data(s)
}

/// The data chunk holds two bytes per sample.
pub proof fn lemma_sample_data_len(s: Seq<i16>)
    ensures
        sample_data(s).len() == 2 * s.len(),
    decreases s.len(),
{
    if s.len() > 0 {
        lemma_sample_data_len(s.drop_last());
    }
}

/// The encoded file holds 44 header bytes plus two bytes per sample.
pub proof fn lemma_wav_length(s: Seq<i16>)
    ensures
        wav_file_bytes(s).len() == 44 + 2 * s.len(),
{
    lemma_sample_data_len(s);
}

/// Byte `2 * i` of the data chunk starts the little-endian pair of sample
/// `i`.
proof fn lemma_sample_data_index(s: Seq<i16>, i: int)
    requires
        0 <= i < s.len(),
    ensures
        sample_data(s)[2 * i] == le16(s[i] as u16)[0],
        sample_data(s)[2 * i + 1] == le16(s[i] as u16)[1],
    decreases s.len(),
{
    lemma_sample_data_len(s);
    if i == s.len() - 1 {
        lemma_sample_data_len(s.drop_last());
    } else {
        lemma_sample_data_index(s.drop_last(), i);
        lemma_sample_data_len(s.drop_last());
        assert(s.drop_last()[i] == s[i]);
    }
}

/// Round trip: reading the two bytes written for sample `i` of the encoded
/// file yields that sample back, unchanged.
pub proof fn lemma_wav_sample_roundtrip(s: Seq<i16>, i: int)
    requires
        0 <= i < s.len(),
    ensures
        i16_from_le(wav_file_bytes(s)[44 + 2 * i], wav_file_bytes(s)[45 + 2 * i]) == s[i],
{
    lemma_wav_length(s);
    lemma_sample_data_len(s);
    lemma_sample_data_index(s, i);
    let v: i16 = s[i];
    let x = v as u16;
    assert(wav_file_bytes(s)[44 + 2 * i] == (x % 256) as u8);
    assert(wav_file_bytes(s)[45 + 2 * i] == (x / 256) as u8);
    vstd::arithmetic::div_mod::lemma_fundamental_div_mod(x as int, 256);
    assert(((x % 256) as u8) + 256 * ((x / 256) as u8) == x);
    assert((x as i16) == v) by (bit_vector)
        requires
            x == v as u16,
    ;
}

/// Relies on hound's `WavWriter` (`new`, `write_sample::<i16>` and
/// `finalize`) over an in-memory cursor: for a mono, 24 kHz, 16-bit integer
/// PCM spec it writes the canonical 44-byte RIFF header, then each sample
/// as two little-endian bytes, and patches the two RIFF size fields on
/// finalize.  Success is promised: the 16-bit integer format is supported,
/// writing to and seeking in an in-memory cursor cannot fail, and the
/// sample bound keeps the size fields in range, so no error branch is
/// reachable.
#[verifier::external_body]
fn encode_wav(samples: &Vec<i16>) -> (r: Option<Vec<u8>>)
    requires
        samples@.len() <= MAX_WAV_SAMPLES,
    ensures
        r is Some,
        r matches Some(b) ==> b@ == wav_file_bytes(samples@),
{
    let sample_rate = TARGET_SAMPLE_RATE as u32;
    let format = hound::SampleFormat::Int;
    let spec = hound::WavSpec { channels: 1, sample_rate, bits_per_sample: 16, sample_format: format };
    let mut cursor = std::io::Cursor::new(Vec::new());
    let mut writer = hound::WavWriter::new(&mut cursor, spec).ok()?;
    for s in samples.iter() {
        writer.write_sample(*s).ok()?;
    }
    writer.finalize().ok()?;
    Some(cursor.into_inner())
}

/// Accumulates converted 16-bit samples and encodes the finished file.
pub struct WavEncoder {
    pub samples: Vec<i16>,
}

impl WavEncoder {
    pub open spec fn wf(&self) -> bool {
        self.samples@.len() <= MAX_WAV_SAMPLES
    }

    pub fn new() -> (r: Self)
        ensures
            r.wf(),
            r.samples@.len() == 0,
    {
        WavEncoder { samples: Vec::new() }
    }

    /// Append one chunk of converted samples.
    pub fn push_chunk(&mut self, chunk: &Vec<i16>)
        requires
            old(self).wf(),
            old(self).samples@.len() + chunk@.len() <= MAX_WAV_SAMPLES,
        ensures
            final(self).wf(),
            final(self).samples@ == old(self).samples@ + chunk@,
    {
        let mut i: usize = 0;
        while i < chunk.len()
            invariant
                i <= chunk@.len(),
                self.samples@ == old(self).samples@ + chunk@.take(i as int),
            decreases chunk@.len() - i,
        {
            self.samples.push(chunk[i]);
            assert(chunk@.take(i + 1) == chunk@.take(i as int).push(chunk@[i as int]));
            i = i + 1;
        }
        assert(chunk@.take(chunk@.len() as int) == chunk@);
    }

    /// Samples written so far.
    pub fn sample_count(&self) -> (r: usize)
        ensures
            r == self.samples@.len(),
    {
        self.samples.len()
    }

    /// The finished file: the canonical layout over every accumulated
    /// sample, always produced.
    pub fn finalize(&self) -> (r: Option<Vec<u8>>)
        requires
            self.wf(),
        ensures
            r is Some,
            r matches Some(b) ==> b@ == wav_file_bytes(self.samples@),
    {
        encode_wav(&self.samples)
    }
}

/// Seed of the dither noise generator.
pub const DITHER_SEED: u32 = 0x12345678;

/// Next state of the linear-congruential dither noise generator.
pub open spec fn lcg_spec(state: u32) -> u32 {
    ((state * 1103515245 + 12345) % 0x1_0000_0000) as u32
}

/// Step the dither noise generator: multiplier 1103515245, increment
/// 12345, modulo two to the thirty-second.
pub fn lcg_next(state: u32) -> (r: u32)
    ensures
        r == lcg_spec(state),
{
    let r = state.wrapping_mul(1103515245).wrapping_add(12345);
    proof {
        let m = 0x1_0000_0000int;
        let p = state * 1103515245;
        vstd::arithmetic::div_mod::lemma_add_mod_noop(p, 12345, m);
        vstd::arithmetic::div_mod::lemma_mod_mod(p, 1, m);
        vstd::arithmetic::div_mod::lemma_small_mod(12345nat, 0x1_0000_0000nat);
    }
    r
}

} // verus!
