//! Streaming resampler adaptor: de-interleaving, block batching and
//! fixed-size frame assembly.
//!
//! The pipeline converts arbitrary input rates to 24 kHz mono and cuts the
//! result into frames of exactly 1920 samples (80 ms).  The numeric kernel
//! that interpolates a full input block is float arithmetic and runs outside
//! this crate; everything around it — collecting interleaved input into
//! per-channel blocks of 1024 samples, accumulating the mono output and
//! emitting exact 1920-sample frames with a zero-padded tail at flush — is
//! verified here.  Samples are carried opaquely as the 32-bit encodings of
//! their float values; this module moves them and never computes on them.

use vstd::prelude::*;

verus! {

/// Output sample rate of the pipeline, in Hz.
pub const TARGET_SAMPLE_RATE: usize = 24000;

/// Samples per emitted frame: 80 ms at 24 kHz.
pub const FRAME_SIZE: usize = 1920;

/// Per-channel input block size expected by the interpolation kernel.
pub const INPUT_BLOCK_SIZE: usize = 1024;

/// A PCM sample, carried as the raw 32-bit encoding of its float value.
pub type Sample = u32;

/// The encoding of the zero (silence) sample.
pub const SILENCE: Sample = 0;

/// One 80 ms mono frame: exactly `FRAME_SIZE` samples.
pub struct AudioFrame {
    pub samples: Vec<Sample>,
}

impl AudioFrame {
    /// A frame is well formed when it holds exactly `FRAME_SIZE` samples.
    pub open spec fn wf(&self) -> bool {
        self.samples@.len() == FRAME_SIZE
    }
}

/// A run of `n` silence samples.
pub open spec fn silence_seq(n: nat) -> Seq<Sample> {
    Seq::new(n, |i: int| SILENCE)
}

/// Channel `c` of an interleaved stream with `channels` channels: the
/// samples at positions `i * channels + c`.  A trailing group shorter than
/// `channels` contributes nothing.
pub open spec fn deinterleaved(s: Seq<Sample>, channels: int, c: int) -> Seq<Sample> {
    Seq::new((s.len() as int / channels) as nat, |i: int| s[i * channels + c])
}

/// Division facts used when cutting a buffer of `x` samples into pieces
/// of `d`: the whole pieces cover `(x / d) * d` samples and the remainder
/// `x % d` is what is left.
proof fn lemma_div_block(x: int, d: int)
    requires
        x >= 0,
        d >= 1,
    ensures
        0 <= (x / d) * d <= x,
        x - (x / d) * d == x % d,
        0 <= x % d < d,
        x % d == 0 ==> (x / d) * d == x,
{
    vstd::arithmetic::div_mod::lemma_fundamental_div_mod(x, d);
    vstd::arithmetic::div_mod::lemma_mod_bound(x, d);
    vstd::arithmetic::mul::lemma_mul_is_commutative(x / d, d);
}

/// Streaming state: the pending interleaved input not yet forming a full
/// block, and the accumulated mono output still short of a full frame.
pub struct StreamingResampler {
    /// Number of interleaved input channels.
    pub channels: usize,
    /// Pending interleaved samples; always whole positions, below one block.
    pub pending: Vec<Sample>,
    /// Mono samples accumulated toward the next frame.
    pub accumulated: Vec<Sample>,
}

impl StreamingResampler {
    pub open spec fn wf(&self) -> bool {
        &&& self.channels >= 1
        &&& self.channels * INPUT_BLOCK_SIZE <= usize::MAX
        &&& self.pending@.len() as int % (self.channels as int) == 0
        &&& self.pending@.len() < self.channels * INPUT_BLOCK_SIZE
        &&& self.accumulated@.len() < FRAME_SIZE
    }

    /// Fresh adaptor for `channels` interleaved input channels.
    pub fn new(channels: usize) -> (r: Self)
        requires
            channels >= 1,
            channels * INPUT_BLOCK_SIZE <= usize::MAX,
        ensures
            r.wf(),
            r.channels == channels,
            r.pending@.len() == 0,
            r.accumulated@.len() == 0,
    {
        proof {
            assert(channels * INPUT_BLOCK_SIZE >= INPUT_BLOCK_SIZE) by (nonlinear_arith)
                requires
                    channels >= 1,
            ;
            vstd::arithmetic::div_mod::lemma_small_mod(0nat, channels as nat);
        }
        StreamingResampler { channels, pending: Vec::new(), accumulated: Vec::new() }
    }

    /// De-interleave input into the pending buffer and return every input
    /// block that became complete, in order.  Each block holds `channels`
    /// rows of exactly `INPUT_BLOCK_SIZE` samples, ready for the
    /// interpolation kernel.  A trailing group of fewer than `channels`
    /// samples (an incomplete interleaved position) is dropped.
    pub fn push_interleaved(&mut self, interleaved: &Vec<Sample>) -> (blocks: Vec<Vec<Vec<Sample>>>)
        requires
            old(self).wf(),
            old(self).pending@.len() + interleaved@.len() <= usize::MAX,
        ensures
            final(self).wf(),
            final(self).channels == old(self).channels,
            final(self).accumulated@ == old(self).accumulated@,
            ({
                let channels = old(self).channels as int;
                let whole = (interleaved@.len() as int / channels) * channels;
                let stream = old(self).pending@ + interleaved@.take(whole);
                let block_len = channels * (INPUT_BLOCK_SIZE as int);
                &&& blocks@.len() == stream.len() as int / block_len
                &&& forall|b: int|
                    0 <= b < blocks@.len() ==> (#[trigger] blocks@[b])@.len() == channels
                &&& forall|b: int, c: int|
                    0 <= b < blocks@.len() && 0 <= c < channels ==> (#[trigger] blocks@[b]@[c])@
                        == deinterleaved(
                        stream.subrange(b * block_len, (b + 1) * block_len),
                        channels,
                        c,
                    )
                &&& final(self).pending@ == stream.skip(blocks@.len() * block_len)
            }),
    {
        let channels = self.channels;
        let positions: usize = interleaved.len() / channels;
        let ghost whole: int = positions as int * channels as int;
        let ghost stream: Seq<Sample> = self.pending@ + interleaved@.take(whole);
        let block_samples: usize = channels * INPUT_BLOCK_SIZE;
        let ghost block_len: int = block_samples as int;

        proof {
            assert(block_samples >= INPUT_BLOCK_SIZE) by (nonlinear_arith)
                requires
                    channels >= 1,
                    block_samples == channels * INPUT_BLOCK_SIZE,
            ;
            lemma_div_block(interleaved@.len() as int, channels as int);
        }
        let limit: usize = positions * channels;
        assert(limit == whole);

        // phase one: append every whole interleaved position
        let mut i: usize = 0;
        while i < limit
            invariant
                i <= limit,
                limit <= interleaved@.len(),
                stream == old(self).pending@ + interleaved@.take(limit as int),
                self.pending@ == old(self).pending@ + interleaved@.take(i as int),
                self.channels == old(self).channels,
                self.accumulated@ == old(self).accumulated@,
                channels == self.channels,
            decreases limit - i,
        {
            self.pending.push(interleaved[i]);
            assert(interleaved@.take(i + 1) == interleaved@.take(i as int).push(
                interleaved@[i as int],
            ));
            i = i + 1;
        }
        assert(self.pending@ == stream);

        // phase two: cut the pending samples into complete blocks
        let total: usize = self.pending.len();
        let n_blocks: usize = total / block_samples;
        proof {
            lemma_div_block(total as int, block_len);
        }
        assert(n_blocks * block_samples <= total);

        let mut blocks: Vec<Vec<Vec<Sample>>> = Vec::new();
        let mut base: usize = 0;
        let mut b: usize = 0;
        while b < n_blocks
            invariant
                b <= n_blocks,
                base == b * block_samples,
                n_blocks * block_samples <= total,
                total == self.pending@.len(),
                self.pending@ == stream,
                block_samples == channels * INPUT_BLOCK_SIZE,
                block_len == block_samples as int,
                channels == self.channels,
                channels >= 1,
                blocks@.len() == b,
                forall|k: int|
                    0 <= k < b ==> (#[trigger] blocks@[k])@.len() == channels,
                forall|k: int, c: int|
                    0 <= k < b && 0 <= c < channels as int ==> (#[trigger] blocks@[k]@[c])@
                        == deinterleaved(
                        stream.subrange(k * block_len, (k + 1) * block_len),
                        channels as int,
                        c,
                    ),
                self.channels == old(self).channels,
                self.accumulated@ == old(self).accumulated@,
            decreases n_blocks - b,
        {
            proof {
                assert((b + 1) * block_samples <= n_blocks * block_samples) by (nonlinear_arith)
                    requires
                        b as int + 1 <= n_blocks as int,
                        block_samples as int >= 0,
                ;
                assert(base + block_samples == (b + 1) * block_samples) by (nonlinear_arith)
                    requires
                        base == b * block_samples,
                ;
            }
            let mut block: Vec<Vec<Sample>> = Vec::new();
            let mut ch: usize = 0;
            while ch < channels
                invariant
                    ch <= channels,
                    base + block_samples <= total,
                    total == self.pending@.len(),
                    self.pending@ == stream,
                    block_samples == channels * INPUT_BLOCK_SIZE,
                    block_len == block_samples as int,
                    channels == self.channels,
                    channels >= 1,
                    block@.len() == ch,
                    forall|k: int|
                        0 <= k < ch ==> (#[trigger] block@[k])@ == deinterleaved(
                            stream.subrange(base as int, base + block_len),
                            channels as int,
                            k,
                        ),
                decreases channels - ch,
            {
                let mut row: Vec<Sample> = Vec::new();
                let mut j: usize = 0;
                while j < INPUT_BLOCK_SIZE
                    invariant
                        j <= INPUT_BLOCK_SIZE,
                        ch < channels,
                        base + block_samples <= total,
                        total == self.pending@.len(),
                        self.pending@ == stream,
                        block_samples == channels * INPUT_BLOCK_SIZE,
                        channels == self.channels,
                        row@.len() == j,
                        forall|k: int|
                            0 <= k < j ==> (#[trigger] row@[k]) == stream[base + k * (
                            channels as int) + ch],
                    decreases INPUT_BLOCK_SIZE - j,
                {
                    proof {
                        assert(j * channels as int + ch < channels as int * (
                        INPUT_BLOCK_SIZE as int)) by (nonlinear_arith)
                            requires
                                0 <= j as int,
                                (j as int) < (INPUT_BLOCK_SIZE as int),
                                0 <= ch as int,
                                (ch as int) < (channels as int),
                        ;
                    }
                    row.push(self.pending[base + j * channels + ch]);
                    j = j + 1;
                }
                proof {
                    let sub = stream.subrange(base as int, base + block_len);
                    let c = channels as int;
                    assert(block_len / c == INPUT_BLOCK_SIZE as int) by {
                        vstd::arithmetic::div_mod::lemma_div_multiples_vanish(
                            INPUT_BLOCK_SIZE as int,
                            c,
                        );
                        vstd::arithmetic::mul::lemma_mul_is_commutative(c, INPUT_BLOCK_SIZE as int);
                    }
                    let dj = deinterleaved(sub, c, ch as int);
                    assert forall|k: int| 0 <= k < (INPUT_BLOCK_SIZE as int) implies dj[k] == row@[k] by {
                        assert(0 <= k * c + (ch as int) && k * c + (ch as int) < block_len)
                            by (nonlinear_arith)
                            requires
                                0 <= k,
                                k < (INPUT_BLOCK_SIZE as int),
                                0 <= ch as int,
                                (ch as int) < c,
                                block_len == c * (INPUT_BLOCK_SIZE as int),
                        ;
                        assert(sub[k * c + ch as int] == stream[base + k * c + ch as int]);
                    }
                    assert(row@ =~= dj);
                }
                block.push(row);
                ch = ch + 1;
            }
            proof {
                let ghost k = b as int;
                assert(base as int == k * block_len);
                assert((k + 1) * block_len == base + block_len) by (nonlinear_arith)
                    requires
                        base as int == k * block_len,
                ;
            }
            blocks.push(block);
            base = base + block_samples;
            b = b + 1;
        }

        // keep the remainder as the new pending buffer
        let mut rest: Vec<Sample> = Vec::new();
        let mut k: usize = base;
        while k < total
            invariant
                base <= k <= total,
                total == self.pending@.len(),
                self.pending@ == stream,
                rest@ == stream.subrange(base as int, k as int),
            decreases total - k,
        {
            rest.push(self.pending[k]);
            assert(rest@ == stream.subrange(base as int, k + 1));
            k = k + 1;
        }
        assert(rest@ == stream.skip(base as int));
        proof {
            lemma_div_block(total as int, block_len);
            // the remainder is shorter than a block and still whole positions
            assert(rest@.len() < block_samples);
            let c = channels as int;
            assert(total as int % c == 0) by {
                vstd::arithmetic::div_mod::lemma_mod_multiples_basic(positions as int, c);
                vstd::arithmetic::div_mod::lemma_add_mod_noop(
                    old(self).pending@.len() as int,
                    whole,
                    c,
                );
                vstd::arithmetic::div_mod::lemma_small_mod(0nat, c as nat);
            }
            assert((n_blocks as int * block_len) % c == 0) by {
                assert(n_blocks as int * block_len == (n_blocks as int * (INPUT_BLOCK_SIZE as int))
                    * c) by (nonlinear_arith)
                    requires
                        block_len == c * (INPUT_BLOCK_SIZE as int),
                ;
                vstd::arithmetic::div_mod::lemma_mod_multiples_basic(
                    n_blocks as int * (INPUT_BLOCK_SIZE as int),
                    c,
                );
            }
            assert(rest@.len() as int % c == 0) by {
                vstd::arithmetic::div_mod::lemma_small_mod(0nat, c as nat);
                vstd::arithmetic::div_mod::lemma_sub_mod_noop(
                    total as int,
                    n_blocks as int * block_len,
                    c,
                );
            }
        }
        self.pending = rest;
        blocks
    }

    /// Hand out the pending partial block for the kernel's partial-mode
    /// path: `None` when nothing is pending, else `channels` rows of equal
    /// length (the pending positions), clearing the pending buffer.
    pub fn take_partial(&mut self) -> (r: Option<Vec<Vec<Sample>>>)
        requires
            old(self).wf(),
        ensures
            final(self).wf(),
            final(self).channels == old(self).channels,
            final(self).accumulated@ == old(self).accumulated@,
            final(self).pending@.len() == 0,
            old(self).pending@.len() == 0 ==> r is None,
            old(self).pending@.len() > 0 ==> (r matches Some(rows) && rows@.len() == old(
                self,
            ).channels && (forall|c: int|
                0 <= c < rows@.len() ==> (#[trigger] rows@[c])@ == deinterleaved(
                    old(self).pending@,
                    old(self).channels as int,
                    c,
                ))),
    {
        if self.pending.len() == 0 {
            return None;
        }
        let channels = self.channels;
        let positions: usize = self.pending.len() / channels;
        proof {
            lemma_div_block(self.pending@.len() as int, channels as int);
            assert(positions as int * channels as int == self.pending@.len());
        }
        let mut rows: Vec<Vec<Sample>> = Vec::new();
        let mut ch: usize = 0;
        while ch < channels
            invariant
                ch <= channels,
                old(self).wf(),
                channels == self.channels,
                self.channels == old(self).channels,
                self.accumulated@ == old(self).accumulated@,
                self.pending@ == old(self).pending@,
                positions as int * channels as int == self.pending@.len(),
                positions as int == self.pending@.len() as int / channels as int,
                rows@.len() == ch,
                forall|k: int|
                    0 <= k < ch ==> (#[trigger] rows@[k])@ == deinterleaved(
                        old(self).pending@,
                        channels as int,
                        k,
                    ),
            decreases channels - ch,
        {
            let mut row: Vec<Sample> = Vec::new();
            let mut i: usize = 0;
            while i < positions
                invariant
                    i <= positions,
                    ch < channels,
                    old(self).wf(),
                    channels == self.channels,
                    self.pending@ == old(self).pending@,
                    positions as int * channels as int == self.pending@.len(),
                    row@.len() == i,
                    forall|k: int|
                        0 <= k < i ==> (#[trigger] row@[k]) == self.pending@[k * (channels as int)
                            + ch],
                decreases positions - i,
            {
                proof {
                    assert(i * channels as int + ch < positions as int * channels as int)
                        by (nonlinear_arith)
                        requires
                            0 <= i as int,
                            (i as int) < (positions as int),
                            0 <= ch as int,
                            (ch as int) < (channels as int),
                    ;
                }
                row.push(self.pending[i * channels + ch]);
                i = i + 1;
            }
            proof {
                assert(row@ =~= deinterleaved(old(self).pending@, channels as int, ch as int));
            }
            rows.push(row);
            ch = ch + 1;
        }
        self.pending.clear();
        proof {
            vstd::arithmetic::div_mod::lemma_small_mod(0nat, channels as nat);
        }
        Some(rows)
    }

    /// Accept a block of mono output samples (already at the target rate)
    /// and emit every complete frame, keeping the remainder.
    pub fn accept_mono(&mut self, mono: &Vec<Sample>) -> (frames: Vec<AudioFrame>)
        requires
            old(self).wf(),
        ensures
            final(self).wf(),
            final(self).channels == old(self).channels,
            final(self).pending@ == old(self).pending@,
            frames@.len() == ((old(self).accumulated@.len() + mono@.len()) as int) / (
            FRAME_SIZE as int),
            forall|i: int|
                0 <= i < frames@.len() ==> (#[trigger] frames@[i]).wf() && frames@[i].samples@ == (
                old(self).accumulated@ + mono@).subrange(
                    i * (FRAME_SIZE as int),
                    (i + 1) * (FRAME_SIZE as int),
                ),
            final(self).accumulated@ == (old(self).accumulated@ + mono@).skip(
                frames@.len() * (FRAME_SIZE as int),
            ),
    {
        let ghost combined: Seq<Sample> = self.accumulated@ + mono@;
        let mut i: usize = 0;
        while i < mono.len()
            invariant
                i <= mono@.len(),
                self.accumulated@ == old(self).accumulated@ + mono@.take(i as int),
                self.channels == old(self).channels,
                self.pending@ == old(self).pending@,
            decreases mono@.len() - i,
        {
            self.accumulated.push(mono[i]);
            i = i + 1;
        }
        assert(self.accumulated@ == combined) by {
            assert(mono@.take(mono@.len() as int) == mono@);
        }

        let total: usize = self.accumulated.len();
        let n_frames: usize = total / FRAME_SIZE;
        proof {
            vstd::arithmetic::div_mod::lemma_fundamental_div_mod(total as int, FRAME_SIZE as int);
        }
        assert(n_frames * FRAME_SIZE <= total);

        let mut frames: Vec<AudioFrame> = Vec::new();
        let mut base: usize = 0;
        let mut f: usize = 0;
        while f < n_frames
            invariant
                f <= n_frames,
                base == f * FRAME_SIZE,
                n_frames * FRAME_SIZE <= total,
                n_frames == total as int / FRAME_SIZE as int,
                total == self.accumulated@.len(),
                self.accumulated@ == combined,
                frames@.len() == f,
                forall|k: int|
                    0 <= k < f ==> (#[trigger] frames@[k]).wf() && frames@[k].samples@
                        == combined.subrange(k * (FRAME_SIZE as int), (k + 1) * (FRAME_SIZE as int)),
                self.channels == old(self).channels,
                self.pending@ == old(self).pending@,
            decreases n_frames - f,
        {
            proof {
                assert((f + 1) * FRAME_SIZE <= n_frames * FRAME_SIZE) by (nonlinear_arith)
                    requires
                        f + 1 <= n_frames,
                        FRAME_SIZE >= 1,
                ;
            }
            let mut fr: Vec<Sample> = Vec::new();
            let mut j: usize = 0;
            while j < FRAME_SIZE
                invariant
                    j <= FRAME_SIZE,
                    base + FRAME_SIZE <= total,
                    total == self.accumulated@.len(),
                    self.accumulated@ == combined,
                    fr@ == combined.subrange(base as int, base + j),
                decreases FRAME_SIZE - j,
            {
                fr.push(self.accumulated[base + j]);
                assert(fr@ == combined.subrange(base as int, base + j + 1));
                j = j + 1;
            }
            frames.push(AudioFrame { samples: fr });
            base = base + FRAME_SIZE;
            f = f + 1;
        }

        let mut rest: Vec<Sample> = Vec::new();
        let mut k: usize = base;
        while k < total
            invariant
                base <= k <= total,
                total == self.accumulated@.len(),
                self.accumulated@ == combined,
                rest@ == combined.subrange(base as int, k as int),
            decreases total - k,
        {
            rest.push(self.accumulated[k]);
            assert(rest@ == combined.subrange(base as int, k + 1));
            k = k + 1;
        }
        assert(rest@ == combined.skip(base as int));
        assert(rest@.len() < FRAME_SIZE) by {
            vstd::arithmetic::div_mod::lemma_fundamental_div_mod(total as int, FRAME_SIZE as int);
        }
        self.accumulated = rest;
        frames
    }

    /// Flush the partial tail: `None` when nothing is pending, else one
    /// final frame padded with silence to full length.
    pub fn flush_tail(&mut self) -> (r: Option<AudioFrame>)
        requires
            old(self).wf(),
        ensures
            final(self).wf(),
            final(self).channels == old(self).channels,
            final(self).pending@ == old(self).pending@,
            final(self).accumulated@.len() == 0,
            old(self).accumulated@.len() == 0 ==> r is None,
            old(self).accumulated@.len() > 0 ==> (r matches Some(fr) && fr.wf() && fr.samples@
                == old(self).accumulated@ + silence_seq(
                (FRAME_SIZE - old(self).accumulated@.len()) as nat,
            )),
    {
        if self.accumulated.len() == 0 {
            return None;
        }
        let ghost pending_tail = self.accumulated@;
        while self.accumulated.len() < FRAME_SIZE
            invariant
                self.channels == old(self).channels,
                self.pending@ == old(self).pending@,
                old(self).wf(),
                pending_tail.len() <= self.accumulated@.len() <= FRAME_SIZE,
                self.accumulated@ == pending_tail + silence_seq(
                    (self.accumulated@.len() - pending_tail.len()) as nat,
                ),
            decreases FRAME_SIZE - self.accumulated@.len(),
        {
            self.accumulated.push(SILENCE);
            assert(self.accumulated@ == pending_tail + silence_seq(
                (self.accumulated@.len() - pending_tail.len()) as nat,
            ));
        }
        let mut out: Vec<Sample> = Vec::new();
        core::mem::swap(&mut out, &mut self.accumulated);
        Some(AudioFrame { samples: out })
    }
}

/// Total samples emitted for `n` mono samples fed from a fresh adaptor:
/// `push` emits `n / FRAME_SIZE` full frames and `flush` pads the tail,
/// so the total is `n` rounded up to a multiple of `FRAME_SIZE`.
pub open spec fn emitted_total(n: nat) -> int {
    (n as int / (FRAME_SIZE as int)) * (FRAME_SIZE as int) + if n as int % (FRAME_SIZE as int)
        == 0 {
        0int
    } else {
        FRAME_SIZE as int
    }
}

/// Feeding `n` mono samples and flushing emits `ceil(n / 1920) * 1920`
/// samples in all: the frames returned by `accept_mono` cover
/// `(n / 1920) * 1920` of them and `flush_tail` emits one padded frame
/// exactly when a tail remains.
pub proof fn lemma_emitted_total_is_ceiling(n: nat)
    ensures
        emitted_total(n) == ((n + (FRAME_SIZE as int) - 1) / (FRAME_SIZE as int)) * (
        FRAME_SIZE as int),
{
    let fs = FRAME_SIZE as int;
    vstd::arithmetic::div_mod::lemma_fundamental_div_mod(n as int, fs);
    if n as int % fs == 0 {
        assert((n as int + fs - 1) / fs == n as int / fs) by {
            vstd::arithmetic::div_mod::lemma_div_multiples_vanish_fancy(n as int / fs, fs - 1, fs);
        }
    } else {
        assert((n as int + fs - 1) / fs == n as int / fs + 1) by {
            vstd::arithmetic::div_mod::lemma_fundamental_div_mod(n as int + fs - 1, fs);
            vstd::arithmetic::div_mod::lemma_div_multiples_vanish_fancy(
                n as int / fs + 1,
                n as int % fs - 1,
                fs,
            );
        }
    }
}

} // verus!
