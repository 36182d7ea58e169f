//! Playback ring buffer and the speaker sink state machine.
//!
//! The sink owns a fixed ring of 12 s of samples shared between the producer
//! thread and the realtime output callback, and a three-state machine
//! (buffering / playing / paused) with hysteresis thresholds that decide when
//! the callback drains.  On overflow the ring deliberately drops its oldest
//! samples: freshness is preferred over history.

use vstd::prelude::*;
use crate::resampler::{silence_seq, Sample, SILENCE, TARGET_SAMPLE_RATE};

verus! {

/// Ring capacity: 12 s at the target rate.  One slot is kept free to tell
/// a full ring from an empty one, so at most `RING_BUFFER_SIZE - 1` samples
/// are ever held.
pub const RING_BUFFER_SIZE: usize = TARGET_SAMPLE_RATE * 12;

/// Single-producer/single-consumer ring buffer of playback samples.
pub struct PlaybackBuffer {
    pub buffer: Vec<Sample>,
    pub write_pos: usize,
    pub read_pos: usize,
}

impl PlaybackBuffer {
    pub open spec fn wf(&self) -> bool {
        &&& self.buffer@.len() == RING_BUFFER_SIZE
        &&& self.read_pos < RING_BUFFER_SIZE
        &&& self.write_pos < RING_BUFFER_SIZE
    }

    /// The queued samples, oldest first.
    pub open spec fn contents(&self) -> Seq<Sample> {
        if self.write_pos >= self.read_pos {
            self.buffer@.subrange(self.read_pos as int, self.write_pos as int)
        } else {
            self.buffer@.subrange(self.read_pos as int, RING_BUFFER_SIZE as int)
                + self.buffer@.subrange(0, self.write_pos as int)
        }
    }

    /// The ring never holds more than `RING_BUFFER_SIZE - 1` samples.
    pub proof fn lemma_available_bound(&self)
        requires
            self.wf(),
        ensures
            self.contents().len() <= RING_BUFFER_SIZE - 1,
    {
    }

    pub fn new() -> (r: Self)
        ensures
            r.wf(),
            r.contents().len() == 0,
            r.write_pos == 0,
            r.read_pos == 0,
            r.buffer@ == silence_seq(RING_BUFFER_SIZE as nat),
    {
        let mut buffer: Vec<Sample> = Vec::new();
        let mut i: usize = 0;
        while i < RING_BUFFER_SIZE
            invariant
                i <= RING_BUFFER_SIZE,
                buffer@ == silence_seq(i as nat),
            decreases RING_BUFFER_SIZE - i,
        {
            buffer.push(SILENCE);
            assert(buffer@ =~= silence_seq((i + 1) as nat));
            i = i + 1;
        }
        let r = PlaybackBuffer { buffer, write_pos: 0, read_pos: 0 };
        assert(r.contents() =~= Seq::<Sample>::empty());
        r
    }

    /// Number of queued samples, accounting for wrap-around.
    pub fn available(&self) -> (r: usize)
        requires
            self.wf(),
        ensures
            r == self.contents().len(),
    {
        if self.write_pos >= self.read_pos {
            self.write_pos - self.read_pos
        } else {
            RING_BUFFER_SIZE - self.read_pos + self.write_pos
        }
    }

    /// Read up to `count` samples into `out` (cleared first), oldest first.
    pub fn read(&mut self, count: usize, out: &mut Vec<Sample>)
        requires
            old(self).wf(),
        ensures
            final(self).wf(),
            final(out)@ == old(self).contents().take(
                vstd::math::min(count as int, old(self).contents().len() as int),
            ),
            final(self).contents() == old(self).contents().skip(
                vstd::math::min(count as int, old(self).contents().len() as int),
            ),
    {
        out.clear();
        let avail = self.available();
        let to_read: usize = if count < avail {
            count
        } else {
            avail
        };
        let mut i: usize = 0;
        while i < to_read
            invariant
                i <= to_read,
                to_read <= old(self).contents().len(),
                self.wf(),
                out@ == old(self).contents().take(i as int),
                self.contents() == old(self).contents().skip(i as int),
            decreases to_read - i,
        {
            let ghost pre = *self;
            out.push(self.buffer[self.read_pos]);
            self.read_pos = if self.read_pos + 1 == RING_BUFFER_SIZE {
                0
            } else {
                self.read_pos + 1
            };
            proof {
                lemma_drop_oldest(pre, *self);
                assert(out@ == old(self).contents().take(i + 1));
            }
            i = i + 1;
        }
    }

    /// Append `samples`, dropping the oldest queued samples when there is
    /// not enough free room.  Returns whether that overflow happened; in
    /// that case exactly `samples.len() - free` old samples were dropped,
    /// where `free` was the free room before the call, and every incoming
    /// sample was still accepted.
    pub fn write(&mut self, samples: &Vec<Sample>) -> (overflowed: bool)
        requires
            old(self).wf(),
        ensures
            final(self).wf(),
            overflowed == (samples@.len() > RING_BUFFER_SIZE - 1 - old(self).contents().len()),
            final(self).contents() == (old(self).contents() + samples@).skip(
                dropped_count(old(self).contents().len() as int, samples@.len() as int),
            ),
    {
        let avail = self.available();
        let overflowed = samples.len() > RING_BUFFER_SIZE - 1 - avail;
        let ghost all = old(self).contents() + samples@;
        let mut i: usize = 0;
        while i < samples.len()
            invariant
                i <= samples@.len(),
                all == old(self).contents() + samples@,
                self.wf(),
                self.contents() == (old(self).contents() + samples@.take(i as int)).skip(
                    dropped_count(old(self).contents().len() as int, i as int),
                ),
            decreases samples@.len() - i,
        {
            let ghost d = dropped_count(old(self).contents().len() as int, i as int);
            let ghost q = self.contents();
            let avail_now = self.available();
            if avail_now == RING_BUFFER_SIZE - 1 {
                let ghost pre = *self;
                self.read_pos = if self.read_pos + 1 == RING_BUFFER_SIZE {
                    0
                } else {
                    self.read_pos + 1
                };
                proof {
                    lemma_drop_oldest(pre, *self);
                }
            }
            let ghost q2 = self.contents();
            let ghost pre2 = *self;
            proof {
                pre2.lemma_available_bound();
            }
            self.buffer[self.write_pos] = samples[i];
            let s = self.write_pos;
            self.write_pos = if s + 1 == RING_BUFFER_SIZE {
                0
            } else {
                s + 1
            };
            proof {
                lemma_append_one(pre2, *self, samples@[i as int]);
                assert(samples@.take(i + 1) == samples@.take(i as int).push(samples@[i as int]));
                let d2 = dropped_count(old(self).contents().len() as int, i + 1);
                if q.len() == RING_BUFFER_SIZE - 1 {
                    assert(d2 == d + 1);
                    assert((old(self).contents() + samples@.take(i + 1)).skip(d2) =~= q.skip(
                        1,
                    ).push(samples@[i as int]));
                } else {
                    assert(d2 == d);
                    assert((old(self).contents() + samples@.take(i + 1)).skip(d2) =~= q.push(
                        samples@[i as int],
                    ));
                }
            }
            i = i + 1;
        }
        proof {
            assert(samples@.take(samples@.len() as int) == samples@);
        }
        overflowed
    }
}

/// How many of the oldest queued samples are dropped when `n` samples are
/// written into a ring already holding `held`: the excess over the
/// `RING_BUFFER_SIZE - 1` the ring can hold — equally, `n - free` where
/// `free` is the room that was left.
pub open spec fn dropped_count(held: int, n: int) -> int {
    if held + n > RING_BUFFER_SIZE - 1 {
        held + n - (RING_BUFFER_SIZE - 1)
    } else {
        0
    }
}

/// Advancing the read cursor by one drops the oldest queued sample.
proof fn lemma_drop_oldest(pre: PlaybackBuffer, post: PlaybackBuffer)
    requires
        pre.wf(),
        pre.contents().len() > 0,
        post.buffer@ == pre.buffer@,
        post.write_pos == pre.write_pos,
        post.read_pos == (if pre.read_pos + 1 == RING_BUFFER_SIZE {
            0int
        } else {
            pre.read_pos + 1
        }),
        pre.read_pos < RING_BUFFER_SIZE,
    ensures
        post.wf(),
        post.contents() =~= pre.contents().skip(1),
        pre.contents()[0] == pre.buffer@[pre.read_pos as int],
{
    if pre.write_pos >= pre.read_pos {
        assert(pre.read_pos < pre.write_pos);
        assert(post.contents() =~= pre.contents().skip(1));
    } else {
        if pre.read_pos + 1 == RING_BUFFER_SIZE {
            assert(post.contents() =~= pre.contents().skip(1));
        } else {
            assert(post.contents() =~= pre.contents().skip(1));
        }
    }
}

/// Writing one sample at the write cursor and advancing it appends the
/// sample, provided one free slot beyond the reserved one remains.
proof fn lemma_append_one(pre: PlaybackBuffer, post: PlaybackBuffer, s: Sample)
    requires
        pre.wf(),
        pre.contents().len() < RING_BUFFER_SIZE - 1,
        post.buffer@ == pre.buffer@.update(pre.write_pos as int, s),
        post.read_pos == pre.read_pos,
        post.write_pos == (if pre.write_pos + 1 == RING_BUFFER_SIZE {
            0int
        } else {
            pre.write_pos + 1
        }),
    ensures
        post.wf(),
        post.contents() =~= pre.contents().push(s),
{
    if pre.write_pos >= pre.read_pos {
        if pre.write_pos + 1 == RING_BUFFER_SIZE {
            assert(pre.read_pos >= 1);
            assert(post.contents() =~= pre.contents().push(s));
        } else {
            assert(post.contents() =~= pre.contents().push(s));
        }
    } else {
        assert(pre.write_pos + 1 < pre.read_pos);
        assert(post.contents() =~= pre.contents().push(s));
    }
}

/// Pause draining when the buffer falls below 0.1 s of audio.
pub const PAUSE_THRESHOLD: usize = TARGET_SAMPLE_RATE / 10;

/// Resume draining once the buffer has refilled to 0.25 s; strictly above
/// the pause threshold, so the machine cannot flap at one level.
pub const RESUME_THRESHOLD: usize = TARGET_SAMPLE_RATE / 4;

/// Start playing once the initial fill reaches 0.1 s of audio.
pub const INITIAL_FILL_THRESHOLD: usize = TARGET_SAMPLE_RATE / 10;

/// The resume threshold lies strictly above the pause threshold.
pub proof fn lemma_hysteresis_gap()
    ensures
        RESUME_THRESHOLD > PAUSE_THRESHOLD,
{
}

/// Phase of the playback state machine.
#[derive(Clone, Copy, Debug, PartialEq, Eq, Structural)]
pub enum PlaybackState {
    /// Waiting for the initial fill; the callback emits silence.
    Buffering,
    /// Draining the ring into the output stream.
    Playing,
    /// Underrun: waiting for the buffer to refill before resuming.
    Paused,
}

/// State and start latch after one callback observes `level` queued
/// samples: the initial fill latches the start and begins playing; after
/// that, pause below `PAUSE_THRESHOLD` and resume at `RESUME_THRESHOLD`.
pub open spec fn step_state(state: PlaybackState, has_started: bool, level: int) -> (
    PlaybackState,
    bool,
) {
    if !has_started {
        if level >= INITIAL_FILL_THRESHOLD {
            (PlaybackState::Playing, true)
        } else {
            (PlaybackState::Buffering, false)
        }
    } else {
        if state is Paused && level >= RESUME_THRESHOLD {
            (PlaybackState::Playing, true)
        } else if state is Playing && level < PAUSE_THRESHOLD {
            (PlaybackState::Paused, true)
        } else {
            (state, true)
        }
    }
}

/// Once playback has started, no callback step returns the machine to
/// `Buffering`, and the start latch never clears.
pub proof fn lemma_started_stays_started(state: PlaybackState, has_started: bool, level: int)
    requires
        has_started ==> !(state is Buffering),
    ensures
        has_started ==> !(step_state(state, has_started, level).0 is Buffering),
        has_started ==> step_state(state, has_started, level).1,
{
}

/// Playback sink: the ring buffer, the playback state machine and the
/// underrun/overflow counters.  The surrounding binary shares a sink
/// between the producer thread and the realtime output callback under a
/// mutex and performs the device I/O.
pub struct SpeakerSink {
    pub buffer: PlaybackBuffer,
    pub state: PlaybackState,
    pub has_started: bool,
    pub underruns: u64,
    pub overflows: u64,
}

impl SpeakerSink {
    pub open spec fn wf(&self) -> bool {
        &&& self.buffer.wf()
        &&& self.has_started <==> !(self.state is Buffering)
    }

    pub fn new() -> (r: Self)
        ensures
            r.wf(),
            r.state is Buffering,
            !r.has_started,
            r.underruns == 0,
            r.overflows == 0,
            r.buffer.contents().len() == 0,
    {
        SpeakerSink {
            buffer: PlaybackBuffer::new(),
            state: PlaybackState::Buffering,
            has_started: false,
            underruns: 0,
            overflows: 0,
        }
    }

    /// Producer side: append generated samples to the ring, dropping the
    /// oldest queued samples on overflow and counting the event.
    pub fn push_samples(&mut self, samples: &Vec<Sample>)
        requires
            old(self).wf(),
            old(self).overflows < u64::MAX,
        ensures
            final(self).wf(),
            final(self).buffer.contents() == (old(self).buffer.contents() + samples@).skip(
                dropped_count(old(self).buffer.contents().len() as int, samples@.len() as int),
            ),
            final(self).overflows == old(self).overflows + (if samples@.len() > RING_BUFFER_SIZE - 1
                - old(self).buffer.contents().len() {
                1int
            } else {
                0int
            }),
            final(self).state == old(self).state,
            final(self).has_started == old(self).has_started,
            final(self).underruns == old(self).underruns,
    {
        let overflowed = self.buffer.write(samples);
        if overflowed {
            self.overflows = self.overflows + 1;
        }
    }

    /// Realtime callback side: observe the buffer level, step the state
    /// machine, and when playing drain up to `frames` samples into the
    /// caller's scratch vector (cleared first, so a vector allocated once
    /// at stream creation is reused without allocating in the callback).
    /// When not playing the scratch is left empty and the caller emits
    /// silence.
    pub fn callback_step(&mut self, frames: usize, out: &mut Vec<Sample>)
        requires
            old(self).wf(),
            old(self).underruns < u64::MAX,
        ensures
            final(self).wf(),
            ({
                let level = old(self).buffer.contents().len() as int;
                let next = step_state(old(self).state, old(self).has_started, level);
                &&& final(self).state == next.0
                &&& final(self).has_started == next.1
                &&& final(self).underruns == old(self).underruns + (if old(self).has_started && old(
                    self,
                ).state is Playing && level < PAUSE_THRESHOLD {
                    1int
                } else {
                    0int
                })
                &&& final(self).overflows == old(self).overflows
                &&& (next.0 is Playing ==> final(out)@ == old(self).buffer.contents().take(
                    vstd::math::min(frames as int, level),
                ) && final(self).buffer.contents() == old(self).buffer.contents().skip(
                    vstd::math::min(frames as int, level),
                ))
                &&& (!(next.0 is Playing) ==> final(out)@.len() == 0
                    && final(self).buffer.contents() == old(self).buffer.contents())
            }),
            old(self).has_started ==> final(self).has_started,
            final(self).has_started ==> !(final(self).state is Buffering),
    {
        let level = self.buffer.available();
        if !self.has_started {
            if level >= INITIAL_FILL_THRESHOLD {
                self.has_started = true;
                self.state = PlaybackState::Playing;
            } else {
                out.clear();
                return ;
            }
        } else {
            if self.state == PlaybackState::Paused && level >= RESUME_THRESHOLD {
                self.state = PlaybackState::Playing;
            } else if self.state == PlaybackState::Playing && level < PAUSE_THRESHOLD {
                self.state = PlaybackState::Paused;
                self.underruns = self.underruns + 1;
            }
        }
        if self.state == PlaybackState::Playing {
            self.buffer.read(frames, out);
        } else {
            out.clear();
        }
    }

    /// Current number of queued samples.
    pub fn buffer_level(&self) -> (r: usize)
        requires
            self.wf(),
        ensures
            r == self.buffer.contents().len(),
    {
        self.buffer.available()
    }

    pub fn underrun_count(&self) -> (r: u64)
        ensures
            r == self.underruns,
    {
        self.underruns
    }

    pub fn overflow_count(&self) -> (r: u64)
        ensures
            r == self.overflows,
    {
        self.overflows
    }
}

/// How long to wait, in milliseconds, for `level` queued samples to play
/// out before the stream is torn down: the play-out time plus half a
/// second of margin.
pub fn drain_wait_ms(level: usize) -> (r: u64)
    requires
        level <= RING_BUFFER_SIZE,
    ensures
        r == level * 1000 / (TARGET_SAMPLE_RATE as int) + 500,
{
    (level as u64) * 1000 / (TARGET_SAMPLE_RATE as u64) + 500
}

} // verus!
