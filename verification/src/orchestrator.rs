//! Orchestration decisions: input validation, audio routing, wall-clock
//! pacing and the monitoring metrics.
//!
//! The orchestrator's threads, channels and signal handling are plumbing
//! and live outside this crate; what is verified here is every decision
//! they carry out — which input is legal, which sinks receive the audio,
//! when a frame is due and when activity is logged.

use vstd::prelude::*;
use crate::resampler::{Sample, SILENCE, TARGET_SAMPLE_RATE, silence_seq};

verus! {

/// Milliseconds of audio per frame.
pub const FRAME_INTERVAL_MS: u64 = 80;

/// Granularity of the 100 ms shutdown-responsive receive poll.
pub const RECV_POLL_MS: u64 = 100;

/// Granularity of the orchestrator's monitoring loop.
pub const MONITOR_POLL_MS: u64 = 500;

/// Interval between activity log lines.
pub const LOG_INTERVAL_MS: u64 = 5000;

/// Silence appended after a decoded file so the tail is flushed: 500 ms.
pub const FLUSH_TAIL_SAMPLES: usize = TARGET_SAMPLE_RATE / 2;

/// The chosen input source.
#[derive(Clone, Copy, Debug, PartialEq, Eq, Structural)]
pub enum InputSelection {
    File,
    Microphone,
}

/// A configuration rejected before anything starts.
#[derive(Clone, Copy, Debug, PartialEq, Eq, Structural)]
pub enum ConfigError {
    /// Both an input file and an input device were given.
    BothInputs,
    /// Neither an input file nor an input device was given.
    NoInput,
}

impl ConfigError {
    /// The message reported for this error.
    pub fn message(&self) -> (r: &'static str)
        ensures
            self is BothInputs ==> r@ == "specify either an input file or an input device, not both"@,
            self is NoInput ==> r@ == "must specify either an input file or an input device"@,
    {
        match self {
            ConfigError::BothInputs => "specify either an input file or an input device, not both",
            ConfigError::NoInput => "must specify either an input file or an input device",
        }
    }
}

/// Exactly one input must be chosen: a file, or a capture device.
pub fn validate_input(has_file: bool, has_device: bool) -> (r: Result<InputSelection, ConfigError>)
    ensures
        has_file && has_device ==> r == Result::<InputSelection, ConfigError>::Err(
            ConfigError::BothInputs,
        ),
        !has_file && !has_device ==> r == Result::<InputSelection, ConfigError>::Err(
            ConfigError::NoInput,
        ),
        has_file && !has_device ==> r == Result::<InputSelection, ConfigError>::Ok(
            InputSelection::File,
        ),
        !has_file && has_device ==> r == Result::<InputSelection, ConfigError>::Ok(
            InputSelection::Microphone,
        ),
{
    if has_file && has_device {
        Err(ConfigError::BothInputs)
    } else if has_file {
        Ok(InputSelection::File)
    } else if has_device {
        Ok(InputSelection::Microphone)
    } else {
        Err(ConfigError::NoInput)
    }
}

/// How generated audio is routed at the tail of the pipeline.
#[derive(Clone, Copy, Debug, PartialEq, Eq, Structural)]
pub enum AudioRouting {
    /// Both sinks: a tee clones each chunk to the speaker and the file.
    TeeBoth,
    /// Speaker only: no tee runs.
    SpeakerOnly,
    /// File only: no tee runs.
    FileOnly,
    /// Neither sink: a drain consumes chunks so the model never blocks.
    DrainOnly,
}

/// The routing for a configuration: tee when both sinks are enabled, the
/// single sink when one is, and a pure drain when neither is.
pub fn routing_of(save_output: bool, speaker_enabled: bool) -> (r: AudioRouting)
    ensures
        save_output && speaker_enabled ==> r == AudioRouting::TeeBoth,
        !save_output && speaker_enabled ==> r == AudioRouting::SpeakerOnly,
        save_output && !speaker_enabled ==> r == AudioRouting::FileOnly,
        !save_output && !speaker_enabled ==> r == AudioRouting::DrainOnly,
{
    if save_output && speaker_enabled {
        AudioRouting::TeeBoth
    } else if speaker_enabled {
        AudioRouting::SpeakerOnly
    } else if save_output {
        AudioRouting::FileOnly
    } else {
        AudioRouting::DrainOnly
    }
}

/// Wall-clock deadline of frame `index`: one frame interval per earlier
/// frame after the start instant.  File input sleeps until this deadline
/// before sending, so offline input paces like live capture.
pub fn frame_deadline_ms(start_ms: u64, index: u64) -> (r: u64)
    requires
        start_ms + FRAME_INTERVAL_MS * index <= u64::MAX,
    ensures
        r == start_ms + FRAME_INTERVAL_MS * index,
{
    start_ms + FRAME_INTERVAL_MS * index
}

/// Append the silence flush-tail to a decoded file's samples.
pub fn append_silence_tail(pcm: &mut Vec<Sample>)
    ensures
        final(pcm)@ == old(pcm)@ + silence_seq(FLUSH_TAIL_SAMPLES as nat),
{
    let mut i: usize = 0;
    while i < FLUSH_TAIL_SAMPLES
        invariant
            i <= FLUSH_TAIL_SAMPLES,
            pcm@ == old(pcm)@ + silence_seq(i as nat),
        decreases FLUSH_TAIL_SAMPLES - i,
    {
        pcm.push(SILENCE);
        assert(pcm@ =~= old(pcm)@ + silence_seq((i + 1) as nat));
        i = i + 1;
    }
}

/// Counters of the monitoring loop and the throttle on its log lines.
pub struct Metrics {
    /// Frames captured from the input source.
    pub frames_captured: u64,
    /// Frames the model has processed.
    pub frames_processed: u64,
    /// Frames the realtime capture callback dropped because the frame
    /// queue was full: counted, never silently discarded.
    pub input_dropped: u64,
    /// When activity was last logged, in milliseconds of a monotonic clock.
    pub last_log_time_ms: u64,
}

impl Metrics {
    /// Fresh metrics; `now_ms` is the current monotonic time.
    pub fn new(now_ms: u64) -> (r: Self)
        ensures
            r.frames_captured == 0,
            r.frames_processed == 0,
            r.input_dropped == 0,
            r.last_log_time_ms == now_ms,
    {
        Metrics {
            frames_captured: 0,
            frames_processed: 0,
            input_dropped: 0,
            last_log_time_ms: now_ms,
        }
    }

    /// Count one frame the capture callback had to drop.
    pub fn record_input_dropped(&mut self)
        requires
            old(self).input_dropped < u64::MAX,
        ensures
            final(self).input_dropped == old(self).input_dropped + 1,
            final(self).frames_captured == old(self).frames_captured,
            final(self).frames_processed == old(self).frames_processed,
            final(self).last_log_time_ms == old(self).last_log_time_ms,
    {
        self.input_dropped = self.input_dropped + 1;
    }

    /// Whether activity should be logged now: true once the log interval
    /// has elapsed, which also restarts the interval.
    pub fn should_log(&mut self, now_ms: u64) -> (r: bool)
        requires
            now_ms >= old(self).last_log_time_ms,
        ensures
            r == (now_ms - old(self).last_log_time_ms >= LOG_INTERVAL_MS),
            r ==> final(self).last_log_time_ms == now_ms,
            !r ==> final(self).last_log_time_ms == old(self).last_log_time_ms,
            final(self).frames_captured == old(self).frames_captured,
            final(self).frames_processed == old(self).frames_processed,
            final(self).input_dropped == old(self).input_dropped,
    {
        if now_ms - self.last_log_time_ms >= LOG_INTERVAL_MS {
            self.last_log_time_ms = now_ms;
            true
        } else {
            false
        }
    }
}

} // verus!
