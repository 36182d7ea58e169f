//! Verified core of a realtime speech-to-speech streaming pipeline.
//!
//! The pipeline captures mono audio, feeds it in fixed 80 ms frames to a
//! frame processor, and routes the generated audio to a speaker ring buffer
//! and/or a WAV file.  This crate holds the logic of that pipeline — the
//! streaming resampler adaptor, the playback ring buffer and its
//! buffering/playing/paused state machine, the latency statistics, the WAV
//! encoding, the device-name matching and the orchestration decisions — with
//! contracts checked by Verus.  Device I/O, the neural frame processor and the
//! float arithmetic at the edges live outside, in the surrounding binary.

pub mod devices;
pub mod model;
pub mod orchestrator;
pub mod playback;
pub mod resampler;
pub mod wav_writer;
