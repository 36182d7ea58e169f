use hibiki_stream::orchestrator::{
    append_silence_tail, frame_deadline_ms, routing_of, validate_input, AudioRouting, ConfigError,
    InputSelection, Metrics, FLUSH_TAIL_SAMPLES, FRAME_INTERVAL_MS, LOG_INTERVAL_MS,
};
use hibiki_stream::resampler::SILENCE;

#[test]
fn exactly_one_input_must_be_chosen() {
    assert_eq!(validate_input(true, false), Ok(InputSelection::File));
    assert_eq!(validate_input(false, true), Ok(InputSelection::Microphone));
    assert_eq!(validate_input(true, true), Err(ConfigError::BothInputs));
    assert_eq!(validate_input(false, false), Err(ConfigError::NoInput));
}

#[test]
fn config_errors_have_messages() {
    assert!(ConfigError::BothInputs.message().contains("not both"));
    assert!(ConfigError::NoInput.message().contains("must specify"));
}

#[test]
fn routing_covers_all_four_configurations() {
    assert_eq!(routing_of(true, true), AudioRouting::TeeBoth);
    assert_eq!(routing_of(false, true), AudioRouting::SpeakerOnly);
    assert_eq!(routing_of(true, false), AudioRouting::FileOnly);
    assert_eq!(routing_of(false, false), AudioRouting::DrainOnly);
}

#[test]
fn frame_deadlines_step_by_80_ms() {
    assert_eq!(FRAME_INTERVAL_MS, 80);
    assert_eq!(frame_deadline_ms(1000, 0), 1000);
    assert_eq!(frame_deadline_ms(1000, 1), 1080);
    assert_eq!(frame_deadline_ms(1000, 125), 11000);
}

#[test]
fn file_tail_gets_half_a_second_of_silence() {
    assert_eq!(FLUSH_TAIL_SAMPLES, 12000);
    let mut pcm: Vec<u32> = vec![9, 8, 7];
    append_silence_tail(&mut pcm);
    assert_eq!(pcm.len(), 3 + 12000);
    assert_eq!(pcm[2], 7);
    assert!(pcm[3..].iter().all(|&s| s == SILENCE));
}

#[test]
fn activity_is_logged_every_five_seconds() {
    assert_eq!(LOG_INTERVAL_MS, 5000);
    let mut m = Metrics::new(1000);
    assert!(!m.should_log(1000));
    assert!(!m.should_log(5999));
    assert!(m.should_log(6000));
    // the interval restarts at the logged instant
    assert!(!m.should_log(10_999));
    assert!(m.should_log(11_000));
    assert_eq!(m.frames_captured, 0);
    assert_eq!(m.frames_processed, 0);
}

#[test]
fn dropped_capture_frames_are_counted() {
    let mut m = Metrics::new(0);
    assert_eq!(m.input_dropped, 0);
    m.record_input_dropped();
    m.record_input_dropped();
    assert_eq!(m.input_dropped, 2);
    assert_eq!(m.frames_captured, 0);
    assert!(!m.should_log(100));
    assert_eq!(m.input_dropped, 2);
}
