use hibiki_stream::model::{
    driver_step, sort_u32, DriverAction, ModelDriver, ModelEvent,
};

#[test]
fn stats_are_zero_for_zero_frames() {
    let d = ModelDriver::new();
    let st = d.get_stats();
    assert_eq!(st.frames_processed, 0);
    assert_eq!(st.avg_time_us, 0);
    assert_eq!(st.p95_time_us, 0);
}

#[test]
fn stats_mean_and_p95_are_exact() {
    let mut d = ModelDriver::new();
    for t in [30u32, 10, 20] {
        d.record_frame_time(t);
    }
    let st = d.get_stats();
    assert_eq!(st.frames_processed, 3);
    // mean = 60 / 3; p95 index = floor(0.95 * 3) = 2 of [10, 20, 30]
    assert_eq!(st.avg_time_us, 20);
    assert_eq!(st.p95_time_us, 30);
}

#[test]
fn p95_catches_the_outlier_in_twenty_frames() {
    let mut d = ModelDriver::new();
    for _ in 0..19 {
        d.record_frame_time(100);
    }
    d.record_frame_time(9000);
    let st = d.get_stats();
    // p95 index = floor(0.95 * 20) = 19: the outlier itself
    assert_eq!(st.p95_time_us, 9000);
    assert_eq!(st.avg_time_us, (19 * 100 + 9000) / 20);
}

#[test]
fn sorting_is_ascending_and_keeps_every_entry() {
    let mut v = vec![5u32, 3, 9, 3, 1];
    sort_u32(&mut v);
    assert_eq!(v, vec![1, 3, 3, 5, 9]);
    let mut empty: Vec<u32> = Vec::new();
    sort_u32(&mut empty);
    assert!(empty.is_empty());
}

#[test]
fn processed_frame_forwards_nonempty_audio_and_text() {
    let a = driver_step(&ModelEvent::Processed { audio_len: 480, has_text: true });
    assert_eq!(
        a,
        DriverAction { send_audio: true, send_text: true, set_shutdown: false, stop: false }
    );
    let b = driver_step(&ModelEvent::Processed { audio_len: 0, has_text: false });
    assert_eq!(
        b,
        DriverAction { send_audio: false, send_text: false, set_shutdown: false, stop: false }
    );
}

#[test]
fn processor_failure_sets_shutdown_and_stops() {
    let a = driver_step(&ModelEvent::ProcessorFailed);
    assert!(a.set_shutdown);
    assert!(a.stop);
    assert!(!a.send_audio);
    assert!(!a.send_text);
}

#[test]
fn timeout_keeps_polling_until_shutdown() {
    let a = driver_step(&ModelEvent::TimedOut { shutdown: false });
    assert!(!a.stop);
    assert!(!a.set_shutdown);
    let b = driver_step(&ModelEvent::TimedOut { shutdown: true });
    assert!(b.stop);
    assert!(!b.set_shutdown);
}

#[test]
fn closed_input_is_a_soft_shutdown() {
    let a = driver_step(&ModelEvent::InputClosed);
    assert!(a.set_shutdown);
    assert!(a.stop);
}
