use hibiki_stream::resampler::{
    AudioFrame, StreamingResampler, FRAME_SIZE, INPUT_BLOCK_SIZE, SILENCE, TARGET_SAMPLE_RATE,
};

fn bits(x: f32) -> u32 {
    x.to_bits()
}

#[test]
fn constants_match_the_format() {
    assert_eq!(TARGET_SAMPLE_RATE, 24000);
    assert_eq!(FRAME_SIZE, 1920);
    assert_eq!(INPUT_BLOCK_SIZE, 1024);
    // the silence sample is the encoding of float zero
    assert_eq!(SILENCE, 0.0f32.to_bits());
}

#[test]
fn every_emitted_frame_has_exactly_1920_samples() {
    let mut rs = StreamingResampler::new(1);
    let mono: Vec<u32> = (0..5000u32).map(|i| bits(i as f32)).collect();
    let frames: Vec<AudioFrame> = rs.accept_mono(&mono);
    assert_eq!(frames.len(), 2);
    for f in &frames {
        assert_eq!(f.samples.len(), FRAME_SIZE);
    }
    let tail = rs.flush_tail().expect("pending tail");
    assert_eq!(tail.samples.len(), FRAME_SIZE);
}

#[test]
fn total_output_is_input_rounded_up_to_full_frames() {
    // 5000 mono samples -> ceil(5000 / 1920) * 1920 = 5760 samples out
    let mut rs = StreamingResampler::new(1);
    let mono: Vec<u32> = vec![bits(0.25); 5000];
    let frames = rs.accept_mono(&mono);
    let mut total = frames.len() * FRAME_SIZE;
    if let Some(f) = rs.flush_tail() {
        total += f.samples.len();
    }
    assert_eq!(total, 5760);
    assert_eq!(total, (5000 + FRAME_SIZE - 1) / FRAME_SIZE * FRAME_SIZE);
}

#[test]
fn frame_contents_are_in_order_and_tail_is_zero_padded() {
    let mut rs = StreamingResampler::new(1);
    let mono: Vec<u32> = (0..2000u32).collect();
    let frames = rs.accept_mono(&mono);
    assert_eq!(frames.len(), 1);
    for i in 0..FRAME_SIZE {
        assert_eq!(frames[0].samples[i], i as u32);
    }
    let tail = rs.flush_tail().expect("pending tail");
    for i in 0..80 {
        assert_eq!(tail.samples[i], (FRAME_SIZE + i) as u32);
    }
    for i in 80..FRAME_SIZE {
        assert_eq!(tail.samples[i], SILENCE);
    }
}

#[test]
fn flush_on_fresh_resampler_returns_none() {
    let mut rs = StreamingResampler::new(2);
    assert!(rs.flush_tail().is_none());
    assert!(rs.take_partial().is_none());
}

#[test]
fn stereo_input_is_deinterleaved_into_full_blocks() {
    let mut rs = StreamingResampler::new(2);
    // 1500 interleaved positions: one full block of 1024, 476 pending
    let interleaved: Vec<u32> = (0..3000u32).collect();
    let blocks = rs.push_interleaved(&interleaved);
    assert_eq!(blocks.len(), 1);
    assert_eq!(blocks[0].len(), 2);
    assert_eq!(blocks[0][0].len(), INPUT_BLOCK_SIZE);
    assert_eq!(blocks[0][1].len(), INPUT_BLOCK_SIZE);
    for i in 0..INPUT_BLOCK_SIZE {
        assert_eq!(blocks[0][0][i], (2 * i) as u32);
        assert_eq!(blocks[0][1][i], (2 * i + 1) as u32);
    }
    // the rest waits as a partial block of 476 positions
    let rows = rs.take_partial().expect("pending partial block");
    assert_eq!(rows.len(), 2);
    assert_eq!(rows[0].len(), 476);
    assert_eq!(rows[0][0], 2048);
    assert_eq!(rows[1][0], 2049);
}

#[test]
fn incomplete_interleaved_position_is_dropped() {
    let mut rs = StreamingResampler::new(2);
    // 5 samples for 2 channels: only 2 whole positions
    let interleaved: Vec<u32> = vec![1, 2, 3, 4, 5];
    let blocks = rs.push_interleaved(&interleaved);
    assert!(blocks.is_empty());
    let rows = rs.take_partial().expect("pending partial block");
    assert_eq!(rows[0], vec![1, 3]);
    assert_eq!(rows[1], vec![2, 4]);
}

#[test]
fn mono_block_boundary_is_exact() {
    let mut rs = StreamingResampler::new(1);
    let interleaved: Vec<u32> = (0..1024u32).collect();
    let blocks = rs.push_interleaved(&interleaved);
    assert_eq!(blocks.len(), 1);
    assert_eq!(blocks[0][0].len(), INPUT_BLOCK_SIZE);
    assert!(rs.take_partial().is_none());
}
