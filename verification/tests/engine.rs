use slap_delay::engine::DelayEngine;

/// Runs one block with constant delay time and wet weight, returning the
/// processed left and right channels.
fn run_block(
    engine: &mut DelayEngine,
    left: &[i32],
    right: &[i32],
    dt_us: u32,
    wet: u32,
) -> (Vec<i32>, Vec<i32>) {
    assert_eq!(left.len(), right.len());
    let mut samples = vec![left.to_vec(), right.to_vec()];
    let dts = vec![dt_us; left.len()];
    let ws = vec![wet; left.len()];
    engine.process_block(&mut samples, &dts, &ws);
    let out_right = samples.pop().unwrap();
    let out_left = samples.pop().unwrap();
    (out_left, out_right)
}

/// Floor-division crossfade, as the engine defines it.
fn crossfade(w: i64, dry: i32, wet: i32) -> i32 {
    (((1000 - w) * dry as i64 + w * wet as i64).div_euclid(1000)) as i32
}

#[test]
fn test_new_engine_unconfigured() {
    let engine = DelayEngine::new();
    assert_eq!(engine.buffer_length(), 0);
    assert_eq!(engine.write_cursor(), 0);
    assert_eq!(engine.channel_count(), 2);
    assert_eq!(engine.sample_rate(), 0);
}

#[test]
fn test_configure_sets_length_and_cursor() {
    let mut engine = DelayEngine::new();
    engine.configure(48000);
    assert_eq!(engine.buffer_length(), 48048);
    assert_eq!(engine.write_cursor(), 0);
    assert_eq!(engine.sample_rate(), 48000);
    engine.configure(44100);
    assert_eq!(engine.buffer_length(), 44145);
    engine.configure(96000);
    assert_eq!(engine.buffer_length(), 96096);
}

#[test]
fn test_configure_idempotent() {
    let mut engine = DelayEngine::new();
    engine.configure(44100);
    let len_first = engine.buffer_length();
    let cur_first = engine.write_cursor();
    engine.configure(44100);
    assert_eq!(engine.buffer_length(), len_first);
    assert_eq!(engine.write_cursor(), 0);
    assert_eq!(cur_first, 0);

    // A reconfigure after processing also resets the cursor and keeps the length.
    let input = [7; 100];
    let _ = run_block(&mut engine, &input, &input, 120_000, 500);
    assert_eq!(engine.write_cursor(), 100);
    engine.configure(44100);
    assert_eq!(engine.buffer_length(), len_first);
    assert_eq!(engine.write_cursor(), 0);
}

#[test]
fn test_configure_zero_rate_clamps_to_one() {
    let mut engine = DelayEngine::new();
    engine.configure(0);
    assert_eq!(engine.buffer_length(), 1);
    assert_eq!(engine.write_cursor(), 0);
}

#[test]
fn test_delay_accuracy_impulse() {
    // round(d ms * 0.001 * sample_rate) for three representative rates.
    let cases: [(u32, u32, usize); 3] = [
        (44100, 250_000, 11025),
        (48000, 120_000, 5760),
        (96000, 10_000, 960),
    ];
    let amp = 1_000_000;
    for &(rate, dt_us, expected_frame) in cases.iter() {
        let mut engine = DelayEngine::new();
        engine.configure(rate);
        let frames = expected_frame + 100;
        let mut input = vec![0; frames];
        input[0] = amp;
        let silent = vec![0; frames];
        let (out_left, out_right) = run_block(&mut engine, &input, &silent, dt_us, 1000);
        for i in 0..frames {
            let expected = if i == expected_frame { amp } else { 0 };
            assert_eq!(out_left[i], expected, "rate {} frame {}", rate, i);
            assert_eq!(out_right[i], 0, "rate {} frame {}", rate, i);
        }
    }
}

#[test]
fn test_boundary_scenario_48k() {
    let mut engine = DelayEngine::new();
    engine.configure(48000);
    assert_eq!(engine.buffer_length(), 48048);
    let amp = 1_000_000;
    let frames = 48002;
    let mut input = vec![0; frames];
    input[0] = amp;
    let silent = vec![0; frames];
    let (out_left, _) = run_block(&mut engine, &input, &silent, 1_000_000, 1000);
    for i in 0..48000 {
        assert_eq!(out_left[i], 0, "frame {}", i);
    }
    assert_eq!(out_left[48000], amp);
    assert_eq!(out_left[48001], 0);
}

#[test]
fn test_dry_wet_linearity() {
    let frames = 200;
    let mut left = vec![0; frames];
    let mut right = vec![0; frames];
    for i in 0..frames {
        left[i] = ((i as i32) * 37) % 1001 - 500;
        right[i] = ((i as i32) * 91) % 773 - 300;
    }
    let dt_us = 5_000;

    let mut dry_engine = DelayEngine::new();
    dry_engine.configure(8000);
    let (dry_left, dry_right) = run_block(&mut dry_engine, &left, &right, dt_us, 0);
    // Weight zero is pure dry: the input unchanged.
    assert_eq!(dry_left, left);
    assert_eq!(dry_right, right);

    let mut wet_engine = DelayEngine::new();
    wet_engine.configure(8000);
    let (wet_left, wet_right) = run_block(&mut wet_engine, &left, &right, dt_us, 1000);

    for &w in [100, 500].iter() {
        let mut engine = DelayEngine::new();
        engine.configure(8000);
        let (out_left, out_right) = run_block(&mut engine, &left, &right, dt_us, w);
        for i in 0..frames {
            assert_eq!(out_left[i], crossfade(w as i64, dry_left[i], wet_left[i]));
            assert_eq!(out_right[i], crossfade(w as i64, dry_right[i], wet_right[i]));
        }
    }
}

#[test]
fn test_channel_content_independent_cursor_lockstep() {
    let frames = 300;
    let mut sig_a = vec![0; frames];
    let mut sig_b = vec![0; frames];
    for i in 0..frames {
        sig_a[i] = (i as i32) * 13 - 900;
        sig_b[i] = 5000 - (i as i32) * 7;
    }
    let dt_us = 20_000;

    let mut mixed = DelayEngine::new();
    mixed.configure(22050);
    let (mixed_left, mixed_right) = run_block(&mut mixed, &sig_a, &sig_b, dt_us, 700);

    let mut both_a = DelayEngine::new();
    both_a.configure(22050);
    let (a_left, a_right) = run_block(&mut both_a, &sig_a, &sig_a, dt_us, 700);
    assert_eq!(a_left, a_right);

    let mut both_b = DelayEngine::new();
    both_b.configure(22050);
    let (b_left, _) = run_block(&mut both_b, &sig_b, &sig_b, dt_us, 700);

    // Each channel's output depends only on that channel's signal.
    assert_eq!(mixed_left, a_left);
    assert_eq!(mixed_right, b_left);

    // One shared cursor, advanced once per frame, for every engine.
    assert_eq!(mixed.write_cursor(), frames);
    assert_eq!(both_a.write_cursor(), frames);
    assert_eq!(both_b.write_cursor(), frames);
}

#[test]
fn test_max_delay_wraparound() {
    // Sample rate 10 gives an 11-sample buffer; a 1000 ms delay resolves to
    // 10 samples, the maximum clamp value (buffer length minus one).
    let mut engine = DelayEngine::new();
    engine.configure(10);
    assert_eq!(engine.buffer_length(), 11);

    let frames = 22;
    let mut in_first = vec![0; frames];
    for i in 0..frames {
        in_first[i] = (i as i32 + 1) * 1000;
    }
    let (out_first, _) = run_block(&mut engine, &in_first, &in_first, 1_000_000, 1000);
    for i in 0..frames {
        let expected = if i < 10 { 0 } else { in_first[i - 10] };
        assert_eq!(out_first[i], expected, "first block frame {}", i);
    }

    // A delay time far beyond the parameter range clamps to the same maximum.
    let mut in_second = vec![0; frames];
    for i in 0..frames {
        in_second[i] = -(i as i32 + 1) * 777;
    }
    let (out_second, _) = run_block(&mut engine, &in_second, &in_second, u32::MAX, 1000);
    for i in 0..frames {
        let expected = if i < 10 { in_first[frames + i - 10] } else { in_second[i - 10] };
        assert_eq!(out_second[i], expected, "second block frame {}", i);
    }
    assert_eq!(engine.write_cursor(), (2 * frames) % 11);
}

#[test]
fn test_zero_delay_passthrough() {
    let frames = 64;
    let mut input = vec![0; frames];
    for i in 0..frames {
        input[i] = (i as i32) * 101 - 3000;
    }
    // 10 microseconds at 44100 Hz rounds to zero samples of delay: with a
    // full wet mix each frame reads back the sample just written.
    let mut engine = DelayEngine::new();
    engine.configure(44100);
    let (out_left, out_right) = run_block(&mut engine, &input, &input, 10, 1000);
    assert_eq!(out_left, input);
    assert_eq!(out_right, input);
}

#[test]
fn test_rounding_half_up() {
    // At 1000 Hz, 0.500 ms is exactly half a sample and rounds up to one;
    // 0.499 ms rounds down to zero.
    let frames = 4;
    let input = [9000, 100, -200, 300];
    let silent = [0; 4];

    let mut up = DelayEngine::new();
    up.configure(1000);
    let (out_up, _) = run_block(&mut up, &input, &silent, 500, 1000);
    assert_eq!(out_up, vec![0, 9000, 100, -200]);

    let mut down = DelayEngine::new();
    down.configure(1000);
    let (out_down, _) = run_block(&mut down, &input, &silent, 499, 1000);
    assert_eq!(out_down.as_slice(), &input[..frames]);
}

#[test]
fn test_mix_floor_semantics_at_extremes() {
    // One sample of delay at 100 kHz; the first frame mixes against silence,
    // the second against the stored minimum sample.  The crossfade divides
    // with mathematical floor, so -500/1000 gives -1, not 0.
    let mut engine = DelayEngine::new();
    engine.configure(100_000);
    let input = [i32::MIN, i32::MAX];
    let (out, _) = run_block(&mut engine, &input, &input, 10, 500);
    assert_eq!(out[0], crossfade(500, i32::MIN, 0));
    assert_eq!(out[0], -1_073_741_824);
    assert_eq!(out[1], crossfade(500, i32::MAX, i32::MIN));
    assert_eq!(out[1], -1);
}

#[test]
fn test_length_one_buffer_runs() {
    // A degenerate rate still leaves a working one-sample line: every delay
    // clamps to zero samples, so full wet is pass-through.
    let mut engine = DelayEngine::new();
    engine.configure(0);
    let input = [4, -5, 6, -7, 8];
    let (out_left, _) = run_block(&mut engine, &input, &input, u32::MAX, 1000);
    assert_eq!(out_left.as_slice(), &input[..]);
    assert_eq!(engine.write_cursor(), 0);
}

#[test]
fn test_per_frame_automation() {
    // Delay time and wet weight may change on every frame.  Frame 0 mixes
    // dry; frame 1 reads one sample back at full wet; frame 2 reads two
    // samples back at half wet.
    let mut engine = DelayEngine::new();
    engine.configure(1_000_000);
    let mut samples = vec![vec![800, 600, 400], vec![800, 600, 400]];
    let dts = vec![0, 1, 2];
    let ws = vec![0, 1000, 500];
    engine.process_block(&mut samples, &dts, &ws);
    assert_eq!(samples[0], vec![800, 800, crossfade(500, 400, 800)]);
    assert_eq!(samples[1], samples[0]);
}
