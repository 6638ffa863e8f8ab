use pvoc::{effective_frame_size, hop_size, round_quotient_to_even, Engine};

/// Runs every due sub-frame, summing each analysis frame into the overlap
/// window unchanged; returns the number of sub-frames run.
fn run_sum_frames(e: &mut Engine<i64>) -> usize {
    let mut n: usize = 0;
    while e.subframe_due() {
        let mut windows = Vec::new();
        for c in 0..e.num_channels() {
            let frame = e.analysis_frame(c);
            let mut w = e.overlap_window(c, 0);
            for i in 0..w.len() {
                w[i] += frame[i];
            }
            windows.push(w);
        }
        e.commit_subframe(&windows);
        n += 1;
    }
    n
}

fn run_silence(e: &mut Engine<f64>) -> usize {
    let mut n: usize = 0;
    while e.subframe_due() {
        let mut windows = Vec::new();
        for c in 0..e.num_channels() {
            let frame = e.analysis_frame(c);
            let mut w = e.overlap_window(c, 0.0);
            for i in 0..w.len() {
                w[i] += frame[i] * 0.5;
            }
            windows.push(w);
        }
        e.commit_subframe(&windows);
        n += 1;
    }
    n
}

#[test]
fn frame_size_rounds_down_to_multiple() {
    assert_eq!(effective_frame_size(1024, 4), 1024);
    assert_eq!(effective_frame_size(1001, 4), 1000);
    assert_eq!(effective_frame_size(1023, 4), 1020);
    assert_eq!(effective_frame_size(7, 3), 6);
}

#[test]
fn frame_size_falls_back_to_time_res() {
    assert_eq!(effective_frame_size(3, 4), 4);
    assert_eq!(effective_frame_size(0, 1), 1);
    assert_eq!(effective_frame_size(0, 8), 8);
}

#[test]
fn hop_is_frame_over_time_res() {
    assert_eq!(hop_size(1024, 4), 256);
    assert_eq!(hop_size(6, 3), 2);
}

#[test]
fn quotient_rounds_away_from_zero_to_even() {
    assert_eq!(round_quotient_to_even(0), 0);
    assert_eq!(round_quotient_to_even(1), 2);
    assert_eq!(round_quotient_to_even(2), 2);
    assert_eq!(round_quotient_to_even(3), 4);
    assert_eq!(round_quotient_to_even(-1), -2);
    assert_eq!(round_quotient_to_even(-2), -2);
    assert_eq!(round_quotient_to_even(-3), -4);
    assert_eq!(round_quotient_to_even(i32::MIN), i32::MIN);
    assert_eq!(round_quotient_to_even(i32::MAX - 1), i32::MAX - 1);
}

#[test]
fn new_engine_is_empty() {
    let e: Engine<f64> = Engine::new(2, 1000, 4);
    assert_eq!(e.num_channels(), 2);
    assert_eq!(e.num_bins(), 1000);
    assert_eq!(e.overlap_factor(), 4);
    assert_eq!(e.samples_waiting(), 0);
    assert!(!e.subframe_due());
}

#[test]
fn silence_scenario_one_channel() {
    let mut e: Engine<f64> = Engine::new(1, 1024, 4);
    assert_eq!(e.num_bins(), 1024);
    e.push_input(&vec![vec![0.0; 4096]]);
    assert_eq!(e.samples_waiting(), 4096);
    let subframes = run_silence(&mut e);
    // 4096 -> 3072 -> 2048 -> 1024: three batches of four sub-frames.
    assert_eq!(subframes, 12);
    assert_eq!(e.samples_waiting(), 1024);
    assert!(e.samples_waiting() < 2 * 1024);
    let out = e.drain(0, 8192);
    assert_eq!(out.len(), 3072);
    assert!(out.iter().all(|x| *x == 0.0));
    assert_eq!(e.drain(0, 10).len(), 0);
}

#[test]
fn no_batch_below_two_frames() {
    let mut e: Engine<i64> = Engine::new(1, 8, 2);
    e.push_input(&vec![vec![1; 15]]);
    assert!(!e.subframe_due());
    assert_eq!(run_sum_frames(&mut e), 0);
    e.push_input(&vec![vec![1; 1]]);
    assert!(e.subframe_due());
    assert_eq!(run_sum_frames(&mut e), 2);
    assert_eq!(e.samples_waiting(), 8);
}

#[test]
fn overlap_add_of_raw_frames() {
    let mut e: Engine<i64> = Engine::new(1, 4, 2);
    e.push_input(&vec![vec![1, 2, 3, 4, 5, 6, 7, 8]]);
    assert_eq!(run_sum_frames(&mut e), 2);
    assert_eq!(e.samples_waiting(), 4);
    assert_eq!(e.drain(0, 100), vec![1, 2, 6, 8]);
}

#[test]
fn analysis_frame_is_front_of_input() {
    let mut e: Engine<i64> = Engine::new(1, 4, 2);
    e.push_input(&vec![vec![9, 8, 7, 6, 5, 4, 3, 2]]);
    assert!(e.subframe_due());
    assert_eq!(e.analysis_frame(0), vec![9, 8, 7, 6]);
    assert_eq!(e.overlap_window(0, -1), vec![-1, -1, -1, -1]);
    e.commit_subframe(&vec![vec![10, 20, 30, 40]]);
    // mid-batch: the next sub-frame is due although fewer samples wait
    assert!(e.subframe_due());
    assert_eq!(e.analysis_frame(0), vec![7, 6, 5, 4]);
    assert_eq!(e.overlap_window(0, 0), vec![30, 40, 0, 0]);
    e.commit_subframe(&vec![vec![1, 2, 3, 4]]);
    assert!(!e.subframe_due());
    assert_eq!(e.drain(0, 3), vec![10, 20, 1]);
    assert_eq!(e.drain(0, 3), vec![2]);
}

#[test]
fn channels_with_same_input_match() {
    let mut e: Engine<i64> = Engine::new(3, 6, 3);
    let chunk: Vec<i64> = (0..10).map(|x| x * 3 - 7).collect();
    for _ in 0..5 {
        e.push_input(&vec![chunk.clone(), chunk.clone(), chunk.clone()]);
        run_sum_frames(&mut e);
    }
    let a = e.drain(0, 1000);
    let b = e.drain(1, 1000);
    let c = e.drain(2, 1000);
    assert!(!a.is_empty());
    assert_eq!(a, b);
    assert_eq!(a, c);
}

#[test]
fn samples_are_conserved() {
    let mut e: Engine<i64> = Engine::new(2, 8, 4);
    let mut supplied: usize = 0;
    let mut drained: usize = 0;
    for len in [0usize, 3, 17, 1, 30, 5, 64, 2] {
        e.push_input(&vec![vec![1; len], vec![2; len]]);
        supplied += len;
        run_sum_frames(&mut e);
        let a = e.drain(0, 5);
        let b = e.drain(1, 5);
        assert_eq!(a.len(), b.len());
        drained += a.len();
    }
    let rest = e.drain(0, 10000);
    drained += rest.len();
    let pending = supplied - drained;
    assert!(pending < 2 * 8);
    assert_eq!(pending * 2, e.samples_waiting());
}

#[test]
fn identical_runs_give_identical_output() {
    let mut outs = Vec::new();
    for _ in 0..2 {
        let mut e: Engine<i64> = Engine::new(1, 4, 4);
        let input: Vec<i64> = (0..40).map(|x| (x * 7) % 11).collect();
        e.push_input(&vec![input]);
        run_sum_frames(&mut e);
        outs.push(e.drain(0, 100));
    }
    assert_eq!(outs[0], outs[1]);
    assert_eq!(outs[0].len(), 36);
}
