use ttml_processor::lyric_optimizer::{
    apply_smoothed_durations, find_group_end, line_groups, retime_group, smooth_syllables, SmoothingThresholds,
};
use ttml_processor::types::{LyricLine, LyricSyllable};

fn syllable(start_ms: u64, end_ms: u64) -> LyricSyllable {
    LyricSyllable {
        text: "la".to_string(),
        start_ms,
        end_ms,
        duration_ms: Some(end_ms.saturating_sub(start_ms)),
        ends_with_space: false,
    }
}

fn thresholds() -> SmoothingThresholds {
    SmoothingThresholds { duration_threshold_ms: 50, gap_threshold_ms: 100 }
}

fn line_of(times: &[(u64, u64)]) -> LyricLine {
    LyricLine {
        main_syllables: times.iter().map(|&(a, b)| syllable(a, b)).collect(),
        ..Default::default()
    }
}

fn times_of(line: &LyricLine) -> Vec<(u64, u64)> {
    line.main_syllables.iter().map(|s| (s.start_ms, s.end_ms)).collect()
}

/// One-dimensional diffusion of the durations of a group, rescaled to the
/// total they had and rounded, as a caller of the library computes it.
fn diffuse(durations: &[u64], factor: f64, iterations: u32) -> Vec<u64> {
    let n = durations.len();
    let total: f64 = durations.iter().map(|&d| d as f64).sum();
    let mut current: Vec<f64> = durations.iter().map(|&d| d as f64).collect();
    let mut next = vec![0.0; n];
    for _ in 0..iterations {
        next[0] = (1.0 - factor) * current[0] + factor * current[1];
        for i in 1..n - 1 {
            next[i] = (1.0 - 2.0 * factor) * current[i] + factor * current[i - 1] + factor * current[i + 1];
        }
        next[n - 1] = (1.0 - factor) * current[n - 1] + factor * current[n - 2];
        std::mem::swap(&mut current, &mut next);
    }
    let sum: f64 = current.iter().sum();
    if sum > 1e-6 {
        for d in current.iter_mut() {
            *d *= total / sum;
        }
    }
    current.iter().map(|d| d.round() as u64).collect()
}

fn smoothed_durations(line: &LyricLine, t: &SmoothingThresholds, factor: f64, iterations: u32) -> Vec<u64> {
    let mut out: Vec<u64> = line.main_syllables.iter().map(|s| s.end_ms.saturating_sub(s.start_ms)).collect();
    for (first, last) in line_groups(&line.main_syllables, t) {
        if last > first {
            let group = diffuse(&out[first..=last], factor, iterations);
            out[first..=last].copy_from_slice(&group);
        }
    }
    out
}

#[test]
fn equal_syllables_are_a_fixed_point() {
    let mut lines = vec![line_of(&[(0, 200), (200, 400), (400, 600), (600, 800), (800, 1000), (1000, 1200)])];
    let t = thresholds();
    let durations = vec![smoothed_durations(&lines[0], &t, 0.15, 5)];
    assert_eq!(durations[0], vec![200; 6]);
    apply_smoothed_durations(&mut lines, &t, &durations);
    let after = times_of(&lines[0]);
    assert_eq!(after.first().unwrap().0, 0);
    assert_eq!(after.last().unwrap().1, 1200);
    let total: u64 = after.iter().map(|&(a, b)| b - a).sum();
    assert_eq!(total, 1200);
    for &(a, b) in &after[1..5] {
        assert_eq!(b - a, 200);
    }
}

#[test]
fn uneven_group_is_smoothed_between_its_ends() {
    let mut lines = vec![line_of(&[(1000, 1100), (1100, 1240), (1250, 1350), (1350, 1480)])];
    let t = thresholds();
    assert_eq!(line_groups(&lines[0].main_syllables, &t), vec![(0, 3)]);
    let durations = vec![smoothed_durations(&lines[0], &t, 0.15, 5)];
    apply_smoothed_durations(&mut lines, &t, &durations);
    let after = times_of(&lines[0]);
    assert_eq!(after[0].0, 1000);
    assert_eq!(after[3].1, 1480);
    let total: u64 = after.iter().map(|&(a, b)| b - a).sum();
    assert_eq!(total, 100 + 140 + 100 + 130);
    assert_eq!(after[2].0 - after[1].1, 10);
    assert_eq!(after[1].0, after[0].1);
    assert!(after[1].1 - after[1].0 < 140);
    assert!(after[0].1 - after[0].0 > 100);
}

#[test]
fn groups_end_at_large_differences_and_gaps() {
    let line = line_of(&[(0, 100), (100, 220), (220, 420), (420, 600), (900, 1080), (1080, 1250)]);
    let t = thresholds();
    assert_eq!(find_group_end(&line.main_syllables, 0, &t), 1);
    assert_eq!(find_group_end(&line.main_syllables, 2, &t), 3);
    assert_eq!(find_group_end(&line.main_syllables, 5, &t), 5);
    assert_eq!(line_groups(&line.main_syllables, &t), vec![(0, 1), (2, 3), (4, 5)]);
    assert_eq!(line_groups(&Vec::new(), &t), vec![]);
}

#[test]
fn group_is_laid_out_from_new_durations() {
    let mut syllables: Vec<LyricSyllable> =
        [(0u64, 100u64), (110, 200), (200, 320), (500, 600)].iter().map(|&(a, b)| syllable(a, b)).collect();
    retime_group(&mut syllables, 0, 2, &vec![120, 80, 999]);
    let after: Vec<(u64, u64)> = syllables.iter().map(|s| (s.start_ms, s.end_ms)).collect();
    assert_eq!(after, vec![(0, 120), (130, 210), (210, 320), (500, 600)]);
    assert_eq!(syllables[0].text, "la");
    assert_eq!(syllables[0].duration_ms, Some(100));
}

#[test]
fn every_group_of_a_line_keeps_its_ends() {
    let mut syllables: Vec<LyricSyllable> = [(0u64, 100u64), (100, 220), (220, 420), (420, 600), (900, 1080)]
        .iter()
        .map(|&(a, b)| syllable(a, b))
        .collect();
    let t = thresholds();
    smooth_syllables(&mut syllables, &t, &vec![111, 1, 180, 7, 3]);
    let after: Vec<(u64, u64)> = syllables.iter().map(|s| (s.start_ms, s.end_ms)).collect();
    assert_eq!(after, vec![(0, 111), (111, 220), (220, 400), (400, 600), (900, 1080)]);
}

#[test]
fn lines_that_cannot_be_smoothed_stay() {
    let mut lines = vec![
        line_of(&[(0, 100)]),
        line_of(&[(0, 100), (100, 200)]),
        line_of(&[(0, 100), (100, 200)]),
    ];
    let before = lines.clone();
    apply_smoothed_durations(&mut lines, &thresholds(), &vec![vec![50], vec![50]]);
    assert_eq!(lines, before);
}

#[test]
fn sums_are_cut_off_at_the_largest_value() {
    let mut syllables: Vec<LyricSyllable> = vec![syllable(u64::MAX - 10, u64::MAX - 5), syllable(u64::MAX - 5, u64::MAX)];
    retime_group(&mut syllables, 0, 1, &vec![100, 100]);
    assert_eq!((syllables[0].start_ms, syllables[0].end_ms), (u64::MAX - 10, u64::MAX));
    assert_eq!((syllables[1].start_ms, syllables[1].end_ms), (u64::MAX, u64::MAX));
}

fn signed_total(times: &[(u64, u64)]) -> i128 {
    times.iter().map(|&(a, b)| b as i128 - a as i128).sum()
}

#[test]
fn total_of_a_group_is_kept_whatever_the_new_durations() {
    let before = [(0u64, 100u64), (100, 200)];
    for durations in [vec![250u64, 7], vec![0, 0], vec![100, 100], vec![1, 1_000_000]] {
        let mut syllables: Vec<LyricSyllable> = before.iter().map(|&(a, b)| syllable(a, b)).collect();
        retime_group(&mut syllables, 0, 1, &durations);
        let after: Vec<(u64, u64)> = syllables.iter().map(|s| (s.start_ms, s.end_ms)).collect();
        assert_eq!(signed_total(&after), signed_total(&before));
        assert_eq!(after[0].0, 0);
        assert_eq!(after[1].1, 200);
    }
    let before = [(10u64, 50u64), (60, 90), (90, 150), (170, 200)];
    let mut syllables: Vec<LyricSyllable> = before.iter().map(|&(a, b)| syllable(a, b)).collect();
    retime_group(&mut syllables, 0, 3, &vec![33, 41, 52, 9]);
    let after: Vec<(u64, u64)> = syllables.iter().map(|s| (s.start_ms, s.end_ms)).collect();
    assert_eq!(after, vec![(10, 43), (53, 94), (94, 146), (166, 200)]);
    assert_eq!(signed_total(&after), signed_total(&before));
}
