use stx_offset::errors::StepError;
use stx_offset::offset::{apply_offset, patch_delay_value, patch_first_split};
use stx_offset::step::{Block, LegacyMode, Split, StepData, StepFile};

fn data(splits: Vec<Vec<i32>>) -> StepData {
    StepData {
        splits: splits
            .into_iter()
            .map(|blocks| Split {
                blocks: blocks.into_iter().map(|d| Block { delay_ms: d }).collect(),
            })
            .collect(),
    }
}

fn delays(d: &StepData) -> Vec<Vec<i32>> {
    d.splits
        .iter()
        .map(|s| s.blocks.iter().map(|b| b.delay_ms).collect())
        .collect()
}

fn file(version: LegacyMode, v1: Vec<Vec<i32>>, v2: Vec<Vec<i32>>, v3: Vec<Vec<i32>>) -> StepFile {
    StepFile {
        version,
        chart_v1: data(v1),
        chart_v2: data(v2),
        chart_v3: data(v3),
    }
}

#[test]
fn a_patched_delay_is_the_clamped_sum() {
    assert_eq!(patch_delay_value(100, 20), 300);
    assert_eq!(patch_delay_value(100, 0), 100);
    assert_eq!(patch_delay_value(100, -7), 30);
    assert_eq!(patch_delay_value(i32::MAX - 5, 1), i32::MAX);
    assert_eq!(patch_delay_value(i32::MIN + 5, -1), i32::MIN);
}

#[test]
fn the_scale_is_taken_over_the_mathematical_sum() {
    // The offset times ten is not clamped on its own: a huge offset on a
    // deeply negative delay lands back inside the range.
    assert_eq!(patch_delay_value(-2_000_000_000, 300_000_000), 1_000_000_000);
    assert_eq!(patch_delay_value(2_000_000_000, -300_000_000), -1_000_000_000);
    assert_eq!(patch_delay_value(0, 300_000_000), i32::MAX);
    assert_eq!(patch_delay_value(0, -300_000_000), i32::MIN);
}

#[test]
fn patch_adds_scaled_offset_to_first_split_only() {
    let mut d = data(vec![vec![100, 200, -50], vec![300, 400], vec![]]);
    let r = patch_first_split(&mut d, 20);
    assert!(r.is_ok());
    assert_eq!(delays(&d), vec![vec![300, 400, 150], vec![300, 400], vec![]]);
}

#[test]
fn patch_saturates_instead_of_wrapping() {
    let mut d = data(vec![vec![i32::MAX - 5, i32::MIN + 5]]);
    let r = patch_first_split(&mut d, 1);
    assert!(r.is_ok());
    assert_eq!(delays(&d), vec![vec![i32::MAX, i32::MIN + 15]]);

    let mut d = data(vec![vec![i32::MIN + 5]]);
    let r = patch_first_split(&mut d, -1);
    assert!(r.is_ok());
    assert_eq!(delays(&d), vec![vec![i32::MIN]]);
}

#[test]
fn patch_round_trip_restores_delays() {
    let original = vec![vec![100, 200, -300], vec![7]];
    let mut d = data(original.clone());
    assert!(patch_first_split(&mut d, 20).is_ok());
    assert!(patch_first_split(&mut d, -20).is_ok());
    assert_eq!(delays(&d), original);
}

#[test]
fn patch_round_trip_is_not_reversible_after_saturation() {
    let mut d = data(vec![vec![i32::MAX - 100]]);
    assert!(patch_first_split(&mut d, 20).is_ok());
    assert_eq!(delays(&d), vec![vec![i32::MAX]]);
    assert!(patch_first_split(&mut d, -20).is_ok());
    assert_ne!(delays(&d), vec![vec![i32::MAX - 100]]);
    assert_eq!(delays(&d), vec![vec![i32::MAX - 200]]);
}

#[test]
fn patch_with_no_splits_fails_and_changes_nothing() {
    let mut d = data(vec![]);
    let r = patch_first_split(&mut d, 20);
    assert_eq!(r, Err(StepError::NoSplitsFound));
    assert_eq!(delays(&d), Vec::<Vec<i32>>::new());
}

#[test]
fn patch_with_empty_first_split_fails_and_changes_nothing() {
    let mut d = data(vec![vec![], vec![5]]);
    let r = patch_first_split(&mut d, 20);
    assert_eq!(r, Err(StepError::NoBlocksInFirstSplit));
    assert_eq!(delays(&d), vec![vec![], vec![5]]);
}

#[test]
fn apply_patches_the_first_split_of_every_mode_once() {
    let mut f = file(
        LegacyMode::V1,
        vec![vec![1, 2]],
        vec![vec![3]],
        vec![vec![5], vec![7]],
    );
    let r = apply_offset(&mut f, 1);
    assert!(r.is_ok());
    // Every mode's chart gets its first split patched, from the data it
    // held before the call; later splits are untouched.
    assert_eq!(delays(&f.chart_v1), vec![vec![11, 12]]);
    assert_eq!(delays(&f.chart_v2), vec![vec![13]]);
    assert_eq!(delays(&f.chart_v3), vec![vec![15], vec![7]]);
    assert_eq!(f.version, LegacyMode::V1);
}

#[test]
fn apply_with_offset_zero_changes_nothing() {
    let mut f = file(
        LegacyMode::V1,
        vec![vec![1, 2]],
        vec![vec![3]],
        vec![vec![5], vec![7]],
    );
    let r = apply_offset(&mut f, 0);
    assert!(r.is_ok());
    assert_eq!(delays(&f.chart_v1), vec![vec![1, 2]]);
    assert_eq!(delays(&f.chart_v2), vec![vec![3]]);
    assert_eq!(delays(&f.chart_v3), vec![vec![5], vec![7]]);
}

#[test]
fn apply_round_trip_restores_the_whole_file() {
    let mut f = file(
        LegacyMode::V2,
        vec![vec![1, 2], vec![9]],
        vec![vec![3]],
        vec![vec![5], vec![7]],
    );
    assert!(apply_offset(&mut f, 5).is_ok());
    assert!(apply_offset(&mut f, -5).is_ok());
    assert_eq!(delays(&f.chart_v1), vec![vec![1, 2], vec![9]]);
    assert_eq!(delays(&f.chart_v2), vec![vec![3]]);
    assert_eq!(delays(&f.chart_v3), vec![vec![5], vec![7]]);
}

#[test]
fn apply_with_zero_splits_in_one_mode_fails_with_no_splits_found() {
    let mut f = file(
        LegacyMode::V1,
        vec![vec![10]],
        vec![],
        vec![vec![40]],
    );
    let r = apply_offset(&mut f, 2);
    assert_eq!(r, Err(StepError::NoSplitsFound));
    // The pass over V1 had already committed before the failing V2 pass,
    // and stays committed: no cross-mode rollback.
    assert_eq!(delays(&f.chart_v1), vec![vec![30]]);
    // The failing mode's chart and the modes after it are untouched.
    assert_eq!(delays(&f.chart_v2), Vec::<Vec<i32>>::new());
    assert_eq!(delays(&f.chart_v3), vec![vec![40]]);
}

#[test]
fn apply_with_empty_first_split_fails_with_no_blocks() {
    let mut f = file(
        LegacyMode::V2,
        vec![vec![], vec![1]],
        vec![vec![10]],
        vec![vec![30]],
    );
    let r = apply_offset(&mut f, 2);
    assert_eq!(r, Err(StepError::NoBlocksInFirstSplit));
    // The very first pass failed, so nothing at all was committed.
    assert_eq!(delays(&f.chart_v1), vec![vec![], vec![1]]);
    assert_eq!(delays(&f.chart_v2), vec![vec![10]]);
    assert_eq!(delays(&f.chart_v3), vec![vec![30]]);
}
