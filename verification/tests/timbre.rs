use timbre_tweak::curve::Curve;
use timbre_tweak::timbre::{count_kept, plan_swaps, swaps_fit, RowClicks, Timbre};
use timbre_tweak::wave::{Wave, HALF, ONE};
use timbre_tweak::waveform::Waveform;

const QUIET: RowClicks = RowClicks { up: false, down: false, remove: false };
const UP: RowClicks = RowClicks { up: true, down: false, remove: false };
const DOWN: RowClicks = RowClicks { up: false, down: true, remove: false };
const REMOVE: RowClicks = RowClicks { up: false, down: false, remove: true };

/// A wave that can be told from the others by its frequency.
fn tagged(tag: u32) -> Wave {
    Wave { waveform: Waveform::Square, freq: Curve::constant(tag), amp: Curve::constant(HALF) }
}

fn timbre_of(tags: &[u32]) -> Timbre {
    let mut timbre = Timbre::new();
    for tag in tags {
        timbre.waves.push(tagged(*tag));
    }
    timbre
}

fn tags(timbre: &Timbre) -> Vec<u32> {
    timbre.waves.iter().map(|w| w.freq.point(0)).collect()
}

#[test]
fn bit_patterns_of_the_default_levels() {
    assert_eq!(HALF, 0.5f32.to_bits());
    assert_eq!(ONE, 1.0f32.to_bits());
}

#[test]
fn new_timbre_has_no_waves_and_half_level() {
    let timbre = Timbre::new();
    assert!(timbre.waves.is_empty());
    assert_eq!(timbre.amp.to_points(), vec![0.5f32.to_bits()]);
}

#[test]
fn new_wave_has_the_default_settings() {
    let wave = Wave::new();
    assert_eq!(wave.waveform, Waveform::Sine);
    assert_eq!(wave.freq.to_points(), vec![1.0f32.to_bits()]);
    assert_eq!(wave.amp.to_points(), vec![0.5f32.to_bits()]);
}

#[test]
fn add_wave_on_an_empty_timbre_gives_one_default_wave() {
    let mut timbre = Timbre::new();
    timbre.add_wave();
    assert_eq!(timbre.waves.len(), 1);
    assert_eq!(timbre.waves[0].waveform, Waveform::Sine);
    assert_eq!(f32::from_bits(timbre.waves[0].freq.point(0)), 1.0);
    assert_eq!(timbre.waves[0].freq.last_index(), 0);
    assert_eq!(timbre.waves[0].amp.to_points(), vec![0.5f32.to_bits()]);
    assert_eq!(timbre.amp, Timbre::new().amp);
}

#[test]
fn add_wave_appends_after_the_others() {
    let mut timbre = timbre_of(&[1, 2]);
    timbre.add_wave();
    assert_eq!(timbre.waves.len(), 3);
    assert_eq!(timbre.waves[0], tagged(1));
    assert_eq!(timbre.waves[1], tagged(2));
    assert_eq!(timbre.waves[2], Wave::new());
}

#[test]
fn removing_the_only_wave_leaves_none() {
    let mut timbre = Timbre::new();
    timbre.add_wave();
    assert!(timbre.try_apply_clicks(&vec![REMOVE]));
    assert!(timbre.waves.is_empty());
    assert_eq!(timbre, Timbre::new());
}

#[test]
fn removing_the_only_wave_drops_its_other_clicks() {
    let mut timbre = timbre_of(&[9]);
    let all = RowClicks { up: true, down: true, remove: true };
    assert_eq!(plan_swaps(&vec![all]), vec![]);
    assert!(timbre.try_apply_clicks(&vec![all]));
    assert!(timbre.waves.is_empty());
}

#[test]
fn a_pass_without_clicks_changes_nothing() {
    let mut timbre = timbre_of(&[1, 2, 3]);
    assert!(timbre.try_apply_clicks(&vec![QUIET, QUIET, QUIET]));
    assert_eq!(tags(&timbre), vec![1, 2, 3]);
    let mut empty = Timbre::new();
    assert!(empty.try_apply_clicks(&vec![]));
    assert_eq!(empty, Timbre::new());
}

#[test]
fn remove_takes_one_wave_out() {
    for (at, left) in [(0, vec![2, 3, 4]), (1, vec![1, 3, 4]), (3, vec![1, 2, 3])] {
        let mut timbre = timbre_of(&[1, 2, 3, 4]);
        let mut clicks = vec![QUIET; 4];
        clicks[at] = REMOVE;
        assert!(timbre.try_apply_clicks(&clicks));
        assert_eq!(tags(&timbre), left);
    }
}

#[test]
fn up_exchanges_with_the_wave_before() {
    let mut timbre = timbre_of(&[1, 2, 3]);
    assert!(timbre.try_apply_clicks(&vec![QUIET, QUIET, UP]));
    assert_eq!(tags(&timbre), vec![1, 3, 2]);
    assert!(timbre.try_apply_clicks(&vec![QUIET, UP, QUIET]));
    assert_eq!(tags(&timbre), vec![3, 1, 2]);
}

#[test]
fn up_on_the_first_row_does_nothing() {
    let mut timbre = timbre_of(&[1, 2, 3]);
    assert_eq!(plan_swaps(&vec![UP, QUIET, QUIET]), vec![]);
    assert!(timbre.try_apply_clicks(&vec![UP, QUIET, QUIET]));
    assert_eq!(tags(&timbre), vec![1, 2, 3]);
}

#[test]
fn down_exchanges_with_the_wave_after() {
    let mut timbre = timbre_of(&[1, 2, 3]);
    assert!(timbre.try_apply_clicks(&vec![DOWN, QUIET, QUIET]));
    assert_eq!(tags(&timbre), vec![2, 1, 3]);
    assert!(timbre.try_apply_clicks(&vec![QUIET, DOWN, QUIET]));
    assert_eq!(tags(&timbre), vec![2, 3, 1]);
}

#[test]
fn down_on_the_last_row_does_nothing() {
    let mut timbre = timbre_of(&[1, 2, 3]);
    assert_eq!(plan_swaps(&vec![QUIET, QUIET, DOWN]), vec![]);
    assert!(timbre.try_apply_clicks(&vec![QUIET, QUIET, DOWN]));
    assert_eq!(tags(&timbre), vec![1, 2, 3]);
}

#[test]
fn plan_counts_positions_among_the_kept_rows() {
    // Row 0 goes; row 1 becomes position 0 and cannot move up; row 2 becomes
    // position 1 and moves up to position 0.
    let clicks = vec![REMOVE, UP, UP, QUIET];
    assert_eq!(plan_swaps(&clicks), vec![(1, 0)]);
    assert_eq!(count_kept(&clicks), 3);
    let mut timbre = timbre_of(&[1, 2, 3, 4]);
    assert!(timbre.try_apply_clicks(&clicks));
    assert_eq!(tags(&timbre), vec![3, 2, 4]);
}

#[test]
fn plan_lists_up_before_down_and_rows_in_order() {
    let both = RowClicks { up: true, down: true, remove: false };
    assert_eq!(plan_swaps(&vec![QUIET, both, QUIET]), vec![(1, 0), (1, 2)]);
    assert_eq!(plan_swaps(&vec![DOWN, UP, UP]), vec![(0, 1), (1, 0), (2, 1)]);
    let mut timbre = timbre_of(&[1, 2, 3]);
    assert!(timbre.try_apply_clicks(&vec![DOWN, UP, UP]));
    // (0,1): 2 1 3; (1,0): 1 2 3; (2,1): 1 3 2
    assert_eq!(tags(&timbre), vec![1, 3, 2]);
}

#[test]
fn moves_are_applied_after_the_removals() {
    let mut timbre = timbre_of(&[1, 2, 3, 4]);
    // Row 1 goes; row 3, now at position 2, moves up.
    assert!(timbre.try_apply_clicks(&vec![QUIET, REMOVE, QUIET, UP]));
    assert_eq!(tags(&timbre), vec![1, 4, 3]);
}

#[test]
fn a_move_past_the_kept_rows_is_refused() {
    // Row 0 moves down to position 1, but only one row is kept.
    let clicks = vec![DOWN, REMOVE];
    assert_eq!(plan_swaps(&clicks), vec![(0, 1)]);
    assert_eq!(count_kept(&clicks), 1);
    assert!(!swaps_fit(&plan_swaps(&clicks), 1));
    let mut timbre = timbre_of(&[1, 2]);
    assert!(!timbre.try_apply_clicks(&clicks));
    assert_eq!(tags(&timbre), vec![1, 2]);
}

#[test]
fn a_pass_of_the_wrong_length_is_refused() {
    let mut timbre = timbre_of(&[1, 2]);
    assert!(!timbre.try_apply_clicks(&vec![REMOVE]));
    assert!(!timbre.try_apply_clicks(&vec![QUIET, QUIET, QUIET]));
    assert_eq!(tags(&timbre), vec![1, 2]);
}

#[test]
fn apply_clicks_does_what_try_apply_clicks_does() {
    let clicks = vec![QUIET, REMOVE, DOWN, QUIET];
    let mut one = timbre_of(&[1, 2, 3, 4]);
    let mut other = one.clone();
    assert!(one.try_apply_clicks(&clicks));
    other.apply_clicks(&clicks);
    assert_eq!(one, other);
    assert_eq!(tags(&one), vec![1, 4, 3]);
}

#[test]
fn retain_waves_keeps_the_order() {
    let mut timbre = timbre_of(&[1, 2, 3, 4, 5]);
    timbre.retain_waves(&vec![REMOVE, QUIET, REMOVE, UP, REMOVE]);
    assert_eq!(tags(&timbre), vec![2, 4]);
    timbre.retain_waves(&vec![REMOVE, REMOVE]);
    assert!(timbre.waves.is_empty());
}

#[test]
fn swap_waves_exchanges_two_positions() {
    let mut timbre = timbre_of(&[1, 2, 3, 4]);
    timbre.swap_waves(0, 3);
    assert_eq!(tags(&timbre), vec![4, 2, 3, 1]);
    timbre.swap_waves(2, 1);
    assert_eq!(tags(&timbre), vec![4, 3, 2, 1]);
    timbre.swap_waves(2, 2);
    assert_eq!(tags(&timbre), vec![4, 3, 2, 1]);
}

#[test]
fn apply_swaps_goes_first_to_last() {
    let mut timbre = timbre_of(&[1, 2, 3]);
    timbre.apply_swaps(&vec![(0, 1), (1, 2)]);
    assert_eq!(tags(&timbre), vec![2, 3, 1]);
    timbre.apply_swaps(&vec![]);
    assert_eq!(tags(&timbre), vec![2, 3, 1]);
}

#[test]
fn swaps_fit_tests_both_positions() {
    assert!(swaps_fit(&vec![], 0));
    assert!(swaps_fit(&vec![(0, 1), (2, 1)], 3));
    assert!(!swaps_fit(&vec![(0, 1), (3, 1)], 3));
    assert!(!swaps_fit(&vec![(0, 3)], 3));
    assert!(!swaps_fit(&vec![(0, 0)], 0));
}

#[test]
fn edits_leave_the_master_envelope_alone() {
    let mut timbre = timbre_of(&[1, 2]);
    timbre.amp.extend();
    timbre.amp.set_point(1, ONE);
    let amp = timbre.amp.clone();
    timbre.add_wave();
    assert!(timbre.try_apply_clicks(&vec![DOWN, QUIET, REMOVE]));
    assert_eq!(timbre.amp, amp);
}

#[test]
fn row_clicks_none_is_quiet() {
    assert_eq!(RowClicks::none(), QUIET);
}

#[test]
fn moves_only_reorder_the_waves() {
    let both = RowClicks { up: true, down: true, remove: false };
    let mut timbre = timbre_of(&[5, 3, 5, 1, 4]);
    assert!(timbre.try_apply_clicks(&vec![DOWN, both, UP, both, UP]));
    let mut after = tags(&timbre);
    assert_eq!(after.len(), 5);
    after.sort();
    assert_eq!(after, vec![1, 3, 4, 5, 5]);
}

#[test]
fn clicks_never_invent_a_wave() {
    let before = [7u32, 8, 9, 10, 11, 12];
    for seed in 0..512u32 {
        let clicks: Vec<RowClicks> = (0..6)
            .map(|row| {
                let bits = seed.wrapping_mul(2_654_435_761).rotate_left(row * 3);
                RowClicks { up: bits & 1 != 0, down: bits & 2 != 0, remove: bits & 4 != 0 }
            })
            .collect();
        let mut timbre = timbre_of(&before);
        let kept = count_kept(&clicks);
        if timbre.try_apply_clicks(&clicks) {
            let after = tags(&timbre);
            assert_eq!(after.len(), kept);
            for tag in &after {
                assert_eq!(after.iter().filter(|t| *t == tag).count(), 1);
                assert!(before.contains(tag));
            }
            for (row, tag) in before.iter().enumerate() {
                assert_eq!(after.contains(tag), !clicks[row].remove);
            }
        } else {
            assert_eq!(tags(&timbre), before);
            assert!(!swaps_fit(&plan_swaps(&clicks), kept));
        }
    }
}
