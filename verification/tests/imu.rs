use cypress_astro::alignment::{
    plan_pointing_update, push_bounded, PointingUpdate, AlignmentState, CalibrationAction, CalibrationEvidence, MAX_CALIBRATION_AXES,
    MAX_ERROR_HISTORY,
};
use cypress_astro::imu_history::{
    current_tracker_state, tracker_state_for_motion, zero_bias_reported, ImuHistory, MotionState,
    PollTimers, TrackerState, HISTORY_CAPACITY,
};
use cypress_astro::ImuRotationMode;

const MOVING: TrackerState = TrackerState::Moving;
const MOTIONLESS: TrackerState = TrackerState::Motionless;
const LOST: TrackerState = TrackerState::Lost;
const SEC: u128 = 1_000_000_000;
const MS: u128 = 1_000_000;

fn history(states: &[TrackerState], start: u128) -> ImuHistory<usize> {
    let mut h = ImuHistory::new();
    for (i, s) in states.iter().enumerate() {
        h.record(start + (i as u128) * 10 * MS, i, *s);
    }
    h
}

#[test]
fn history_keeps_the_newest_three_hundred() {
    let mut h: ImuHistory<u32> = ImuHistory::new();
    for i in 0..350u32 {
        h.record(i as u128 * 10 * MS, i, MOTIONLESS);
    }
    assert_eq!(h.len(), HISTORY_CAPACITY);
    // The oldest sample left is number 50.
    assert_eq!(h.nearest_sample(0), Some(&50));
    assert_eq!(h.nearest_sample(349 * 10 * MS), Some(&349));
}

#[test]
fn empty_history_answers_nothing() {
    let h: ImuHistory<u32> = ImuHistory::new();
    assert_eq!(h.nearest_sample(5), None);
    assert_eq!(h.post_slew_sample(5), None);
}

#[test]
fn nearest_sample_prefers_the_earlier_of_equal_gaps() {
    let mut h: ImuHistory<u32> = ImuHistory::new();
    h.record(100 * MS, 1, MOTIONLESS);
    h.record(120 * MS, 2, MOTIONLESS);
    assert_eq!(h.nearest_sample(110 * MS), Some(&1));
    assert_eq!(h.nearest_sample(111 * MS), Some(&2));
}

#[test]
fn plate_solve_older_than_history_is_rejected() {
    let mut h: ImuHistory<u32> = ImuHistory::new();
    h.record(10 * SEC, 1, MOTIONLESS);
    assert_eq!(h.nearest_sample(8 * SEC - 1), None);
    assert_eq!(h.nearest_sample(8 * SEC), Some(&1));
}

#[test]
fn sample_too_far_away_is_rejected() {
    let mut h: ImuHistory<u32> = ImuHistory::new();
    h.record(10 * SEC, 1, MOTIONLESS);
    assert_eq!(h.nearest_sample(15 * SEC), Some(&1));
    assert_eq!(h.nearest_sample(15 * SEC + 1), None);
    assert_eq!(h.post_slew_sample(15 * SEC + 1), None);
}

#[test]
fn solve_during_slew_moves_to_settled_frame() {
    let mut states = vec![MOVING; 5];
    states.extend(vec![MOTIONLESS; 30]);
    let h = history(&states, 0);
    // Target at frame 2 (moving): first motionless frame is 5, plus 15 settle frames.
    assert_eq!(h.post_slew_sample(20 * MS), Some(&20));
}

#[test]
fn solve_during_stillness_goes_back_to_end_of_slew() {
    let mut states = vec![MOTIONLESS; 3];
    states.extend(vec![MOVING; 4]);
    states.extend(vec![MOTIONLESS; 40]);
    let h = history(&states, 0);
    // Target at frame 40: the last moving frame is 6, so frame 7 + 15 = 22.
    assert_eq!(h.post_slew_sample(400 * MS), Some(&22));
}

#[test]
fn settling_past_the_newest_frame_takes_the_newest() {
    let mut states = vec![MOVING; 3];
    states.extend(vec![MOTIONLESS; 4]);
    let h = history(&states, 0);
    assert_eq!(h.post_slew_sample(0), Some(&6));
}

#[test]
fn still_history_without_slew_keeps_the_nearest() {
    let h = history(&vec![MOTIONLESS; 10], 0);
    assert_eq!(h.post_slew_sample(40 * MS), Some(&4));
}

#[test]
fn moving_without_rest_keeps_the_nearest() {
    let h = history(&vec![MOVING; 10], 0);
    assert_eq!(h.post_slew_sample(40 * MS), Some(&4));
}

#[test]
fn poll_timers_classify_and_watch() {
    let mut t = PollTimers::new(0);
    assert_eq!(t.on_sample(SEC, true), LOST);
    assert_eq!(t.on_sample(3 * SEC, true), MOVING);
    assert_eq!(t.on_sample(3 * SEC + 1, false), MOTIONLESS);
    assert!(!t.on_silence(5 * SEC));
    assert!(t.on_silence(5 * SEC + 2));
    assert_eq!(t.last_msg_nanos, 5 * SEC + 2);
    assert!(!t.on_silence(6 * SEC));
    // A clock that goes backwards counts as no time elapsed.
    assert!(!t.on_silence(0));
}

#[test]
fn tracker_state_reports() {
    assert_eq!(tracker_state_for_motion(MotionState::Initializing), LOST);
    assert_eq!(tracker_state_for_motion(MotionState::Moving), MOVING);
    assert_eq!(tracker_state_for_motion(MotionState::Stable), MOTIONLESS);
    assert_eq!(current_tracker_state(None), LOST);
    assert_eq!(current_tracker_state(Some(MOVING)), MOVING);
    assert!(!zero_bias_reported(LOST));
    assert!(zero_bias_reported(MOTIONLESS));
}

#[test]
fn rotation_modes_are_distinct() {
    assert_ne!(ImuRotationMode::Standard, ImuRotationMode::Game);
    assert_eq!(ImuRotationMode::ArvrStabilizedGame, ImuRotationMode::ArvrStabilizedGame);
}

#[test]
fn mode_numbers_select_rotation_modes() {
    assert_eq!(ImuRotationMode::from_mode_number(1), Some(ImuRotationMode::Standard));
    assert_eq!(ImuRotationMode::from_mode_number(2), Some(ImuRotationMode::Game));
    assert_eq!(ImuRotationMode::from_mode_number(3), Some(ImuRotationMode::ArvrStabilized));
    assert_eq!(ImuRotationMode::from_mode_number(4), Some(ImuRotationMode::ArvrStabilizedGame));
    assert_eq!(ImuRotationMode::from_mode_number(0), None);
    assert_eq!(ImuRotationMode::from_mode_number(5), None);
}

type State = AlignmentState<&'static str, u32, u32, &'static str, u32>;

fn evidence(confident: bool, hardware_shifted: bool, improves: bool) -> CalibrationEvidence {
    CalibrationEvidence { confident, hardware_shifted, improves }
}

#[test]
fn bootstrap_follows_every_solution_until_locked() {
    let mut s: State = AlignmentState::new(0, 0, false);
    let (action, save) = s.apply_calibration_solution(7, 3, evidence(true, false, true));
    assert_eq!(action, CalibrationAction::Bootstrap);
    assert!(!save);
    assert_eq!(s.mount_q, 7);
    assert!(!s.loaded_from_disk);
    for i in 0..15 {
        s.add_calibration_axes(i);
    }
    let (action, save) = s.apply_calibration_solution(8, 4, evidence(false, false, true));
    assert_eq!(action, CalibrationAction::Bootstrap);
    assert!(!save);
    let (action, save) = s.apply_calibration_solution(9, 5, evidence(true, false, false));
    assert_eq!(action, CalibrationAction::BootstrapAndLock);
    assert!(save);
    assert!(s.loaded_from_disk);
    assert_eq!((s.mount_q, s.best_calibration_confidence), (9, 5));
}

#[test]
fn locked_calibration_rules() {
    let mut s: State = AlignmentState::new(1, 50, true);
    // Not mature: a shifted, confident solution is no hardware change, and it does not improve.
    let (action, _) = s.apply_calibration_solution(2, 40, evidence(true, true, false));
    assert_eq!(action, CalibrationAction::Coast);
    assert_eq!(s.mount_q, 1);
    for i in 0..15 {
        s.add_calibration_axes(i);
    }
    let (action, save) = s.apply_calibration_solution(3, 40, evidence(true, true, false));
    assert_eq!(action, CalibrationAction::HardwareReset);
    assert!(save);
    assert_eq!((s.mount_q, s.best_calibration_confidence), (3, 40));
    // Upgrades are saved every fifth time.
    for k in 1..=5u32 {
        let (action, save) = s.apply_calibration_solution(10 + k, 40 + k, evidence(false, false, true));
        assert_eq!(action, CalibrationAction::Upgrade);
        assert_eq!(save, k == 5);
    }
    assert_eq!(s.calibration_updates_since_save, 5);
    assert_eq!(s.mount_q, 15);
}

#[test]
fn reset_clears_session_but_keeps_calibration() {
    let mut s: State = AlignmentState::new(4, 60, true);
    s.set_anchor("pointing", 11);
    s.add_calibration_axes(1);
    s.add_error_sample(3);
    s.set_transform_calibration("report");
    assert_eq!(s.anchor(), Some((&"pointing", &11)));
    s.reset();
    assert_eq!(s.anchor(), None);
    assert!(s.transform_calibration.is_none());
    assert!(s.error_history.is_empty());
    assert_eq!(s.calibration_axes, vec![1]);
    assert_eq!(s.mount_q, 4);
    assert!(s.loaded_from_disk);
    assert_eq!(s.best_calibration_confidence, 60);
}

#[test]
fn windows_keep_their_capacity() {
    let mut s: State = AlignmentState::new(0, 0, false);
    for i in 0..(MAX_CALIBRATION_AXES as u32 + 5) {
        s.add_calibration_axes(i);
    }
    assert_eq!(s.calibration_axes.len(), MAX_CALIBRATION_AXES);
    assert_eq!(s.calibration_axes[0], 5);
    for i in 0..(MAX_ERROR_HISTORY as u32 + 1) {
        s.add_error_sample(i);
    }
    assert_eq!(s.error_history.len(), MAX_ERROR_HISTORY);
    assert_eq!(*s.error_history.last().unwrap(), MAX_ERROR_HISTORY as u32);
    let mut v = vec![1, 2];
    push_bounded(&mut v, 3, 2);
    assert_eq!(v, vec![2, 3]);
}

#[test]
fn pointing_updates() {
    let first = plan_pointing_update(false, true, true, true);
    assert_eq!(
        first,
        PointingUpdate { add_axes: false, record_error: false, report_measured_error: false }
    );
    let small = plan_pointing_update(true, false, true, false);
    assert_eq!(
        small,
        PointingUpdate { add_axes: false, record_error: false, report_measured_error: true }
    );
    let medium = plan_pointing_update(true, true, true, false);
    assert_eq!(
        medium,
        PointingUpdate { add_axes: true, record_error: false, report_measured_error: true }
    );
    let no_axes = plan_pointing_update(true, true, false, true);
    assert_eq!(
        no_axes,
        PointingUpdate { add_axes: false, record_error: true, report_measured_error: true }
    );
}
