//! The camera/IMU alignment state and the rules by which a new calibration
//! solution replaces the mounting rotation in use.
//!
//! The state is generic over the geometry it carries (sky positions `P`,
//! orientations `Q`, calibration axis pairs `A`, calibration reports `C` and
//! scalar scores `F`); the caller does the geometry and hands in the outcome
//! of each comparison.
use vstd::prelude::*;

verus! {

/// Axis pairs needed before a calibration solution counts as mature.
pub const SVD_MATURITY_SIZE: usize = 15;

/// Axis pairs kept in the calibration pool.
pub const MAX_CALIBRATION_AXES: usize = 100;

/// Error samples kept for the rolling average.
pub const MAX_ERROR_HISTORY: usize = 20;

/// A calibration upgrade is written to disk every this many upgrades.
pub const SAVE_EVERY_UPGRADES: usize = 5;

/// `v` with `x` appended, the oldest element dropped when that exceeds `cap`.
pub open spec fn bounded_push<T>(v: Seq<T>, x: T, cap: int) -> Seq<T> {
    if v.len() + 1 > cap {
        v.push(x).drop_first()
    } else {
        v.push(x)
    }
}

/// Appends `x` to `v`, then removes the oldest element if `v` is longer
/// than `cap`.
pub fn push_bounded<T>(v: &mut Vec<T>, x: T, cap: usize)
    ensures
        final(v)@ == bounded_push(old(v)@, x, cap as int),
{
    v.push(x);
    if v.len() > cap {
        let _ = v.remove(0);
    }
}

/// How a new calibration solution compares with the one in use. The caller
/// computes these from the solution's confidence and rotation.
#[derive(Clone, Copy, Debug)]
pub struct CalibrationEvidence {
    /// The solution's confidence reaches the minimum for a trusted calibration.
    pub confident: bool,
    /// The solution differs from the mounting rotation in use by more than the
    /// hardware-alteration threshold.
    pub hardware_shifted: bool,
    /// The solution's confidence is higher than the best one so far.
    pub improves: bool,
}

/// What was done with a calibration solution.
#[derive(Clone, Copy, Debug, PartialEq, Eq, Structural)]
pub enum CalibrationAction {
    /// No locked calibration yet: the solution is taken as a provisional one.
    Bootstrap,
    /// No locked calibration yet, and the solution is mature and confident
    /// enough to be locked and saved.
    BootstrapAndLock,
    /// The mounting changed physically: the locked calibration is replaced.
    HardwareReset,
    /// The solution beats the locked calibration's confidence.
    Upgrade,
    /// The locked calibration is kept.
    Coast,
}

/// The action the rules pick, given whether a calibration is locked, whether
/// the axis pool is mature, and the evidence.
pub open spec fn calibration_action(
    locked: bool,
    mature: bool,
    evidence: CalibrationEvidence,
) -> CalibrationAction {
    if !locked {
        if mature && evidence.confident {
            CalibrationAction::BootstrapAndLock
        } else {
            CalibrationAction::Bootstrap
        }
    } else if mature && evidence.confident && evidence.hardware_shifted {
        CalibrationAction::HardwareReset
    } else if evidence.improves {
        CalibrationAction::Upgrade
    } else {
        CalibrationAction::Coast
    }
}

/// What one reported plate solve does to the alignment, besides becoming the
/// new anchor.
#[derive(Clone, Copy, Debug, PartialEq, Eq, Structural)]
pub struct PointingUpdate {
    /// Add the rotation axes of the move to the calibration pool and refine
    /// the calibration.
    pub add_axes: bool,
    /// Add the pointing error of the move to the error history.
    pub record_error: bool,
    /// Report the measured pointing error; otherwise report a zero error.
    pub report_measured_error: bool,
}

/// The update for a plate solve: without an earlier anchor only a zero
/// error is reported; with one, a move beyond the pool threshold whose
/// rotation axes are defined feeds the calibration pool, a move beyond the
/// error threshold feeds the error history, and the measured error is
/// reported.
pub open spec fn pointing_update_spec(
    has_anchor: bool,
    beyond_pool_threshold: bool,
    axes_defined: bool,
    beyond_error_threshold: bool,
) -> PointingUpdate {
    if has_anchor {
        PointingUpdate {
            add_axes: beyond_pool_threshold && axes_defined,
            record_error: beyond_error_threshold,
            report_measured_error: true,
        }
    } else {
        PointingUpdate { add_axes: false, record_error: false, report_measured_error: false }
    }
}

/// Decides what a plate solve does to the alignment, from whether an anchor
/// exists and the outcomes of the caller's geometric tests (the move exceeds
/// the pool threshold, both rotation axes are defined, the move exceeds the
/// error threshold).
pub fn plan_pointing_update(
    has_anchor: bool,
    beyond_pool_threshold: bool,
    axes_defined: bool,
    beyond_error_threshold: bool,
) -> (r: PointingUpdate)
    ensures
        r == pointing_update_spec(
            has_anchor,
            beyond_pool_threshold,
            axes_defined,
            beyond_error_threshold,
        ),
{
    if has_anchor {
        PointingUpdate {
            add_axes: beyond_pool_threshold && axes_defined,
            record_error: beyond_error_threshold,
            report_measured_error: true,
        }
    } else {
        PointingUpdate { add_axes: false, record_error: false, report_measured_error: false }
    }
}

/// Alignment between the camera and the IMU.
pub struct AlignmentState<P, Q, A, C, F> {
    /// Camera pointing of the most recent plate solve.
    pub last_camera_position: Option<P>,
    /// IMU orientation at the time of that plate solve.
    pub imu_anchor_state: Option<Q>,
    /// Mounting rotation of the IMU relative to the camera.
    pub mount_q: Q,
    /// The latest calibration report.
    pub transform_calibration: Option<C>,
    /// Pairs of rotation axes (camera, IMU) from distinct movements.
    pub calibration_axes: Vec<A>,
    /// The mounting rotation is locked (loaded from disk or proven confident).
    pub loaded_from_disk: bool,
    /// Confidence of the mounting rotation in use.
    pub best_calibration_confidence: F,
    /// Upgrades since the calibration was last written to disk.
    pub calibration_updates_since_save: usize,
    /// Recent expected-versus-true pointing errors.
    pub error_history: Vec<F>,
}

impl<P, Q, A, C, F> AlignmentState<P, Q, A, C, F> {
    /// A fresh state with the given mounting rotation and confidence, no
    /// anchors and an empty calibration pool.
    pub fn new(mount_q: Q, confidence: F, loaded_from_disk: bool) -> (s: Self)
        ensures
            s.last_camera_position is None,
            s.imu_anchor_state is None,
            s.mount_q == mount_q,
            s.transform_calibration is None,
            s.calibration_axes@.len() == 0,
            s.loaded_from_disk == loaded_from_disk,
            s.best_calibration_confidence == confidence,
            s.calibration_updates_since_save == 0,
            s.error_history@.len() == 0,
    {
        AlignmentState {
            last_camera_position: None,
            imu_anchor_state: None,
            mount_q,
            transform_calibration: None,
            calibration_axes: Vec::new(),
            loaded_from_disk,
            best_calibration_confidence: confidence,
            calibration_updates_since_save: 0,
            error_history: Vec::new(),
        }
    }

    /// Clears the session anchors, the calibration report and the error
    /// history; keeps the calibration pool, the mounting rotation and its
    /// locked status.
    pub fn reset(&mut self)
        ensures
            final(self).last_camera_position is None,
            final(self).imu_anchor_state is None,
            final(self).transform_calibration is None,
            final(self).error_history@.len() == 0,
            final(self).mount_q == old(self).mount_q,
            final(self).calibration_axes@ == old(self).calibration_axes@,
            final(self).loaded_from_disk == old(self).loaded_from_disk,
            final(self).best_calibration_confidence == old(self).best_calibration_confidence,
            final(self).calibration_updates_since_save == old(
                self,
            ).calibration_updates_since_save,
    {
        self.last_camera_position = None;
        self.imu_anchor_state = None;
        self.transform_calibration = None;
        self.error_history.clear();
    }

    /// Locks in a plate solve and the IMU orientation at its time as the new
    /// anchor.
    pub fn set_anchor(&mut self, position: P, imu_q: Q)
        ensures
            final(self).last_camera_position == Some(position),
            final(self).imu_anchor_state == Some(imu_q),
            final(self).mount_q == old(self).mount_q,
            final(self).transform_calibration == old(self).transform_calibration,
            final(self).calibration_axes@ == old(self).calibration_axes@,
            final(self).loaded_from_disk == old(self).loaded_from_disk,
            final(self).best_calibration_confidence == old(self).best_calibration_confidence,
            final(self).calibration_updates_since_save == old(
                self,
            ).calibration_updates_since_save,
            final(self).error_history@ == old(self).error_history@,
    {
        self.last_camera_position = Some(position);
        self.imu_anchor_state = Some(imu_q);
    }

    /// The anchor of the last plate solve: its camera pointing and the IMU
    /// orientation at its time, when both are set.
    pub fn anchor(&self) -> (r: Option<(&P, &Q)>)
        ensures
            match r {
                Some((p, q)) => self.last_camera_position == Some(*p) && self.imu_anchor_state
                    == Some(*q),
                None => self.last_camera_position is None || self.imu_anchor_state is None,
            },
    {
        match (&self.last_camera_position, &self.imu_anchor_state) {
            (Some(p), Some(q)) => Some((p, q)),
            _ => None,
        }
    }

    /// Adds an axis pair to the calibration pool, keeping the newest
    /// `MAX_CALIBRATION_AXES`.
    pub fn add_calibration_axes(&mut self, axes: A)
        ensures
            final(self).calibration_axes@ == bounded_push(
                old(self).calibration_axes@,
                axes,
                MAX_CALIBRATION_AXES as int,
            ),
            final(self).last_camera_position == old(self).last_camera_position,
            final(self).imu_anchor_state == old(self).imu_anchor_state,
            final(self).mount_q == old(self).mount_q,
            final(self).transform_calibration == old(self).transform_calibration,
            final(self).loaded_from_disk == old(self).loaded_from_disk,
            final(self).best_calibration_confidence == old(self).best_calibration_confidence,
            final(self).calibration_updates_since_save == old(
                self,
            ).calibration_updates_since_save,
            final(self).error_history@ == old(self).error_history@,
    {
        push_bounded(&mut self.calibration_axes, axes, MAX_CALIBRATION_AXES);
    }

    /// Adds a pointing error to the rolling history, keeping the newest
    /// `MAX_ERROR_HISTORY`.
    pub fn add_error_sample(&mut self, error: F)
        ensures
            final(self).error_history@ == bounded_push(
                old(self).error_history@,
                error,
                MAX_ERROR_HISTORY as int,
            ),
            final(self).last_camera_position == old(self).last_camera_position,
            final(self).imu_anchor_state == old(self).imu_anchor_state,
            final(self).mount_q == old(self).mount_q,
            final(self).transform_calibration == old(self).transform_calibration,
            final(self).calibration_axes@ == old(self).calibration_axes@,
            final(self).loaded_from_disk == old(self).loaded_from_disk,
            final(self).best_calibration_confidence == old(self).best_calibration_confidence,
            final(self).calibration_updates_since_save == old(
                self,
            ).calibration_updates_since_save,
    {
        push_bounded(&mut self.error_history, error, MAX_ERROR_HISTORY);
    }

    /// Records the latest calibration report.
    pub fn set_transform_calibration(&mut self, report: C)
        ensures
            final(self).transform_calibration == Some(report),
            final(self).last_camera_position == old(self).last_camera_position,
            final(self).imu_anchor_state == old(self).imu_anchor_state,
            final(self).mount_q == old(self).mount_q,
            final(self).calibration_axes@ == old(self).calibration_axes@,
            final(self).loaded_from_disk == old(self).loaded_from_disk,
            final(self).best_calibration_confidence == old(self).best_calibration_confidence,
            final(self).calibration_updates_since_save == old(
                self,
            ).calibration_updates_since_save,
            final(self).error_history@ == old(self).error_history@,
    {
        self.transform_calibration = Some(report);
    }

    /// Applies a new calibration solution (`solution`, scored `confidence`)
    /// by the calibration rules. Returns the action taken and whether the
    /// mounting rotation now in use is to be written to disk.
    pub fn apply_calibration_solution(
        &mut self,
        solution: Q,
        confidence: F,
        evidence: CalibrationEvidence,
    ) -> (r: (CalibrationAction, bool))
        requires
            old(self).calibration_updates_since_save < usize::MAX,
        ensures
            ({
                let action = calibration_action(
                    old(self).loaded_from_disk,
                    old(self).calibration_axes@.len() >= SVD_MATURITY_SIZE,
                    evidence,
                );
                let adopted = action != CalibrationAction::Coast;
                let updates = if action == CalibrationAction::Upgrade {
                    old(self).calibration_updates_since_save + 1
                } else {
                    old(self).calibration_updates_since_save as int
                };
                &&& r.0 == action
                &&& r.1 == (action == CalibrationAction::BootstrapAndLock || action
                    == CalibrationAction::HardwareReset || (action == CalibrationAction::Upgrade
                    && updates % (SAVE_EVERY_UPGRADES as int) == 0))
                &&& final(self).mount_q == (if adopted {
                    solution
                } else {
                    old(self).mount_q
                })
                &&& final(self).best_calibration_confidence == (if adopted {
                    confidence
                } else {
                    old(self).best_calibration_confidence
                })
                &&& final(self).loaded_from_disk == (old(self).loaded_from_disk || action
                    == CalibrationAction::BootstrapAndLock)
                &&& final(self).calibration_updates_since_save == updates
            }),
            final(self).last_camera_position == old(self).last_camera_position,
            final(self).imu_anchor_state == old(self).imu_anchor_state,
            final(self).transform_calibration == old(self).transform_calibration,
            final(self).calibration_axes@ == old(self).calibration_axes@,
            final(self).error_history@ == old(self).error_history@,
            !old(self).loaded_from_disk ==> {
                let lock = old(self).calibration_axes@.len() >= 15 && evidence.confident;
                &&& r == (if lock {
                    (CalibrationAction::BootstrapAndLock, true)
                } else {
                    (CalibrationAction::Bootstrap, false)
                })
                &&& final(self).mount_q == solution
                &&& final(self).best_calibration_confidence == confidence
                &&& final(self).loaded_from_disk == lock
                &&& final(self).calibration_updates_since_save
                    == old(self).calibration_updates_since_save
            },
            old(self).loaded_from_disk && old(self).calibration_axes@.len() >= 15
                && evidence.confident && evidence.hardware_shifted ==> {
                &&& r == (CalibrationAction::HardwareReset, true)
                &&& final(self).mount_q == solution
                &&& final(self).best_calibration_confidence == confidence
                &&& final(self).loaded_from_disk
                &&& final(self).calibration_updates_since_save
                    == old(self).calibration_updates_since_save
            },
            old(self).loaded_from_disk && !(old(self).calibration_axes@.len() >= 15
                && evidence.confident && evidence.hardware_shifted) && evidence.improves ==> {
                &&& r.0 == CalibrationAction::Upgrade
                &&& final(self).calibration_updates_since_save
                    == old(self).calibration_updates_since_save + 1
                &&& r.1 == ((old(self).calibration_updates_since_save + 1) % 5 == 0)
                &&& final(self).mount_q == solution
                &&& final(self).best_calibration_confidence == confidence
                &&& final(self).loaded_from_disk
            },
            old(self).loaded_from_disk && !(old(self).calibration_axes@.len() >= 15
                && evidence.confident && evidence.hardware_shifted) && !evidence.improves ==> {
                &&& r == (CalibrationAction::Coast, false)
                &&& final(self).mount_q == old(self).mount_q
                &&& final(self).best_calibration_confidence == old(
                    self,
                ).best_calibration_confidence
                &&& final(self).loaded_from_disk
                &&& final(self).calibration_updates_since_save
                    == old(self).calibration_updates_since_save
            },
    {
        let is_mature = self.calibration_axes.len() >= SVD_MATURITY_SIZE;
        let hardware_altered = is_mature && evidence.confident && evidence.hardware_shifted;
        if !self.loaded_from_disk {
            self.mount_q = solution;
            self.best_calibration_confidence = confidence;
            if is_mature && evidence.confident {
                self.loaded_from_disk = true;
                (CalibrationAction::BootstrapAndLock, true)
            } else {
                (CalibrationAction::Bootstrap, false)
            }
        } else if hardware_altered {
            self.mount_q = solution;
            self.best_calibration_confidence = confidence;
            (CalibrationAction::HardwareReset, true)
        } else if evidence.improves {
            self.mount_q = solution;
            self.best_calibration_confidence = confidence;
            self.calibration_updates_since_save += 1;
            let save = self.calibration_updates_since_save % SAVE_EVERY_UPGRADES == 0;
            (CalibrationAction::Upgrade, save)
        } else {
            (CalibrationAction::Coast, false)
        }
    }
}

} // verus!
