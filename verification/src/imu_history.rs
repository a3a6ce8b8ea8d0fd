//! The IMU sample history and the decisions of the sensor polling loop:
//! motion classification, the hardware watchdog, the bounded history buffer,
//! and the lookup of the sample that belongs to a plate-solve timestamp.
use vstd::prelude::*;
use std::collections::VecDeque;

verus! {

/// Motion state of the sensor, as reported to the telescope engine.
#[derive(Clone, Copy, Debug, PartialEq, Eq, Structural)]
pub enum TrackerState {
    Lost,
    Moving,
    Motionless,
}

/// Samples kept: three seconds at 100 Hz.
pub const HISTORY_CAPACITY: usize = 300;

/// Frames to wait after movement stops, for the gravity vector to settle.
pub const SETTLE_FRAMES: usize = 15;

pub const NANOS_PER_SECOND: u128 = 1_000_000_000;

/// How far a plate solve may precede the oldest sample: two seconds.
pub const HISTORY_EXPIRY_NANOS: u128 = 2_000_000_000;

/// How far the nearest sample may be from a plate solve: five seconds.
pub const MAX_SAMPLE_OFFSET_NANOS: u128 = 5_000_000_000;

/// Silence after which the sensor is sent its enable command again: two seconds.
pub const WATCHDOG_NANOS: u128 = 2_000_000_000;

/// Time after start during which the sensor counts as lost: three seconds.
pub const WARM_UP_NANOS: u128 = 3_000_000_000;

/// The starting "nearest offset" of the search: `u64::MAX` seconds.
pub const NO_OFFSET_NANOS: u128 = 18_446_744_073_709_551_615_000_000_000;

/// One sample: when it was taken (nanoseconds since the Unix epoch), the
/// orientation, and the motion state at that time.
pub struct ImuSample<Q> {
    pub time_nanos: u128,
    pub quat: Q,
    pub state: TrackerState,
}

/// Time elapsed from `earlier` to `later`, zero when `later` is not later.
pub open spec fn elapsed(earlier: u128, later: u128) -> int {
    if later > earlier {
        later - earlier
    } else {
        0
    }
}

/// The motion state of a fresh sample: lost while warming up, moving when the
/// sensor turns faster than the motion threshold, motionless otherwise.
pub open spec fn spec_classify_motion(warming_up: bool, rotating_fast: bool) -> TrackerState {
    if warming_up {
        TrackerState::Lost
    } else if rotating_fast {
        TrackerState::Moving
    } else {
        TrackerState::Motionless
    }
}

/// Timers of the polling loop: when the loop started and when the sensor last
/// delivered a usable sample.
pub struct PollTimers {
    pub boot_nanos: u128,
    pub last_msg_nanos: u128,
}

impl PollTimers {
    pub fn new(now_nanos: u128) -> (t: Self)
        ensures
            t.boot_nanos == now_nanos,
            t.last_msg_nanos == now_nanos,
    {
        PollTimers { boot_nanos: now_nanos, last_msg_nanos: now_nanos }
    }

    /// A usable sample arrived at `now_nanos`: the watchdog is kicked and the
    /// sample is classified (`rotating_fast` is whether the angular rate is
    /// above the motion threshold).
    pub fn on_sample(&mut self, now_nanos: u128, rotating_fast: bool) -> (state: TrackerState)
        ensures
            final(self).boot_nanos == old(self).boot_nanos,
            final(self).last_msg_nanos == now_nanos,
            state == spec_classify_motion(
                elapsed(old(self).boot_nanos, now_nanos) < WARM_UP_NANOS,
                rotating_fast,
            ),
            now_nanos < old(self).boot_nanos + WARM_UP_NANOS ==> state == TrackerState::Lost,
            now_nanos >= old(self).boot_nanos + WARM_UP_NANOS ==> state == (if rotating_fast {
                TrackerState::Moving
            } else {
                TrackerState::Motionless
            }),
    {
        let elapsed_since_boot = if now_nanos > self.boot_nanos {
            now_nanos - self.boot_nanos
        } else {
            0
        };
        self.last_msg_nanos = now_nanos;
        let warming_up = elapsed_since_boot < WARM_UP_NANOS;
        if warming_up {
            TrackerState::Lost
        } else if rotating_fast {
            TrackerState::Moving
        } else {
            TrackerState::Motionless
        }
    }

    /// A poll at `now_nanos` brought no message. Returns whether the sensor has
    /// been silent for more than the watchdog time; if so the enable command is
    /// to be re-sent and the watchdog restarts at `now_nanos`.
    pub fn on_silence(&mut self, now_nanos: u128) -> (revive: bool)
        ensures
            revive == (elapsed(old(self).last_msg_nanos, now_nanos) > WATCHDOG_NANOS),
            final(self).boot_nanos == old(self).boot_nanos,
            final(self).last_msg_nanos == (if revive {
                now_nanos
            } else {
                old(self).last_msg_nanos
            }),
    {
        let silent = if now_nanos > self.last_msg_nanos {
            now_nanos - self.last_msg_nanos
        } else {
            0
        };
        if silent > WATCHDOG_NANOS {
            self.last_msg_nanos = now_nanos;
            true
        } else {
            false
        }
    }
}

/// Gap between a sample time and the requested time.
pub open spec fn time_gap(a: u128, b: u128) -> int {
    if a > b {
        a - b
    } else {
        b - a
    }
}

/// The nearest of the first `n` samples to `target` and its gap: a later
/// sample replaces the current choice only when it is strictly nearer.
pub open spec fn nearest_upto<Q>(s: Seq<ImuSample<Q>>, target: u128, n: int) -> (int, int)
    decreases n,
{
    if n <= 0 {
        (0, NO_OFFSET_NANOS as int)
    } else {
        let (c, m) = nearest_upto(s, target, n - 1);
        let d = time_gap(s[n - 1].time_nanos, target);
        if d < m {
            (n - 1, d)
        } else {
            (c, m)
        }
    }
}

proof fn lemma_nearest_upto_in_range<Q>(s: Seq<ImuSample<Q>>, target: u128, n: int)
    requires
        n >= 1,
    ensures
        0 <= nearest_upto(s, target, n).0 < n,
    decreases n,
{
    assert(nearest_upto(s, target, 0) == (0int, NO_OFFSET_NANOS as int));
    if n > 1 {
        lemma_nearest_upto_in_range(s, target, n - 1);
    }
}

/// The plate solve precedes the oldest sample by more than the expiry time.
pub open spec fn history_expired<Q>(s: Seq<ImuSample<Q>>, target: u128) -> bool {
    target < s[0].time_nanos && s[0].time_nanos - target > HISTORY_EXPIRY_NANOS
}

/// Index of the sample that matches `target`, if the history can answer.
pub open spec fn nearest_index<Q>(s: Seq<ImuSample<Q>>, target: u128) -> Option<int> {
    if s.len() == 0 || history_expired(s, target) {
        None
    } else {
        let (c, m) = nearest_upto(s, target, s.len() as int);
        if m > MAX_SAMPLE_OFFSET_NANOS {
            None
        } else {
            Some(c)
        }
    }
}

/// First motionless sample at or after `i`.
pub open spec fn first_motionless_from<Q>(s: Seq<ImuSample<Q>>, i: int) -> Option<int>
    decreases s.len() - i,
{
    if i < 0 || i >= s.len() {
        None
    } else if s[i].state == TrackerState::Motionless {
        Some(i)
    } else {
        first_motionless_from(s, i + 1)
    }
}

/// Last moving sample before `i`.
pub open spec fn last_moving_before<Q>(s: Seq<ImuSample<Q>>, i: int) -> Option<int>
    decreases i,
{
    if i <= 0 {
        None
    } else if s[i - 1].state == TrackerState::Moving {
        Some(i - 1)
    } else {
        last_moving_before(s, i - 1)
    }
}

/// The sample that marks the end of the slew around sample `c`, before the
/// bound check: if `c` is moving, the first motionless sample after it plus the
/// settling frames; otherwise the sample after the last moving one plus the
/// settling frames; `c` itself when there is no such sample.
pub open spec fn settled_index<Q>(s: Seq<ImuSample<Q>>, c: int) -> int {
    if s[c].state == TrackerState::Moving {
        match first_motionless_from(s, c) {
            Some(i) => i + SETTLE_FRAMES,
            None => c,
        }
    } else {
        match last_moving_before(s, c) {
            Some(i) => i + 1 + SETTLE_FRAMES,
            None => c,
        }
    }
}

/// The settled sample for `target`, moved back to the newest sample when the
/// settling period runs past the end of the history.
pub open spec fn post_slew_index<Q>(s: Seq<ImuSample<Q>>, target: u128) -> Option<int> {
    match nearest_index(s, target) {
        Some(c) => {
            let sel = settled_index(s, c);
            Some(
                if sel >= s.len() {
                    s.len() - 1
                } else {
                    sel
                },
            )
        },
        None => None,
    }
}

/// The most recent samples of the IMU, oldest first, at most
/// `HISTORY_CAPACITY` of them.
pub struct ImuHistory<Q> {
    samples: VecDeque<ImuSample<Q>>,
}

impl<Q> ImuHistory<Q> {
    #[verifier::type_invariant]
    spec fn bounded(self) -> bool {
        self.samples@.len() <= HISTORY_CAPACITY
    }
}

impl<Q> View for ImuHistory<Q> {
    type V = Seq<ImuSample<Q>>;

    closed spec fn view(&self) -> Seq<ImuSample<Q>> {
        self.samples@
    }
}

impl<Q> ImuHistory<Q> {
    pub fn new() -> (h: Self)
        ensures
            h@ == Seq::<ImuSample<Q>>::empty(),
    {
        ImuHistory { samples: VecDeque::with_capacity(HISTORY_CAPACITY) }
    }

    pub fn len(&self) -> (n: usize)
        ensures
            n == self@.len(),
            n <= HISTORY_CAPACITY,
    {
        proof {
            use_type_invariant(self);
        }
        self.samples.len()
    }

    /// Appends a sample; when that makes the history longer than its capacity,
    /// the oldest sample is dropped.
    pub fn record(&mut self, time_nanos: u128, quat: Q, state: TrackerState)
        ensures
            final(self)@.len() <= HISTORY_CAPACITY,
            final(self)@ == (if old(self)@.len() == HISTORY_CAPACITY {
                old(self)@.push(ImuSample { time_nanos, quat, state }).drop_first()
            } else {
                old(self)@.push(ImuSample { time_nanos, quat, state })
            }),
    {
        proof {
            use_type_invariant(&*self);
        }
        let mut samples: VecDeque<ImuSample<Q>> = VecDeque::new();
        std::mem::swap(&mut samples, &mut self.samples);
        if samples.len() == HISTORY_CAPACITY {
            let _ = samples.pop_front();
        }
        samples.push_back(ImuSample { time_nanos, quat, state });
        self.samples = samples;
    }

    fn nearest(&self, target_nanos: u128) -> (r: Option<usize>)
        ensures
            match nearest_index(self@, target_nanos) {
                Some(c) => r == Some(c as usize) && 0 <= c < self@.len(),
                None => r is None,
            },
    {
        let n = self.samples.len();
        if n == 0 {
            return None;
        }
        let oldest = self.samples[0].time_nanos;
        if target_nanos < oldest && oldest - target_nanos > HISTORY_EXPIRY_NANOS {
            return None;
        }
        let mut closest: usize = 0;
        let mut min_gap: u128 = NO_OFFSET_NANOS;
        let mut i: usize = 0;
        while i < n
            invariant
                n == self@.len(),
                i <= n,
                (closest as int, min_gap as int) == nearest_upto(self@, target_nanos, i as int),
            decreases n - i,
        {
            let t = self.samples[i].time_nanos;
            let gap = if t > target_nanos {
                t - target_nanos
            } else {
                target_nanos - t
            };
            if gap < min_gap {
                min_gap = gap;
                closest = i;
            }
            i += 1;
        }
        proof {
            lemma_nearest_upto_in_range(self@, target_nanos, n as int);
        }
        if min_gap > MAX_SAMPLE_OFFSET_NANOS {
            None
        } else {
            Some(closest)
        }
    }

    /// The orientation of the sample nearest to `target_nanos`, or `None`
    /// when the history is empty, has expired for that time, or has no sample
    /// within the allowed offset.
    pub fn nearest_sample(&self, target_nanos: u128) -> (r: Option<&Q>)
        ensures
            match nearest_index(self@, target_nanos) {
                Some(c) => r == Some(&self@[c].quat),
                None => r is None,
            },
    {
        match self.nearest(target_nanos) {
            Some(c) => Some(&self.samples[c].quat),
            None => None,
        }
    }

    /// The orientation at the end of the slew that brought the mount to the
    /// plate-solved position (state-bracketed extraction with settling).
    pub fn post_slew_sample(&self, target_nanos: u128) -> (r: Option<&Q>)
        ensures
            match post_slew_index(self@, target_nanos) {
                Some(c) => 0 <= c < self@.len() && r == Some(&self@[c].quat),
                None => r is None,
            },
    {
        proof {
            use_type_invariant(self);
        }
        let closest = match self.nearest(target_nanos) {
            Some(c) => c,
            None => {
                return None;
            },
        };
        let n = self.samples.len();
        let mut selected = closest;
        if self.samples[closest].state == TrackerState::Moving {
            let mut i = closest;
            let mut found = false;
            while i < n && !found
                invariant
                    n == self@.len(),
                    n <= HISTORY_CAPACITY,
                    closest <= i <= n,
                    closest < n,
                    !found ==> selected == closest && first_motionless_from(self@, closest as int)
                        == first_motionless_from(self@, i as int),
                    found ==> first_motionless_from(self@, closest as int) == Some(i as int)
                        && selected == i + SETTLE_FRAMES,
                decreases 2 * (n - i) + (if found { 0int } else { 1int }),
            {
                if self.samples[i].state == TrackerState::Motionless {
                    selected = i + SETTLE_FRAMES;
                    found = true;
                } else {
                    i += 1;
                }
            }
        } else {
            let mut i = closest;
            let mut found = false;
            while i > 0 && !found
                invariant
                    i <= closest < n,
                    n == self@.len(),
                    n <= HISTORY_CAPACITY,
                    !found ==> selected == closest && last_moving_before(self@, closest as int)
                        == last_moving_before(self@, i as int),
                    found ==> last_moving_before(self@, closest as int) == Some(i - 1)
                        && selected == i + SETTLE_FRAMES,
                decreases 2 * i + (if found { 0int } else { 1int }),
            {
                if self.samples[i - 1].state == TrackerState::Moving {
                    selected = i + SETTLE_FRAMES;
                    found = true;
                } else {
                    i -= 1;
                }
            }
        }
        if selected >= n {
            selected = n - 1;
        }
        Some(&self.samples[selected].quat)
    }
}

/// Motion state as the generic IMU engine reports it.
#[derive(Clone, Copy, Debug, PartialEq, Eq, Structural)]
pub enum MotionState {
    Initializing,
    Moving,
    Stable,
}

/// The tracker state reported for an engine motion state: an initializing
/// engine counts as lost, a stable one as motionless.
pub fn tracker_state_for_motion(m: MotionState) -> (r: TrackerState)
    ensures
        r == (match m {
            MotionState::Initializing => TrackerState::Lost,
            MotionState::Moving => TrackerState::Moving,
            MotionState::Stable => TrackerState::Motionless,
        }),
{
    match m {
        MotionState::Initializing => TrackerState::Lost,
        MotionState::Moving => TrackerState::Moving,
        MotionState::Stable => TrackerState::Motionless,
    }
}

/// The tracker state of the latest sample, lost when there is none yet.
pub fn current_tracker_state(latest: Option<TrackerState>) -> (r: TrackerState)
    ensures
        r == (match latest {
            Some(s) => s,
            None => TrackerState::Lost,
        }),
{
    match latest {
        Some(s) => s,
        None => TrackerState::Lost,
    }
}

/// A zero gyro bias is reported only once the sensor is tracking.
pub fn zero_bias_reported(state: TrackerState) -> (r: bool)
    ensures
        r == (state != TrackerState::Lost),
{
    state != TrackerState::Lost
}

} // verus!

