use vstd::prelude::*;

pub mod raw_frame;
pub mod rotate;
pub mod imu_history;
pub mod alignment;
pub mod text;
pub mod comet;
pub mod strings;
pub mod catalog_query;
pub mod decrowd;
pub mod sky;
pub mod catalog_meta;
pub mod laws;

verus! {

/// Rotation-vector report used by the BNO085 fusion firmware.
#[derive(Clone, Copy, Debug, PartialEq, Eq)]
pub enum ImuRotationMode {
    Standard,
    Game,
    ArvrStabilized,
    ArvrStabilizedGame,
}

/// The rotation mode that each command-line mode number selects: 1 standard
/// 9-axis, 2 game (6-axis), 3 AR/VR stabilized 9-axis, 4 AR/VR stabilized
/// game.
pub open spec fn mode_for_number(n: int) -> Option<ImuRotationMode> {
    if n == 1 {
        Some(ImuRotationMode::Standard)
    } else if n == 2 {
        Some(ImuRotationMode::Game)
    } else if n == 3 {
        Some(ImuRotationMode::ArvrStabilized)
    } else if n == 4 {
        Some(ImuRotationMode::ArvrStabilizedGame)
    } else {
        None
    }
}

impl ImuRotationMode {
    /// The mode for a command-line mode number; `None` for a number outside
    /// 1 to 4.
    pub fn from_mode_number(n: u32) -> (r: Option<ImuRotationMode>)
        ensures
            r == mode_for_number(n as int),
    {
        match n {
            1 => Some(ImuRotationMode::Standard),
            2 => Some(ImuRotationMode::Game),
            3 => Some(ImuRotationMode::ArvrStabilized),
            4 => Some(ImuRotationMode::ArvrStabilizedGame),
            _ => None,
        }
    }
}

} // verus!
