use vstd::prelude::*;
use crate::fixed::ONE;

verus! {

/// A key, by its numeric code.
pub type KeyCode = u32;

/// The response curve applied to an axis's magnitude after the deadzone.
#[derive(Clone, Copy, Debug, PartialEq, Eq, Structural)]
pub enum Curve {
    /// The identity: the magnitude is passed on unchanged.
    Linear,
    /// `magnitude ^ exponent`, in fixed point.
    Power { exponent: u32 },
}

/// How one axis responds; fixed-point fields are in units of `ONE`.
#[derive(Clone, Copy, Debug, PartialEq, Eq, Structural)]
pub struct AxisConfig {
    pub enabled: bool,
    pub toggle_key: KeyCode,
    pub curve: Curve,
    /// Magnitudes up to this one read as rest; in `[0, ONE)`.
    pub deadzone: i32,
    /// Final multiplicative scale; positive.
    pub sensitivity: i32,
}

impl AxisConfig {
    /// The parameters lie in their ranges: a deadzone in `[0, ONE)`, a
    /// positive sensitivity and, for a power curve, a positive exponent.
    pub open spec fn wf(&self) -> bool {
        &&& 0 <= self.deadzone < ONE
        &&& self.sensitivity > 0
        &&& match self.curve {
            Curve::Linear => true,
            Curve::Power { exponent } => exponent >= 1,
        }
    }

    pub fn is_valid(&self) -> (r: bool)
        ensures
            r == self.wf(),
    {
        let curve_ok = match self.curve {
            Curve::Linear => true,
            Curve::Power { exponent } => exponent >= 1,
        };
        0 <= self.deadzone && self.deadzone < ONE && self.sensitivity > 0 && curve_ok
    }
}

/// The configuration of both axes, with the screen extents that normalise
/// raw motion.
#[derive(Clone, Copy, Debug, PartialEq, Eq, Structural)]
pub struct Config {
    pub steering_config: AxisConfig,
    pub throttle_config: AxisConfig,
    pub screen_width: i32,
    pub screen_height: i32,
}

impl Config {
    pub open spec fn wf(&self) -> bool {
        &&& self.steering_config.wf()
        &&& self.throttle_config.wf()
        &&& self.screen_width > 0
        &&& self.screen_height > 0
    }

    /// Whether the configuration may be run; one that is not must be
    /// refused at start-up.
    pub fn is_valid(&self) -> (r: bool)
        ensures
            r == self.wf(),
    {
        self.steering_config.is_valid() && self.throttle_config.is_valid()
            && self.screen_width > 0 && self.screen_height > 0
    }
}

} // verus!
