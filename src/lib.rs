//! Turns relative pointer motion into virtual game-controller axes.
//!
//! All quantities are fixed-point: an `i32` value `v` stands for the real
//! number `v / ONE`, so `ONE` is `1.0` and `-ONE` is `-1.0`.
pub mod accumulator;
pub mod config;
pub mod controller;
pub mod fixed;
pub mod motion;
pub mod output;
pub mod processor;
pub mod toggle;

pub use accumulator::AxisAccumulator;
pub use config::{AxisConfig, Config, Curve, KeyCode};
pub use controller::{Controller, GamepadReport, Overlay, TickOutput};
pub use fixed::ONE;
pub use motion::MotionBuffer;
pub use output::{split_magnitudes, to_thumb_val, to_trigger_val};
pub use processor::process;
pub use toggle::{key_held, ToggleState};
