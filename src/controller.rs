use vstd::prelude::*;
use crate::accumulator::{advance_spec, AxisAccumulator};
use crate::config::{AxisConfig, Config, KeyCode};
use crate::output::{split_magnitudes, split_spec, thumb_spec, to_thumb_val, to_trigger_val, trigger_spec};
use crate::processor::{process, process_spec};
use crate::toggle::{key_held, ToggleState};

verus! {

/// An axis is disabled on a tick when it is switched off in its
/// configuration or its toggle key is among the pressed keys.
pub open spec fn axis_disabled(c: AxisConfig, pressed: Seq<KeyCode>) -> bool {
    !c.enabled || pressed.contains(c.toggle_key)
}

/// What the emulated controller is sent on one tick.
#[derive(Clone, Copy, Debug, PartialEq, Eq, Structural)]
pub struct GamepadReport {
    /// The steering axis.
    pub thumb_lx: i16,
    /// The brake.
    pub left_trigger: u8,
    /// The throttle.
    pub right_trigger: u8,
}

/// What the on-screen overlay shows on one tick: four non-negative
/// magnitudes and whether each axis is locked.
#[derive(Clone, Copy, Debug, PartialEq, Eq, Structural)]
pub struct Overlay {
    /// Steering to the left.
    pub lval: i32,
    /// Steering to the right.
    pub rval: i32,
    /// Brake.
    pub bval: i32,
    /// Throttle.
    pub tval: i32,
    /// The steering axis is disabled on this tick.
    pub hor_lock: bool,
    /// The throttle axis is disabled on this tick.
    pub ver_lock: bool,
}

/// Everything one tick produces.
#[derive(Clone, Copy, Debug, PartialEq, Eq, Structural)]
pub struct TickOutput {
    pub report: GamepadReport,
    pub overlay: Overlay,
}

/// The state carried from one tick to the next: each axis's toggle key and
/// accumulated position. Horizontal motion steers; vertical motion drives the
/// triggers, a negative position braking and a positive one accelerating.
#[derive(Clone, Copy, Debug, PartialEq, Eq, Structural)]
pub struct Controller {
    pub steer_key: ToggleState,
    pub throttle_key: ToggleState,
    pub steering: AxisAccumulator,
    pub throttle: AxisAccumulator,
}

impl Controller {
    pub open spec fn wf(&self) -> bool {
        self.steering.wf() && self.throttle.wf()
    }

    pub fn new() -> (r: Self)
        ensures
            r.wf(),
            r.steering.position == 0,
            r.throttle.position == 0,
            !r.steer_key.held,
            !r.throttle_key.held,
    {
        Controller {
            steer_key: ToggleState::new(),
            throttle_key: ToggleState::new(),
            steering: AxisAccumulator::new(),
            throttle: AxisAccumulator::new(),
        }
    }

    /// Runs one tick on the motion `delta` drained since the last one and the
    /// keys pressed now: updates both toggles and positions, and returns the
    /// controller report and the overlay values.
    pub fn tick(&mut self, config: &Config, delta: (i32, i32), pressed: &Vec<KeyCode>) -> (r: TickOutput)
        requires
            config.wf(),
        ensures
            final(self).wf(),
            final(self).steer_key.held == pressed@.contains(config.steering_config.toggle_key),
            final(self).throttle_key.held == pressed@.contains(config.throttle_config.toggle_key),
            final(self).steering.position == advance_spec(
                old(self).steering.position as int,
                delta.0 as int,
                config.screen_width as int,
                axis_disabled(config.steering_config, pressed@),
            ),
            final(self).throttle.position == advance_spec(
                old(self).throttle.position as int,
                delta.1 as int,
                config.screen_height as int,
                axis_disabled(config.throttle_config, pressed@),
            ),
            r.report.thumb_lx == thumb_spec(
                process_spec(final(self).steering.position as int, config.steering_config),
            ),
            (r.overlay.lval as int, r.overlay.rval as int) == split_spec(
                process_spec(final(self).steering.position as int, config.steering_config),
            ),
            (r.overlay.bval as int, r.overlay.tval as int) == split_spec(
                process_spec(final(self).throttle.position as int, config.throttle_config),
            ),
            r.report.left_trigger == trigger_spec(r.overlay.bval as int),
            r.report.right_trigger == trigger_spec(r.overlay.tval as int),
            r.overlay.hor_lock == axis_disabled(config.steering_config, pressed@),
            r.overlay.ver_lock == axis_disabled(config.throttle_config, pressed@),
    {
        let steer_down = key_held(pressed, config.steering_config.toggle_key);
        let throttle_down = key_held(pressed, config.throttle_config.toggle_key);
        let steer_off = self.steer_key.update(steer_down) || !config.steering_config.enabled;
        let throttle_off = self.throttle_key.update(throttle_down) || !config.throttle_config.enabled;

        let x = self.steering.advance(delta.0, config.screen_width, steer_off);
        let horizontal = process(x, &config.steering_config);
        let (lval, rval) = split_magnitudes(horizontal);

        let y = self.throttle.advance(delta.1, config.screen_height, throttle_off);
        let vertical = process(y, &config.throttle_config);
        let (bval, tval) = split_magnitudes(vertical);

        TickOutput {
            report: GamepadReport {
                thumb_lx: to_thumb_val(horizontal),
                left_trigger: to_trigger_val(bval),
                right_trigger: to_trigger_val(tval),
            },
            overlay: Overlay { lval, rval, bval, tval, hor_lock: steer_off, ver_lock: throttle_off },
        }
    }
}

} // verus!
