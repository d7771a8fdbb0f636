use mouse_steer::{
    key_held, process, split_magnitudes, to_thumb_val, to_trigger_val, AxisAccumulator, AxisConfig,
    Config, Controller, Curve, MotionBuffer, ToggleState, ONE,
};

const STEER_KEY: u32 = 7;
const THROTTLE_KEY: u32 = 9;

fn axis(deadzone: i32, curve: Curve, sensitivity: i32, toggle_key: u32) -> AxisConfig {
    AxisConfig { enabled: true, toggle_key, curve, deadzone, sensitivity }
}

fn config() -> Config {
    Config {
        steering_config: axis(100_000, Curve::Linear, ONE, STEER_KEY),
        throttle_config: axis(100_000, Curve::Linear, ONE, THROTTLE_KEY),
        screen_width: 1000,
        screen_height: 1000,
    }
}

fn sample_configs() -> Vec<AxisConfig> {
    vec![
        axis(0, Curve::Linear, ONE, 1),
        axis(100_000, Curve::Linear, ONE, 1),
        axis(999_999, Curve::Linear, i32::MAX, 1),
        axis(250_000, Curve::Power { exponent: 2 }, 3 * ONE, 1),
        axis(0, Curve::Power { exponent: 5 }, 1, 1),
        axis(500_000, Curve::Power { exponent: 1 }, ONE / 2, 1),
    ]
}

#[test]
fn steering_scenario_half_screen() {
    let cfg = config();
    let mut c = Controller::new();
    let out = c.tick(&cfg, (500, 0), &vec![]);
    assert_eq!(c.steering.position, 500_000);
    // (0.5 - 0.1) / 0.9, rounded up in millionths
    assert_eq!(out.overlay.rval, 444_445);
    assert_eq!(out.overlay.lval, 0);
    assert_eq!(out.report.thumb_lx, 14563);
    assert!(!out.overlay.hor_lock);
}

#[test]
fn toggle_held_resets_steering() {
    let cfg = config();
    let mut c = Controller::new();
    c.tick(&cfg, (800, 0), &vec![]);
    assert_eq!(c.steering.position, 800_000);
    let out = c.tick(&cfg, (100, 0), &vec![STEER_KEY]);
    assert_eq!(c.steering.position, 0);
    assert_eq!(out.report.thumb_lx, 0);
    assert!(out.overlay.hor_lock);
    assert_eq!((out.overlay.lval, out.overlay.rval), (0, 0));
    let out = c.tick(&cfg, (300, 0), &vec![STEER_KEY]);
    assert_eq!(c.steering.position, 0);
    assert!(out.overlay.hor_lock);
    let out = c.tick(&cfg, (300, 0), &vec![]);
    assert_eq!(c.steering.position, 300_000);
    assert!(!out.overlay.hor_lock);
}

#[test]
fn throttle_negative_is_brake() {
    let cfg = config();
    let mut c = Controller::new();
    c.throttle.position = -300_000;
    let out = c.tick(&cfg, (0, 0), &vec![]);
    assert_eq!(c.throttle.position, -300_000);
    // (0.3 - 0.1) / 0.9, rounded up in millionths
    assert_eq!(out.overlay.bval, 222_223);
    assert_eq!(out.overlay.tval, 0);
    assert_eq!(out.report.left_trigger, 56);
    assert_eq!(out.report.right_trigger, 0);
    assert!(!out.overlay.ver_lock);
}

#[test]
fn throttle_positive_is_throttle() {
    let cfg = config();
    let mut c = Controller::new();
    let out = c.tick(&cfg, (0, 1000), &vec![]);
    assert_eq!(out.overlay.tval, ONE);
    assert_eq!(out.overlay.bval, 0);
    assert_eq!(out.report.right_trigger, 255);
    assert_eq!(out.report.left_trigger, 0);
}

#[test]
fn disabled_axis_in_config_stays_centred() {
    let mut cfg = config();
    cfg.throttle_config.enabled = false;
    let mut c = Controller::new();
    let out = c.tick(&cfg, (0, 700), &vec![]);
    assert_eq!(c.throttle.position, 0);
    assert!(out.overlay.ver_lock);
    assert_eq!(out.report.left_trigger, 0);
    assert_eq!(out.report.right_trigger, 0);
    assert!(!c.throttle_key.held);
}

#[test]
fn toggle_key_state_follows_key() {
    let cfg = config();
    let mut c = Controller::new();
    c.tick(&cfg, (0, 0), &vec![THROTTLE_KEY, 3]);
    assert!(c.throttle_key.held);
    assert!(!c.steer_key.held);
    c.tick(&cfg, (0, 0), &vec![]);
    assert!(!c.throttle_key.held);
}

#[test]
fn process_centre_is_zero() {
    for c in sample_configs() {
        assert_eq!(process(0, &c), 0);
    }
}

#[test]
fn process_stays_in_range() {
    for c in sample_configs() {
        let mut p: i32 = -ONE;
        while p <= ONE {
            let v = process(p, &c);
            assert!(-ONE <= v && v <= ONE);
            p += 12_345;
        }
        assert!(process(i32::MAX, &c) <= ONE);
        assert!(process(i32::MIN, &c) >= -ONE);
    }
}

#[test]
fn process_sensitivity_saturates() {
    let c = axis(0, Curve::Linear, 3 * ONE, 1);
    assert_eq!(process(500_000, &c), ONE);
    assert_eq!(process(-500_000, &c), -ONE);
    assert_eq!(process(200_000, &c), 600_000);
}

#[test]
fn process_power_curve() {
    let c = axis(0, Curve::Power { exponent: 2 }, ONE, 1);
    assert_eq!(process(500_000, &c), 250_000);
    assert_eq!(process(-500_000, &c), -250_000);
    assert_eq!(process(ONE, &c), ONE);
    let cube = axis(0, Curve::Power { exponent: 3 }, ONE, 1);
    assert_eq!(process(100_000, &cube), 1_000);
}

#[test]
fn process_linear_full_scale() {
    let c = axis(100_000, Curve::Linear, ONE, 1);
    assert_eq!(process(ONE, &c), ONE);
    assert_eq!(process(-ONE, &c), -ONE);
}

#[test]
fn deadzone_boundary() {
    let c = axis(100_000, Curve::Linear, ONE, 1);
    assert_eq!(process(100_000, &c), 0);
    assert_eq!(process(-100_000, &c), 0);
    assert_eq!(process(50_000, &c), 0);
    assert_eq!(process(100_001, &c), 2);
    assert_eq!(process(-100_001, &c), -2);
    let p = axis(100_000, Curve::Power { exponent: 4 }, ONE, 1);
    assert!(process(100_001, &p) > 0);
    assert!(process(-100_001, &p) < 0);
}

#[test]
fn thumb_endpoints_and_saturation() {
    assert_eq!(to_thumb_val(-ONE), -32768);
    assert_eq!(to_thumb_val(ONE), 32767);
    assert_eq!(to_thumb_val(0), 0);
    assert_eq!(to_thumb_val(500_000), 16383);
    assert_eq!(to_thumb_val(-500_000), -16384);
    assert_eq!(to_thumb_val(i32::MAX), 32767);
    assert_eq!(to_thumb_val(i32::MIN), -32768);
}

#[test]
fn trigger_endpoints_and_saturation() {
    assert_eq!(to_trigger_val(0), 0);
    assert_eq!(to_trigger_val(ONE), 255);
    assert_eq!(to_trigger_val(500_000), 127);
    assert_eq!(to_trigger_val(-5), 0);
    assert_eq!(to_trigger_val(2 * ONE), 255);
}

#[test]
fn output_mappings_monotonic() {
    let mut prev_thumb = to_thumb_val(-ONE - 10);
    let mut prev_trigger = to_trigger_val(-ONE - 10);
    let mut v: i32 = -ONE - 10;
    while v <= ONE + 10 {
        let t = to_thumb_val(v);
        let g = to_trigger_val(v);
        assert!(t >= prev_thumb);
        assert!(g >= prev_trigger);
        prev_thumb = t;
        prev_trigger = g;
        v += 997;
    }
}

#[test]
fn split_is_exclusive() {
    assert_eq!(split_magnitudes(-300_000), (300_000, 0));
    assert_eq!(split_magnitudes(300_000), (0, 300_000));
    assert_eq!(split_magnitudes(0), (0, 0));
}

#[test]
fn accumulator_clamps_high_and_low() {
    let mut a = AxisAccumulator::new();
    for _ in 0..10 {
        let p = a.advance(400, 1000, false);
        assert!(p <= ONE);
    }
    assert_eq!(a.position, ONE);
    assert_eq!(a.advance(i32::MAX, 1, false), ONE);
    for _ in 0..10 {
        let p = a.advance(-900, 1000, false);
        assert!(p >= -ONE);
    }
    assert_eq!(a.position, -ONE);
    assert_eq!(a.advance(i32::MIN, 1, false), -ONE);
    assert_eq!(a.advance(100, 1000, false), -900_000);
}

#[test]
fn accumulator_normalises_by_extent() {
    let mut a = AxisAccumulator::new();
    assert_eq!(a.advance(1, 1920, false), 520);
    assert_eq!(a.advance(-1, 1920, false), 0);
    assert_eq!(a.advance(-1, 1920, false), -520);
    assert_eq!(a.advance(0, 1920, false), -520);
}

#[test]
fn accumulator_disabled_resets() {
    let mut a = AxisAccumulator { position: 800_000 };
    assert_eq!(a.advance(500, 1000, true), 0);
    assert_eq!(a.position, 0);
    assert_eq!(a.advance(-500, 1000, true), 0);
    assert_eq!(a.advance(-500, 1000, false), -500_000);
}

#[test]
fn toggle_mirrors_key() {
    let mut t = ToggleState::new();
    assert!(!t.held);
    assert!(t.update(true));
    assert!(t.held);
    assert!(!t.update(false));
    assert!(!t.held);
}

#[test]
fn key_membership() {
    assert!(key_held(&vec![1, 5, 9], 9));
    assert!(!key_held(&vec![1, 5, 9], 4));
    assert!(!key_held(&vec![], 4));
}

#[test]
fn motion_buffer_drains_once() {
    let mut m = MotionBuffer::new();
    m.record(3, -4);
    m.record(10, 2);
    assert_eq!(m.drain(), (13, -2));
    assert_eq!(m.drain(), (0, 0));
}

#[test]
fn motion_buffer_saturates() {
    let mut m = MotionBuffer::new();
    m.record(i32::MAX, i32::MIN);
    m.record(5, -5);
    assert_eq!(m.drain(), (i32::MAX, i32::MIN));
}

#[test]
fn config_validation() {
    assert!(config().is_valid());
    let mut c = config();
    c.screen_width = 0;
    assert!(!c.is_valid());
    let mut c = config();
    c.screen_height = -3;
    assert!(!c.is_valid());
    let mut c = config();
    c.steering_config.deadzone = ONE;
    assert!(!c.is_valid());
    let mut c = config();
    c.throttle_config.sensitivity = 0;
    assert!(!c.is_valid());
    let mut c = config();
    c.throttle_config.curve = Curve::Power { exponent: 0 };
    assert!(!c.is_valid());
    assert!(axis(-1, Curve::Linear, ONE, 1).is_valid() == false);
    assert!(axis(0, Curve::Power { exponent: 1 }, 1, 1).is_valid());
}

#[test]
fn process_monotonic() {
    for c in sample_configs() {
        let mut prev = process(-ONE - 5, &c);
        let mut p: i32 = -ONE - 5;
        while p <= ONE + 5 {
            let v = process(p, &c);
            assert!(v >= prev);
            prev = v;
            p += 4_999;
        }
    }
}
