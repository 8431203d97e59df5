use char_motion::motion::{
    advance, integrate_velocity, select_alpha, select_branch, AlphaBranch, MotionParameters,
    ParamError, PlayMode, ALPHA_ONE, DEFAULT_GRAVITY_STRENGTH,
};

fn sandbox_params() -> MotionParameters {
    // 600 world units per second, in thousandths; one second; both multipliers 5.0.
    MotionParameters::full(600_000, 1_000_000, 5000, 5000).unwrap()
}

#[test]
fn constructors_fill_neutral_multipliers() {
    let b = MotionParameters::basic(500_000, 1_000_000).unwrap();
    assert_eq!(b.alpha_rev, ALPHA_ONE);
    assert_eq!(b.alpha_stop, ALPHA_ONE);
    assert_eq!(b.alpha_turn, ALPHA_ONE);
    assert_eq!(b.gravity_strength, DEFAULT_GRAVITY_STRENGTH);

    let s = MotionParameters::with_stopping(500_000, 1_000_000, 3000).unwrap();
    assert_eq!(s.alpha_stop, 3000);
    assert_eq!(s.alpha_rev, ALPHA_ONE);

    let f = MotionParameters::full(500_000, 1_000_000, 3000, 7000).unwrap();
    assert_eq!(f.alpha_rev, 7000);
    assert_eq!(f.alpha_turn, 7000);

    let t = MotionParameters::full_with_separate_turn(500_000, 1_000_000, 3000, 7000, 2000).unwrap();
    assert_eq!(t.alpha_turn, 2000);
    assert_eq!(t.alpha_stop, 3000);
    assert_eq!(t.max_speed, 500_000);
    assert_eq!(t.t_acc, 1_000_000);
}

#[test]
fn constructors_reject_invalid_configuration() {
    assert_eq!(MotionParameters::basic(0, 1_000_000), Err(ParamError::NonPositiveMaxSpeed));
    assert_eq!(MotionParameters::basic(-5, 1_000_000), Err(ParamError::NonPositiveMaxSpeed));
    assert_eq!(MotionParameters::basic(600_000, 0), Err(ParamError::NonPositiveTimeConstant));
    assert_eq!(MotionParameters::full(600_000, -1, 5000, 5000), Err(ParamError::NonPositiveTimeConstant));
    assert_eq!(MotionParameters::basic(2_000_000_000, 1_000_000), Err(ParamError::OutOfRange));
    assert_eq!(MotionParameters::with_stopping(600_000, 1_000_000, 2_000_000), Err(ParamError::OutOfRange));
}

#[test]
fn play_mode_labels() {
    assert_eq!(PlayMode::TopDown.label(), "Top Down");
    assert_eq!(PlayMode::SideScroll.label(), "Side Scroll");
}

#[test]
fn alpha_follows_signs() {
    let p = MotionParameters::full(600_000, 1_000_000, 3000, 7000).unwrap();
    assert_eq!(select_alpha(&p, 600_000, 10), ALPHA_ONE);
    assert_eq!(select_alpha(&p, -600_000, -10), ALPHA_ONE);
    assert_eq!(select_alpha(&p, 600_000, -10), 7000);
    assert_eq!(select_alpha(&p, -600_000, 10), 7000);
    assert_eq!(select_alpha(&p, 0, 10), 3000);
    assert_eq!(select_alpha(&p, 0, -10), 3000);
    assert_eq!(select_alpha(&p, 0, 0), 3000);
    // A velocity of zero counts as positive.
    assert_eq!(select_alpha(&p, 600_000, 0), ALPHA_ONE);
    assert_eq!(select_alpha(&p, -600_000, 0), 7000);
    assert_eq!(select_branch(-1, 0), AlphaBranch::Reverse);
}

#[test]
fn first_tick_from_rest_accelerates() {
    let p = sandbox_params();
    // dt = 1/60 s, rounded to microseconds.
    assert_eq!(select_branch(600_000, 0), AlphaBranch::Accelerate);
    let v = integrate_velocity(&p, 0, 600_000, 16_667);
    assert_eq!(v, 9837);
    assert!(v > 0 && v < 600_000);
    assert_eq!(integrate_velocity(&p, 0, 600_000, 16_667), v);
}

#[test]
fn velocity_rises_monotonically_toward_target() {
    let p = sandbox_params();
    let mut v: i64 = 0;
    let expected = [9837, 19512, 29029];
    for e in expected {
        v = integrate_velocity(&p, v, 600_000, 16_667);
        assert_eq!(v, e);
    }
    let mut prev = v;
    for _ in 0..2000 {
        v = integrate_velocity(&p, v, 600_000, 16_667);
        assert!(v >= prev && v <= 600_000);
        prev = v;
    }
    assert_eq!(v, 600_000);
}

#[test]
fn velocity_reaches_small_target_exactly() {
    let p = MotionParameters::basic(1000, 1000).unwrap();
    let mut v: i64 = 0;
    let mut ticks = 0;
    while v != 50 {
        v = integrate_velocity(&p, v, 50, 500);
        ticks += 1;
        assert!(v <= 50);
    }
    assert_eq!(ticks, 9);
}

#[test]
fn reversal_and_stop_brake_harder() {
    let p = sandbox_params();
    assert_eq!(integrate_velocity(&p, 600_000, -600_000, 16_667), 544_614);
    assert_eq!(integrate_velocity(&p, 600_000, 0, 16_667), 553_845);
    let mut v: i64 = 600_000;
    for _ in 0..5000 {
        let next = integrate_velocity(&p, v, 0, 16_667);
        assert!(next <= v && next >= 0);
        v = next;
    }
    assert_eq!(v, 0);
}

#[test]
fn position_uses_new_velocity() {
    assert_eq!(advance(0, 9837, 16_667), 163);
    assert_eq!(advance(0, -544_614, 16_667), -9078);
    assert_eq!(advance(1000, 0, 16_667), 1000);
}
