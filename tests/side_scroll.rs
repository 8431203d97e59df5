use char_motion::camera::{Camera, Point, TrackingCameras, Viewport};
use char_motion::motion::MotionParameters;
use char_motion::side_scroll::{
    apply_movement, fold_period, hills_outline, move_along_ground, move_camera, period_index,
    period_peak_height, swap_ground, target_on_slope, BasicMovementController, Ground,
    PositionAlongGround, Slope, TrackPose, PERIOD_ARCLENGTH, PERIOD_LENGTH,
};

fn pose(x: i64, y: i64, run: i64, rise: i64) -> TrackPose {
    TrackPose { x, y, heading: Slope { run, rise } }
}

#[test]
fn ground_switches_between_flat_and_hills() {
    let mut g = Ground::FlatPeriodic;
    swap_ground(&mut g);
    assert_eq!(g, Ground::Hills);
    swap_ground(&mut g);
    assert_eq!(g, Ground::FlatPeriodic);
    assert_eq!(Ground::Loops.toggled(), Ground::Loops);
}

#[test]
fn flat_ground_is_the_x_axis() {
    assert_eq!(move_along_ground(Ground::FlatPeriodic, 123_456), pose(123_456, 0, 1, 0));
    assert_eq!(move_along_ground(Ground::FlatPeriodic, -7), pose(-7, 0, 1, 0));
}

#[test]
fn flat_share_cycles_over_eight_periods() {
    let folded: Vec<i64> = (-2..6).map(fold_period).collect();
    assert_eq!(folded, vec![2, 1, 0, 1, 2, 3, 4, 3]);
    assert_eq!(period_peak_height(0), 500_000);
    assert_eq!(period_peak_height(1), 456_704);
    assert_eq!(period_peak_height(4), 290_370);
    assert_eq!(period_index(-1), -1);
    assert_eq!(period_index(PERIOD_ARCLENGTH), 1);
}

#[test]
fn hills_points() {
    assert_eq!(move_along_ground(Ground::Hills, 0), pose(0, 0, 1_000_000, 1_000_000));
    assert_eq!(move_along_ground(Ground::Hills, 100_000), pose(70_710, 70_710, 1_000_000, 1_000_000));
    assert_eq!(move_along_ground(Ground::Hills, 707_106), pose(499_999, 499_999, 1_000_000, 1_000_000));
    assert_eq!(move_along_ground(Ground::Hills, 707_107), pose(500_001, 499_999, 1_000_000, -1_000_000));
    assert_eq!(move_along_ground(Ground::Hills, 1_000_000), pose(707_108, 292_892, 1_000_000, -1_000_000));
    assert_eq!(move_along_ground(Ground::Hills, PERIOD_ARCLENGTH), pose(1_000_000, 0, 1, 0));
    assert_eq!(move_along_ground(Ground::Hills, 1_514_213), pose(1_082_943, 37_613, 800_000, 913_408));
    assert_eq!(move_along_ground(Ground::Hills, 4_292_639), pose(3_050_000, 0, 1, 0));
    assert_eq!(move_along_ground(Ground::Hills, -100_000), pose(-82_943, 37_613, 800_000, -913_408));
}

#[test]
fn hills_period_is_mirror_symmetric() {
    let a = PERIOD_ARCLENGTH;
    for period in [-3i64, 0, 2, 5] {
        for q in [1i64, 100_000, 200_000, 350_000, 600_000, 707_000] {
            let first = move_along_ground(Ground::Hills, period * a + q);
            let second = move_along_ground(Ground::Hills, period * a + a - q);
            assert_eq!(first.y, second.y);
            assert_eq!(first.heading.run, second.heading.run);
            assert_eq!(first.heading.rise, -second.heading.rise);
            assert_eq!((first.x - period * PERIOD_LENGTH) + (second.x - period * PERIOD_LENGTH), PERIOD_LENGTH);
        }
    }
    let third = move_along_ground(Ground::Hills, 2 * a + 200_000);
    let fourth = move_along_ground(Ground::Hills, 3 * a - 200_000);
    assert_eq!(third, pose(2_159_159, 80_623, 600_000, 817_696));
    assert_eq!(fourth, pose(2_840_841, 80_623, 600_000, -817_696));
}

#[test]
fn outline_of_a_period() {
    let pts = hills_outline(1);
    let expected = [
        (1_000_000, 0),
        (1_050_000, 0),
        (1_450_000, 456_704),
        (1_550_000, 456_704),
        (1_950_000, 0),
        (2_000_000, 0),
    ];
    assert_eq!(pts.len(), 6);
    for (p, (x, y)) in pts.iter().zip(expected) {
        assert_eq!(*p, Point { x, y });
    }
    let pts = hills_outline(-3);
    assert_eq!(pts[2], Point { x: -2_650_000, y: 354_592 });
    assert_eq!(pts[5], Point { x: -2_000_000, y: 0 });
}

#[test]
fn slope_slows_uphill_and_speeds_downhill() {
    let p = MotionParameters::full(600_000, 1_000_000, 5000, 5000).unwrap();
    let flat = Slope { run: 1, rise: 0 };
    let up = Slope { run: 1_000_000, rise: 1_000_000 };
    let down = Slope { run: 1_000_000, rise: -1_000_000 };
    assert_eq!(target_on_slope(&p, flat, 1), 600_000);
    assert_eq!(target_on_slope(&p, flat, -1), -600_000);
    assert_eq!(target_on_slope(&p, flat, 0), 0);
    assert_eq!(target_on_slope(&p, up, 1), 220_256);
    assert_eq!(target_on_slope(&p, up, -1), -1_634_469);
    assert_eq!(target_on_slope(&p, down, 1), 1_634_469);
    assert_eq!(target_on_slope(&p, up, 0), 0);
}

#[test]
fn one_tick_on_flat_ground() {
    let p = MotionParameters::full(600_000, 1_000_000, 5000, 5000).unwrap();
    let mut c = BasicMovementController::default();
    let mut arc = PositionAlongGround(0);
    apply_movement(&p, 1, Slope { run: 1, rise: 0 }, &mut c, &mut arc, 16_667);
    assert_eq!(c.velocity, 9837);
    assert_eq!(arc, PositionAlongGround(163));
}

#[test]
fn cameras_follow_by_ground() {
    let cam = Camera {
        position: Point { x: 0, y: 0 },
        viewport: Viewport { half_width: 500_000, half_height: 300_000 },
    };
    let tracking = TrackingCameras(vec![0]);
    let mut cams = vec![cam];
    move_camera(Ground::FlatPeriodic, Point { x: 500_001, y: 0 }, &tracking, &mut cams);
    assert_eq!(cams[0].position, Point { x: 1_000_000, y: 0 });
    let mut cams = vec![cam];
    move_camera(Ground::Hills, Point { x: 450_000, y: 0 }, &tracking, &mut cams);
    assert_eq!(cams[0].position, Point { x: 50_000, y: 0 });
}

#[test]
fn steep_climb_keeps_intent_sign() {
    // Top speed of one world unit per second against the default gravity.
    let p = MotionParameters::full(1000, 1_000_000, 5000, 5000).unwrap();
    let up = Slope { run: 1_000_000, rise: 1_000_000 };
    assert_eq!(target_on_slope(&p, up, 1), 1);
    assert_eq!(target_on_slope(&p, up, -1), -1_414_215);
    let mut c = BasicMovementController::default();
    let mut arc = PositionAlongGround(0);
    apply_movement(&p, 1, up, &mut c, &mut arc, 16_667);
    assert_eq!(c.velocity, 1);
}
