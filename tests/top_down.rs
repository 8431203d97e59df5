use char_motion::height_field::{surface_normal, Normal, UNIT};
use char_motion::camera::{Camera, Point, TrackingCameras, Viewport};
use char_motion::motion::MotionParameters;
use char_motion::player::{axis_intent, planar_intent, MovementIntent, DIAGONAL, INTENT_ONE};
use char_motion::top_down::{
    apply_movement, move_camera, swap_ground, Ground, MovementController, PlanarVelocity,
};

fn params() -> MotionParameters {
    MotionParameters::full_with_separate_turn(600_000, 1_000_000, 5000, 5000, 5000).unwrap()
}

fn tick(v: (i64, i64), u: (i64, i64)) -> (i64, i64) {
    let mut c = MovementController { velocity: PlanarVelocity { x: v.0, y: v.1 } };
    let mut pos = Point { x: 0, y: 0 };
    apply_movement(&params(), &MovementIntent { x: u.0, y: u.1 }, &mut c, &mut pos, 16_667);
    (c.velocity.x, c.velocity.y)
}

#[test]
fn intent_from_keys() {
    assert_eq!(axis_intent(true, false), -1);
    assert_eq!(axis_intent(false, true), 1);
    assert_eq!(axis_intent(true, true), 0);
    assert_eq!(axis_intent(false, false), 0);
    assert_eq!(planar_intent(false, true, false, false), MovementIntent { x: INTENT_ONE, y: 0 });
    assert_eq!(planar_intent(true, false, false, true), MovementIntent { x: -DIAGONAL, y: DIAGONAL });
    assert_eq!(planar_intent(true, true, true, false), MovementIntent { x: 0, y: -INTENT_ONE });
    assert_eq!(planar_intent(true, true, true, true), MovementIntent { x: 0, y: 0 });
    assert_eq!(MovementIntent::default(), MovementIntent { x: 0, y: 0 });
}

#[test]
fn accelerates_along_intent_from_rest() {
    assert_eq!(tick((0, 0), (INTENT_ONE, 0)), (9837, 0));
    assert_eq!(tick((0, 0), (DIAGONAL, DIAGONAL)), (6956, 6956));
    let mut c = MovementController::default();
    let mut pos = Point { x: 0, y: 0 };
    apply_movement(&params(), &MovementIntent { x: INTENT_ONE, y: 0 }, &mut c, &mut pos, 16_667);
    assert_eq!(pos, Point { x: 163, y: 0 });
}

#[test]
fn sideways_drift_is_damped_by_turn() {
    assert_eq!(tick((100_000, 50_000), (0, INTENT_ONE)), (92_307, 59_017));
}

#[test]
fn reversal_brakes_along_intent() {
    assert_eq!(tick((300_000, 0), (-INTENT_ONE, 0)), (267_691, 0));
}

#[test]
fn no_intent_coasts_to_stop() {
    assert_eq!(tick((100_000, -50_000), (0, 0)), (92_307, -46_153));
    let mut c = MovementController { velocity: PlanarVelocity { x: 100_000, y: -50_000 } };
    let mut pos = Point { x: 0, y: 0 };
    for _ in 0..3000 {
        apply_movement(&params(), &MovementIntent { x: 0, y: 0 }, &mut c, &mut pos, 16_667);
    }
    assert_eq!(c.velocity, PlanarVelocity { x: 0, y: 0 });
}

#[test]
fn top_down_ground_and_cameras() {
    let mut g = Ground::FlatPeriodic;
    swap_ground(&mut g);
    assert_eq!(g, Ground::Hills);
    swap_ground(&mut g);
    assert_eq!(g, Ground::FlatPeriodic);
    let cam = Camera {
        position: Point { x: 0, y: 0 },
        viewport: Viewport { half_width: 500_000, half_height: 500_000 },
    };
    let tracking = TrackingCameras(vec![0]);
    let mut cams = vec![cam];
    move_camera(Ground::FlatPeriodic, Point { x: 0, y: -500_001 }, &tracking, &mut cams);
    assert_eq!(cams[0].position, Point { x: 0, y: -1_000_000 });
    let mut cams = vec![cam];
    move_camera(Ground::Hills, Point { x: 0, y: -450_000 }, &tracking, &mut cams);
    assert_eq!(cams[0].position, Point { x: 0, y: -50_000 });
}

#[test]
fn surface_normal_from_slopes() {
    assert_eq!(surface_normal(0, 0), Normal { x: 0, y: 0, z: UNIT });
    assert_eq!(surface_normal(1_000_000, 0), Normal { x: -707_107, y: 0, z: 707_107 });
    assert_eq!(surface_normal(300_000, -400_000), Normal { x: -268_328, y: 357_771, z: 894_427 });
}
