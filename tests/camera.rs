use char_motion::camera::{
    track_camera, track_cameras, Camera, CameraPolicy, Point, TrackingCameras, Viewport,
};

fn camera_at(x: i64, half_width: i64) -> Camera {
    Camera {
        position: Point { x, y: 0 },
        viewport: Viewport { half_width, half_height: half_width },
    }
}

#[test]
fn viewport_snap_jumps_one_viewport() {
    // Viewport 500 wide; the subject steps just past its right edge.
    let c = track_camera(CameraPolicy::ViewportSnap, Point { x: 251, y: 0 }, camera_at(0, 250));
    assert_eq!(c.position.x, 500);
    assert_eq!(c.position.y, 0);
    let c = track_camera(CameraPolicy::ViewportSnap, Point { x: 250, y: 0 }, camera_at(0, 250));
    assert_eq!(c.position.x, 0);
    let c = track_camera(CameraPolicy::ViewportSnap, Point { x: -251, y: 300 }, camera_at(0, 250));
    assert_eq!(c.position, Point { x: -500, y: 500 });
}

#[test]
fn inflated_follow_keeps_subject_on_dead_zone_edge() {
    // Half width 500 world units and a margin of 100, in thousandths.
    let c = track_camera(
        CameraPolicy::InflatedFollow,
        Point { x: 450_000, y: 0 },
        camera_at(0, 500_000),
    );
    assert_eq!(c.position.x, 50_000);
    assert_eq!(450_000 - c.position.x, 400_000);
    let c = track_camera(
        CameraPolicy::InflatedFollow,
        Point { x: -450_000, y: 399_000 },
        camera_at(0, 500_000),
    );
    assert_eq!(c.position, Point { x: -50_000, y: 0 });
}

#[test]
fn every_tracking_camera_follows() {
    let mut cameras = vec![camera_at(0, 250), camera_at(100, 250), camera_at(0, 250)];
    let tracking = TrackingCameras(vec![0, 2, 7]);
    track_cameras(CameraPolicy::ViewportSnap, Point { x: 251, y: 0 }, &tracking, &mut cameras);
    assert_eq!(cameras[0].position.x, 500);
    assert_eq!(cameras[1].position.x, 100);
    assert_eq!(cameras[2].position.x, 500);

    let mut none = vec![camera_at(0, 250)];
    track_cameras(CameraPolicy::ViewportSnap, Point { x: 900, y: 0 }, &TrackingCameras(vec![]), &mut none);
    assert_eq!(none[0].position.x, 0);
}
