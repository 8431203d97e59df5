//! Cameras that follow a subject: either by whole-viewport jumps in a world
//! that repeats every viewport, or by keeping the subject inside a dead zone.

use vstd::prelude::*;

verus! {

/// Largest magnitude of a coordinate handled here.
pub const COORD_LIMIT: i64 = 0x0800_0000_0000_0000;

/// Inset of the dead zone from the viewport edges under [`CameraPolicy::InflatedFollow`].
pub const CAMERA_MARGIN: i64 = 100_000;

/// A point in the plane.
#[derive(Clone, Copy, Debug, PartialEq, Eq, Structural)]
pub struct Point {
    pub x: i64,
    pub y: i64,
}

impl Point {
    pub open spec fn in_range(self) -> bool {
        -COORD_LIMIT <= self.x <= COORD_LIMIT && -COORD_LIMIT <= self.y <= COORD_LIMIT
    }
}

/// The visible area of a camera, by its half extents.
#[derive(Clone, Copy, Debug, PartialEq, Eq, Structural)]
pub struct Viewport {
    pub half_width: i64,
    pub half_height: i64,
}

impl Viewport {
    pub open spec fn in_range(self) -> bool {
        0 <= self.half_width <= COORD_LIMIT && 0 <= self.half_height <= COORD_LIMIT
    }
}

/// A camera: where it stands and what it sees.
#[derive(Clone, Copy, Debug, PartialEq, Eq, Structural)]
pub struct Camera {
    pub position: Point,
    pub viewport: Viewport,
}

impl Camera {
    pub open spec fn in_range(self) -> bool {
        self.position.in_range() && self.viewport.in_range()
    }
}

/// How a camera reacts when its subject moves away.
#[derive(Clone, Copy, Debug, PartialEq, Eq, Structural)]
pub enum CameraPolicy {
    /// Jump by one whole viewport once the subject leaves the viewport.
    ViewportSnap,
    /// Keep the subject within the viewport shrunk by [`CAMERA_MARGIN`].
    InflatedFollow,
}

/// One axis of [`CameraPolicy::ViewportSnap`].
pub open spec fn snap_axis(subject: int, camera: int, half: int) -> int {
    if subject > camera + half {
        camera + 2 * half
    } else if subject < camera - half {
        camera - 2 * half
    } else {
        camera
    }
}

/// One axis of [`CameraPolicy::InflatedFollow`], with the dead zone's half extent.
pub open spec fn follow_axis(subject: int, camera: int, half_extent: int) -> int {
    if subject > camera + half_extent {
        subject - half_extent
    } else if subject < camera - half_extent {
        subject + half_extent
    } else {
        camera
    }
}

/// The camera after one tick of tracking a subject.
pub open spec fn followed(policy: CameraPolicy, subject: Point, camera: Camera) -> Camera {
    let hw = camera.viewport.half_width as int;
    let hh = camera.viewport.half_height as int;
    let position = match policy {
        CameraPolicy::ViewportSnap => Point {
            x: snap_axis(subject.x as int, camera.position.x as int, hw) as i64,
            y: snap_axis(subject.y as int, camera.position.y as int, hh) as i64,
        },
        CameraPolicy::InflatedFollow => Point {
            x: follow_axis(subject.x as int, camera.position.x as int, hw - CAMERA_MARGIN) as i64,
            y: follow_axis(subject.y as int, camera.position.y as int, hh - CAMERA_MARGIN) as i64,
        },
    };
    Camera { position, viewport: camera.viewport }
}

/// One axis of [`CameraPolicy::ViewportSnap`].
pub fn snap_coordinate(subject: i64, camera: i64, half: i64) -> (c: i64)
    requires
        -COORD_LIMIT <= subject <= COORD_LIMIT,
        -COORD_LIMIT <= camera <= COORD_LIMIT,
        0 <= half <= COORD_LIMIT,
    ensures
        c == snap_axis(subject as int, camera as int, half as int),
{
    if subject > camera + half {
        camera + 2 * half
    } else if subject < camera - half {
        camera - 2 * half
    } else {
        camera
    }
}

/// One axis of [`CameraPolicy::InflatedFollow`].
pub fn follow_coordinate(subject: i64, camera: i64, half_extent: i64) -> (c: i64)
    requires
        -COORD_LIMIT <= subject <= COORD_LIMIT,
        -COORD_LIMIT <= camera <= COORD_LIMIT,
        -COORD_LIMIT <= half_extent <= COORD_LIMIT,
    ensures
        c == follow_axis(subject as int, camera as int, half_extent as int),
{
    if subject > camera + half_extent {
        subject - half_extent
    } else if subject < camera - half_extent {
        subject + half_extent
    } else {
        camera
    }
}

/// Moves one camera after its subject.
pub fn track_camera(policy: CameraPolicy, subject: Point, camera: Camera) -> (c: Camera)
    requires
        subject.in_range(),
        camera.in_range(),
    ensures
        c == followed(policy, subject, camera),
{
    let hw = camera.viewport.half_width;
    let hh = camera.viewport.half_height;
    let position = match policy {
        CameraPolicy::ViewportSnap => Point {
            x: snap_coordinate(subject.x, camera.position.x, hw),
            y: snap_coordinate(subject.y, camera.position.y, hh),
        },
        CameraPolicy::InflatedFollow => Point {
            x: follow_coordinate(subject.x, camera.position.x, hw - CAMERA_MARGIN),
            y: follow_coordinate(subject.y, camera.position.y, hh - CAMERA_MARGIN),
        },
    };
    Camera { position, viewport: camera.viewport }
}

/// The cameras that track a subject, as indices into the camera list.
#[derive(Debug)]
pub struct TrackingCameras(pub Vec<usize>);

/// The subject a camera tracks, as an index into the subject list.
#[derive(Clone, Copy, Debug, PartialEq, Eq, Structural)]
pub struct CameraOf(pub usize);

impl TrackingCameras {
    /// No camera is listed twice.
    pub open spec fn distinct(&self) -> bool {
        forall|i: int, j: int| 0 <= i < j < self.0@.len() ==> self.0@[i] != self.0@[j]
    }
}

/// The camera list after every camera listed in `tracking` has followed the
/// subject; indices beyond the list are passed over.
pub open spec fn cameras_after(
    policy: CameraPolicy,
    subject: Point,
    tracking: Seq<usize>,
    cameras: Seq<Camera>,
) -> Seq<Camera> {
    Seq::new(
        cameras.len(),
        |i: int|
            if tracking.contains(i as usize) {
                followed(policy, subject, cameras[i])
            } else {
                cameras[i]
            },
    )
}

/// Moves every camera that tracks the subject; the others stay.
pub fn track_cameras(
    policy: CameraPolicy,
    subject: Point,
    tracking: &TrackingCameras,
    cameras: &mut Vec<Camera>,
)
    requires
        subject.in_range(),
        tracking.distinct(),
        forall|i: int| 0 <= i < old(cameras)@.len() ==> (#[trigger] old(cameras)@[i]).in_range(),
    ensures
        final(cameras)@ == cameras_after(policy, subject, tracking.0@, old(cameras)@),
{
    let ghost start = cameras@;
    let mut k: usize = 0;
    while k < tracking.0.len()
        invariant
            k <= tracking.0@.len(),
            subject.in_range(),
            tracking.distinct(),
            cameras@.len() == start.len(),
            forall|i: int| 0 <= i < start.len() ==> (#[trigger] start[i]).in_range(),
            forall|i: int|
                0 <= i < start.len() ==> #[trigger] cameras@[i] == if tracking.0@.subrange(
                    0,
                    k as int,
                ).contains(i as usize) {
                    followed(policy, subject, start[i])
                } else {
                    start[i]
                },
        decreases tracking.0@.len() - k,
    {
        let idx = tracking.0[k];
        proof {
            assert(!tracking.0@.subrange(0, k as int).contains(idx)) by {
                if tracking.0@.subrange(0, k as int).contains(idx) {
                    let j = choose|j: int|
                        0 <= j < k && #[trigger] tracking.0@.subrange(0, k as int)[j] == idx;
                    assert(tracking.0@[j] == tracking.0@[k as int]);
                }
            }
        }
        if idx < cameras.len() {
            let moved = track_camera(policy, subject, cameras[idx]);
            cameras.set(idx, moved);
        }
        proof {
            assert forall|i: int| 0 <= i < start.len() implies #[trigger] cameras@[i] == if tracking.0@.subrange(
                0,
                k + 1,
            ).contains(i as usize) {
                followed(policy, subject, start[i])
            } else {
                start[i]
            } by {
                let before = tracking.0@.subrange(0, k as int);
                let after = tracking.0@.subrange(0, k + 1);
                assert(after == before.push(idx));
                if i == idx as int {
                    assert(after[k as int] == idx);
                    assert(after.contains(idx));
                } else {
                    assert(after.contains(i as usize) == before.contains(i as usize)) by {
                        if after.contains(i as usize) {
                            let j = choose|j: int| 0 <= j < after.len() && after[j] == i as usize;
                            assert(j < k);
                            assert(before[j] == i as usize);
                        }
                        if before.contains(i as usize) {
                            let j = choose|j: int| 0 <= j < before.len() && before[j] == i as usize;
                            assert(after[j] == i as usize);
                        }
                    }
                }
            }
        }
        k = k + 1;
    }
    proof {
        assert(tracking.0@.subrange(0, k as int) == tracking.0@);
        assert(cameras@ == cameras_after(policy, subject, tracking.0@, start));
    }
}

} // verus!
