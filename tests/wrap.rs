use char_motion::camera::Point;
use char_motion::wrap::apply_screen_wrap;

#[test]
fn wrap_folds_into_rectangle() {
    let w = apply_screen_wrap(Point { x: 1300, y: -501 }, 1000, 1000);
    assert_eq!(w, Point { x: 300, y: 499 });
    let w = apply_screen_wrap(Point { x: 500, y: -500 }, 1000, 1000);
    assert_eq!(w, Point { x: -500, y: -500 });
    let w = apply_screen_wrap(Point { x: 499, y: 0 }, 1000, 1000);
    assert_eq!(w, Point { x: 499, y: 0 });
}

#[test]
fn wrap_with_odd_size() {
    let w = apply_screen_wrap(Point { x: 7, y: 3 }, 5, 5);
    assert_eq!(w, Point { x: 2, y: -2 });
    let w = apply_screen_wrap(Point { x: -3, y: 0 }, 5, 5);
    assert_eq!(w, Point { x: 2, y: 0 });
}

#[test]
fn wrap_is_idempotent() {
    for (x, y) in [(1300, -501), (-123_456, 987_654), (0, 0), (999, -1000)] {
        let once = apply_screen_wrap(Point { x, y }, 1000, 800);
        assert!(once.x >= -500 && once.x < 500);
        assert!(once.y >= -400 && once.y < 400);
        assert_eq!(apply_screen_wrap(once, 1000, 800), once);
    }
}
