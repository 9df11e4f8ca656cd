use screen_pointer::point3d::Point3D;
use screen_pointer::pointer::{AfterCommit, Corner, ScreenPointer, RAY_NUMBERS};

fn set(p: &mut ScreenPointer, which: Corner, x: f64, y: f64, z: f64) {
    p.set_corner(which, x.to_bits(), y.to_bits(), z.to_bits());
}

fn coordinates(p: Point3D) -> (f64, f64, f64) {
    (f64::from_bits(p.x), f64::from_bits(p.y), f64::from_bits(p.z))
}

fn unit_pointer() -> ScreenPointer {
    let mut p = ScreenPointer::new();
    set(&mut p, Corner::TopLeft, 0.0, 1.0, 0.0);
    set(&mut p, Corner::BottomLeft, 0.0, 0.0, 0.0);
    set(&mut p, Corner::BottomRight, 1.0, 0.0, 0.0);
    p
}

#[test]
fn a_new_pointer_knows_nothing() {
    let p = ScreenPointer::new();
    assert_eq!(coordinates(p.corner(Corner::TopLeft)), (0.0, 0.0, 0.0));
    assert_eq!(coordinates(p.corner(Corner::BottomLeft)), (0.0, 0.0, 0.0));
    assert_eq!(coordinates(p.corner(Corner::BottomRight)), (0.0, 0.0, 0.0));
    assert!(p.screen().is_none());
    assert!(!p.is_streaming());
}

#[test]
fn a_new_pointer_cannot_commit() {
    let mut p = ScreenPointer::new();
    assert!(p.commit().is_err());
    assert!(p.screen().is_none());
}

#[test]
fn setting_a_corner_leaves_the_other_two() {
    let mut p = unit_pointer();
    set(&mut p, Corner::TopLeft, 7.0, 8.0, 9.0);
    assert_eq!(coordinates(p.corner(Corner::TopLeft)), (7.0, 8.0, 9.0));
    assert_eq!(coordinates(p.corner(Corner::BottomLeft)), (0.0, 0.0, 0.0));
    assert_eq!(coordinates(p.corner(Corner::BottomRight)), (1.0, 0.0, 0.0));
    set(&mut p, Corner::BottomLeft, -1.0, -2.0, -3.0);
    assert_eq!(coordinates(p.corner(Corner::TopLeft)), (7.0, 8.0, 9.0));
    assert_eq!(coordinates(p.corner(Corner::BottomLeft)), (-1.0, -2.0, -3.0));
    assert_eq!(coordinates(p.corner(Corner::BottomRight)), (1.0, 0.0, 0.0));
    set(&mut p, Corner::BottomRight, 4.0, 5.0, 6.0);
    assert_eq!(coordinates(p.corner(Corner::TopLeft)), (7.0, 8.0, 9.0));
    assert_eq!(coordinates(p.corner(Corner::BottomLeft)), (-1.0, -2.0, -3.0));
    assert_eq!(coordinates(p.corner(Corner::BottomRight)), (4.0, 5.0, 6.0));
}

#[test]
fn setting_a_corner_leaves_the_committed_screen() {
    let mut p = unit_pointer();
    assert_eq!(p.commit().unwrap(), AfterCommit::OpenStream);
    set(&mut p, Corner::TopLeft, 0.0, 5.0, 0.0);
    set(&mut p, Corner::BottomRight, 5.0, 0.0, 0.0);
    let screen = p.screen().unwrap();
    assert_eq!(coordinates(screen.top_left()), (0.0, 1.0, 0.0));
    assert_eq!(coordinates(screen.origin()), (0.0, 0.0, 0.0));
    assert_eq!(coordinates(screen.bottom_right()), (1.0, 0.0, 0.0));
    assert!(!p.is_streaming());
}

#[test]
fn commit_takes_the_buffered_corners() {
    let mut p = unit_pointer();
    p.commit().unwrap();
    set(&mut p, Corner::TopLeft, 2.0, 1.0, 0.0);
    set(&mut p, Corner::BottomLeft, 1.0, 0.0, 0.0);
    set(&mut p, Corner::BottomRight, 2.0, 0.0, 0.0);
    p.commit().unwrap();
    let screen = p.screen().unwrap();
    assert_eq!(coordinates(screen.top_left()), (2.0, 1.0, 0.0));
    assert_eq!(coordinates(screen.origin()), (1.0, 0.0, 0.0));
    assert_eq!(coordinates(screen.bottom_right()), (2.0, 0.0, 0.0));
    assert_eq!(coordinates(p.corner(Corner::TopLeft)), (2.0, 1.0, 0.0));
}

#[test]
fn a_failed_commit_keeps_the_previous_screen() {
    let mut p = unit_pointer();
    p.commit().unwrap();
    p.stream_opened();
    set(&mut p, Corner::TopLeft, 1.0, 0.0, 0.0);
    let e = p.commit().unwrap_err();
    assert_eq!(e.message(), "screen points must be distinct");
    let screen = p.screen().unwrap();
    assert_eq!(coordinates(screen.top_left()), (0.0, 1.0, 0.0));
    assert_eq!(coordinates(screen.bottom_right()), (1.0, 0.0, 0.0));
    assert_eq!(coordinates(p.corner(Corner::TopLeft)), (1.0, 0.0, 0.0));
    assert!(p.is_streaming());
}

#[test]
fn the_stream_is_opened_once() {
    let mut p = unit_pointer();
    assert_eq!(p.commit().unwrap(), AfterCommit::OpenStream);
    assert_eq!(p.commit().unwrap(), AfterCommit::OpenStream);
    p.stream_opened();
    assert!(p.is_streaming());
    assert_eq!(p.commit().unwrap(), AfterCommit::KeepStream);
}

#[test]
fn no_stream_without_a_screen() {
    let mut p = ScreenPointer::new();
    p.stream_opened();
    assert!(!p.is_streaming());
    assert!(p.screen().is_none());
}

#[test]
fn a_ray_before_any_commit_is_passed_over() {
    let p = unit_pointer();
    assert!(p.ray_target(6).is_none());
}

#[test]
fn a_ray_without_a_stream_is_passed_over() {
    let mut p = unit_pointer();
    p.commit().unwrap();
    assert!(p.ray_target(6).is_none());
}

#[test]
fn a_ray_of_six_numbers_is_aimed_at_the_active_screen() {
    let mut p = unit_pointer();
    p.commit().unwrap();
    p.stream_opened();
    assert_eq!(RAY_NUMBERS, 6);
    let screen = p.ray_target(6).unwrap();
    assert_eq!(coordinates(screen.top_left()), (0.0, 1.0, 0.0));
    assert_eq!(coordinates(screen.origin()), (0.0, 0.0, 0.0));
    assert_eq!(coordinates(screen.bottom_right()), (1.0, 0.0, 0.0));
}

#[test]
fn a_ray_of_another_length_is_passed_over() {
    let mut p = unit_pointer();
    p.commit().unwrap();
    p.stream_opened();
    assert!(p.ray_target(0).is_none());
    assert!(p.ray_target(5).is_none());
    assert!(p.ray_target(7).is_none());
}
