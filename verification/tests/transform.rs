use gdsu::error::ErrorKind;
use gdsu::geometry::{Point, Rect};
use gdsu::transform::{placement_fits, resolve, Angle, Transform};

fn tf(mirror: bool, rotation: Angle, x: i32, y: i32) -> Transform {
    Transform { mirror, rotation, magnification: 1, displacement: Point { x, y } }
}

fn cell_box(width: i32, height: i32) -> Rect {
    Rect { lower_left: Point { x: 0, y: 0 }, upper_right: Point { x: width, y: height } }
}

fn turn(angle: Angle, p: (i64, i64)) -> (i64, i64) {
    match angle {
        Angle::R0 => p,
        Angle::R90 => (-p.1, p.0),
        Angle::R180 => (-p.0, -p.1),
        Angle::R270 => (p.1, -p.0),
    }
}

fn drawn(origin: (i64, i64), reflected: bool, angle: Angle, p: (i64, i64)) -> (i64, i64) {
    let m = if reflected { (p.0, -p.1) } else { p };
    let t = turn(angle, m);
    (origin.0 + t.0, origin.1 + t.1)
}

fn corners(width: i64, height: i64) -> [(i64, i64); 4] {
    [(0, 0), (width, 0), (width, height), (0, height)]
}

fn sorted(mut v: Vec<(i64, i64)>) -> Vec<(i64, i64)> {
    v.sort();
    v
}

#[test]
fn angle_as_quarter_turns() {
    assert_eq!(Angle::R0.as_int(), 0);
    assert_eq!(Angle::R90.as_int(), 1);
    assert_eq!(Angle::R180.as_int(), 2);
    assert_eq!(Angle::R270.as_int(), 3);
}

#[test]
fn offsets_without_mirror() {
    let b = Some(cell_box(50, 30));
    assert_eq!(resolve(&tf(false, Angle::R0, 100, 200), b), Ok((100, 200, Angle::R0, false)));
    assert_eq!(resolve(&tf(false, Angle::R180, 100, 200), b), Ok((150, 230, Angle::R180, false)));
    assert_eq!(resolve(&tf(false, Angle::R90, 100, 200), b), Ok((130, 200, Angle::R90, false)));
    assert_eq!(resolve(&tf(false, Angle::R270, 100, 200), b), Ok((100, 250, Angle::R270, false)));
}

#[test]
fn offsets_with_mirror() {
    let b = Some(cell_box(50, 30));
    assert_eq!(resolve(&tf(true, Angle::R0, 100, 200), b), Ok((150, 200, Angle::R180, true)));
    assert_eq!(resolve(&tf(true, Angle::R180, 100, 200), b), Ok((100, 230, Angle::R0, true)));
    assert_eq!(resolve(&tf(true, Angle::R270, 100, 200), b), Ok((130, 250, Angle::R90, true)));
}

#[test]
fn mirrored_quarter_turn_keeps_the_displacement() {
    let b = Some(cell_box(50, 30));
    assert_eq!(resolve(&tf(true, Angle::R90, 100, 200), b), Ok((100, 200, Angle::R270, true)));
}

#[test]
fn extent_is_taken_from_the_box_wherever_it_lies() {
    let b = Rect { lower_left: Point { x: -20, y: 10 }, upper_right: Point { x: 30, y: 40 } };
    assert_eq!(resolve(&tf(false, Angle::R180, 0, 0), Some(b)), Ok((50, 30, Angle::R180, false)));
    assert_eq!(resolve(&tf(true, Angle::R0, -5, 5), Some(b)), Ok((45, 5, Angle::R180, true)));
}

#[test]
fn cell_without_a_box_cannot_be_placed() {
    for mirror in [false, true] {
        for rotation in [Angle::R0, Angle::R90, Angle::R180, Angle::R270] {
            assert_eq!(resolve(&tf(mirror, rotation, 1, 2), None), Err(ErrorKind::EmptyBoundingBox));
        }
    }
}

#[test]
fn origin_outside_the_plane_does_not_fit() {
    let b = cell_box(50, 30);
    assert!(placement_fits(&tf(false, Angle::R180, 100, 200), &b));
    assert!(placement_fits(&tf(false, Angle::R0, i32::MAX, i32::MAX), &b));
    assert!(!placement_fits(&tf(false, Angle::R180, i32::MAX, 0), &b));
    assert!(!placement_fits(&tf(false, Angle::R270, 0, i32::MAX - 49), &b));
    assert!(placement_fits(&tf(false, Angle::R270, 0, i32::MAX - 50), &b));
    let wide = Rect {
        lower_left: Point { x: i32::MIN, y: i32::MIN },
        upper_right: Point { x: i32::MAX, y: i32::MAX },
    };
    assert!(placement_fits(&tf(false, Angle::R180, i32::MIN, i32::MIN), &wide));
    assert!(!placement_fits(&tf(false, Angle::R180, i32::MIN + 1, i32::MIN), &wide));
    assert_eq!(
        resolve(&tf(false, Angle::R180, i32::MIN, i32::MIN), Some(wide)),
        Ok((i32::MAX, i32::MAX, Angle::R180, false))
    );
}

#[test]
fn reference_draws_the_corners_where_the_instance_has_them() {
    let (w, h) = (50i64, 30i64);
    let cases = [
        (false, Angle::R0),
        (false, Angle::R90),
        (false, Angle::R180),
        (false, Angle::R270),
        (true, Angle::R0),
        (true, Angle::R180),
    ];
    for (mirror, rotation) in cases {
        let t = tf(mirror, rotation, 100, 200);
        let (x, y, angle, reflected) = resolve(&t, Some(cell_box(w as i32, h as i32))).unwrap();
        let by_reference: Vec<(i64, i64)> = corners(w, h)
            .iter()
            .map(|c| drawn((x as i64, y as i64), reflected, angle, *c))
            .collect();
        let turned: Vec<(i64, i64)> =
            corners(w, h).iter().map(|c| drawn((0, 0), mirror, rotation, *c)).collect();
        let left = turned.iter().map(|c| c.0).min().unwrap();
        let low = turned.iter().map(|c| c.1).min().unwrap();
        let by_instance: Vec<(i64, i64)> =
            turned.iter().map(|c| (c.0 - left + 100, c.1 - low + 200)).collect();
        assert_eq!(sorted(by_reference), sorted(by_instance));
    }
}
