//! Orientation of an instance and the placement that expresses it in GDS.
//!
//! An instance of the layout model has a displacement, a rotation by a
//! multiple of 90 degrees and a mirror flag. A GDS reference has an origin, an
//! angle and a reflection flag, and draws the referenced structure reflected
//! about its own x-axis first and rotated about its own origin afterwards.
//! [`resolve`] gives the origin and orientation of the reference for an
//! instance, from the extent of the referenced cell.
use vstd::prelude::*;
use crate::error::ErrorKind;
use crate::geometry::{Point, Rect};

verus! {

/// A rotation by a multiple of 90 degrees, counter-clockwise.
#[derive(Clone, Copy, Debug, PartialEq, Eq, Structural)]
pub enum Angle {
    R0,
    R90,
    R180,
    R270,
}

/// Where and how an instance places its cell.
#[derive(Clone, Copy, Debug, PartialEq, Eq, Structural)]
pub struct Transform {
    pub mirror: bool,
    pub rotation: Angle,
    pub magnification: i32,
    pub displacement: Point,
}

impl Angle {
    /// The angle as a number of quarter turns.
    pub open spec fn quarter_turns(&self) -> int {
        match self {
            Angle::R0 => 0,
            Angle::R90 => 1,
            Angle::R180 => 2,
            Angle::R270 => 3,
        }
    }

    /// The angle as a number of quarter turns.
    pub fn as_int(&self) -> (n: u32)
        ensures
            n == self.quarter_turns(),
    {
        match self {
            Angle::R0 => 0,
            Angle::R90 => 1,
            Angle::R180 => 2,
            Angle::R270 => 3,
        }
    }

    /// Whether the angle is a quarter turn or three of them.
    pub open spec fn is_quarter(&self) -> bool {
        *self == Angle::R90 || *self == Angle::R270
    }
}

/// How far the origin of the reference lies from the displacement of the
/// instance, for a referenced cell of the given width and height.
pub open spec fn origin_offset(mirror: bool, rotation: Angle, width: int, height: int) -> (int, int) {
    match (mirror, rotation) {
        (false, Angle::R0) => (0, 0),
        (false, Angle::R180) => (width, height),
        (false, Angle::R90) => (height, 0),
        (false, Angle::R270) => (0, width),
        (true, Angle::R0) => (width, 0),
        (true, Angle::R180) => (0, height),
        (true, Angle::R90) => (0, 0),
        (true, Angle::R270) => (height, width),
    }
}

/// The angle of the reference: that of the instance, turned by a half turn
/// where the instance is mirrored.
pub open spec fn emitted_rotation(mirror: bool, rotation: Angle) -> Angle {
    if mirror {
        match rotation {
            Angle::R0 => Angle::R180,
            Angle::R90 => Angle::R270,
            Angle::R180 => Angle::R0,
            Angle::R270 => Angle::R90,
        }
    } else {
        rotation
    }
}

/// The origin of the reference for an instance of a cell with the given
/// bounding box.
pub open spec fn resolved_origin(tf: Transform, bbox: Rect) -> (int, int) {
    let off = origin_offset(tf.mirror, tf.rotation, bbox.width(), bbox.height());
    (tf.displacement.x + off.0, tf.displacement.y + off.1)
}

/// Whether the origin of the reference is a point of the GDS plane.
pub open spec fn origin_fits(tf: Transform, bbox: Rect) -> bool {
    let o = resolved_origin(tf, bbox);
    i32::MIN <= o.0 <= i32::MAX && i32::MIN <= o.1 <= i32::MAX
}

/// Tells whether [`resolve`] can express the origin of the reference.
pub fn placement_fits(tf: &Transform, bbox: &Rect) -> (b: bool)
    ensures
        b == origin_fits(*tf, *bbox),
{
    let (x, y) = wide_origin(tf, bbox);
    i32::MIN as i64 <= x && x <= i32::MAX as i64 && i32::MIN as i64 <= y && y <= i32::MAX as i64
}

/// The origin of the reference, before it is known to fit.
fn wide_origin(tf: &Transform, bbox: &Rect) -> (o: (i64, i64))
    ensures
        o.0 == resolved_origin(*tf, *bbox).0,
        o.1 == resolved_origin(*tf, *bbox).1,
{
    let width: i64 = bbox.upper_right.x as i64 - bbox.lower_left.x as i64;
    let height: i64 = bbox.upper_right.y as i64 - bbox.lower_left.y as i64;
    let (tf_x, tf_y): (i64, i64) = match (tf.mirror, tf.rotation) {
        (false, Angle::R0) => (0, 0),
        (false, Angle::R180) => (width, height),
        (false, Angle::R90) => (height, 0),
        (false, Angle::R270) => (0, width),
        (true, Angle::R0) => (width, 0),
        (true, Angle::R180) => (0, height),
        (true, Angle::R90) => (0, 0),
        (true, Angle::R270) => (height, width),
    };
    (tf.displacement.x as i64 + tf_x, tf.displacement.y as i64 + tf_y)
}

/// The angle of the reference for an instance.
fn combined_rotation(mirror: bool, rotation: Angle) -> (a: Angle)
    ensures
        a == emitted_rotation(mirror, rotation),
{
    match (mirror, rotation) {
        (false, r) => r,
        (true, Angle::R0) => Angle::R180,
        (true, Angle::R180) => Angle::R0,
        (true, Angle::R90) => Angle::R270,
        (true, Angle::R270) => Angle::R90,
    }
}

/// Works out the reference that places a cell as an instance does: the two
/// coordinates of its origin, its angle and its reflection flag. The origin is
/// the displacement of the instance moved by an offset that depends on the
/// orientation and on the width and height of the bounding box of the cell;
/// the angle is that of the instance, turned by a half turn where the
/// instance is mirrored. A cell without a bounding box cannot be placed.
pub fn resolve(tf: &Transform, bbox: Option<Rect>) -> (r: Result<(i32, i32, Angle, bool), ErrorKind>)
    requires
        bbox matches Some(b) ==> origin_fits(*tf, b),
    ensures
        match bbox {
            None => r == Err::<(i32, i32, Angle, bool), ErrorKind>(ErrorKind::EmptyBoundingBox),
            Some(b) => r matches Ok(p) && p.0 == resolved_origin(*tf, b).0 && p.1
                == resolved_origin(*tf, b).1 && p.2 == emitted_rotation(tf.mirror, tf.rotation)
                && p.3 == tf.mirror,
        },
{
    match bbox {
        None => Err(ErrorKind::EmptyBoundingBox),
        Some(b) => {
            let (x, y) = wide_origin(tf, &b);
            Ok((x as i32, y as i32, combined_rotation(tf.mirror, tf.rotation), tf.mirror))
        },
    }
}

/// Where a GDS orientation takes the point `(x, y)` of a structure: it is
/// reflected about the x-axis where the flag is set, then rotated
/// counter-clockwise about the origin.
pub open spec fn orient(reflected: bool, angle: Angle, x: int, y: int) -> (int, int) {
    let my = if reflected { -y } else { y };
    match angle {
        Angle::R0 => (x, my),
        Angle::R90 => (-my, x),
        Angle::R180 => (-x, -my),
        Angle::R270 => (my, -x),
    }
}

/// The four corners of a cell whose bounding box has its lower left corner at
/// the origin, as a reference with the given origin and orientation draws
/// them.
pub open spec fn placed_corners(
    origin: (int, int),
    reflected: bool,
    angle: Angle,
    width: int,
    height: int,
) -> Set<(int, int)> {
    let a = orient(reflected, angle, 0, 0);
    let b = orient(reflected, angle, width, 0);
    let c = orient(reflected, angle, width, height);
    let d = orient(reflected, angle, 0, height);
    set![
        (origin.0 + a.0, origin.1 + a.1),
        (origin.0 + b.0, origin.1 + b.1),
        (origin.0 + c.0, origin.1 + c.1),
        (origin.0 + d.0, origin.1 + d.1),
    ]
}

/// The least of the x and of the y coordinates that an orientation gives to
/// the corners of a cell of the given width and height.
pub open spec fn oriented_lower_left(mirror: bool, angle: Angle, width: int, height: int) -> (
    int,
    int,
) {
    let a = orient(mirror, angle, 0, 0);
    let c = orient(mirror, angle, width, height);
    (if a.0 <= c.0 { a.0 } else { c.0 }, if a.1 <= c.1 { a.1 } else { c.1 })
}

/// The four corners of a cell as the instance places them in the layout: the
/// cell is mirrored and rotated as the instance says, and then moved so that
/// the lower left corner of what results lies at the displacement.
pub open spec fn instance_corners(tf: Transform, width: int, height: int) -> Set<(int, int)> {
    let ll = oriented_lower_left(tf.mirror, tf.rotation, width, height);
    placed_corners(
        (tf.displacement.x - ll.0, tf.displacement.y - ll.1),
        tf.mirror,
        tf.rotation,
        width,
        height,
    )
}

/// The reference that [`resolve`] gives draws the corners of the cell where
/// the instance has them. This holds of a cell whose bounding box has its
/// lower left corner at the origin, for every orientation but the mirrored
/// quarter turns, and for those too where the cell has no extent.
pub proof fn lemma_resolved_corners(tf: Transform, bbox: Rect)
    requires
        bbox.wf(),
        bbox.lower_left == (Point { x: 0, y: 0 }),
        !(tf.mirror && tf.rotation.is_quarter()) || (bbox.width() == 0 && bbox.height() == 0),
    ensures
        placed_corners(
            resolved_origin(tf, bbox),
            tf.mirror,
            emitted_rotation(tf.mirror, tf.rotation),
            bbox.width(),
            bbox.height(),
        ) == instance_corners(tf, bbox.width(), bbox.height()),
{
    let w = bbox.width();
    let h = bbox.height();
    let left = placed_corners(
        resolved_origin(tf, bbox),
        tf.mirror,
        emitted_rotation(tf.mirror, tf.rotation),
        w,
        h,
    );
    let right = instance_corners(tf, w, h);
    assert(left =~= right);
}

} // verus!
