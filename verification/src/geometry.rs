//! Axis-aligned rectangles and the test that tells which face of one
//! rectangle another has struck.

use vstd::prelude::*;

verus! {

/// A mathematical point or extent in the plane.
pub struct Point {
    pub x: int,
    pub y: int,
}

/// A point or extent in the plane, in thousandths of a unit.
#[derive(Clone, Copy, Debug, PartialEq, Eq, Structural)]
pub struct Vec2 {
    pub x: i64,
    pub y: i64,
}

impl View for Vec2 {
    type V = Point;

    open spec fn view(&self) -> Point {
        Point { x: self.x as int, y: self.y as int }
    }
}

impl Vec2 {
    /// Builds a vector from its two coordinates.
    pub fn new(x: i64, y: i64) -> (v: Vec2)
        ensures
            v.x == x,
            v.y == y,
    {
        Vec2 { x, y }
    }
}

/// The face of the second rectangle that the first one has struck.
#[derive(Clone, Copy, Debug, PartialEq, Eq, Structural)]
pub enum Collision {
    Left,
    Right,
    Top,
    Bottom,
}

/// Twice the lower edge of the interval of width `size` centred at `centre`.
pub open spec fn low_edge(centre: int, size: int) -> int {
    2 * centre - size
}

/// Twice the upper edge of the interval of width `size` centred at `centre`.
pub open spec fn high_edge(centre: int, size: int) -> int {
    2 * centre + size
}

/// Whether rectangle `a` and rectangle `b` share interior points. A rectangle
/// is given by its centre and its extents; touching edges do not overlap.
pub open spec fn overlaps(a_pos: Point, a_size: Point, b_pos: Point, b_size: Point) -> bool {
    &&& low_edge(a_pos.x, a_size.x) < high_edge(b_pos.x, b_size.x)
    &&& high_edge(a_pos.x, a_size.x) > low_edge(b_pos.x, b_size.x)
    &&& low_edge(a_pos.y, a_size.y) < high_edge(b_pos.y, b_size.y)
    &&& high_edge(a_pos.y, a_size.y) > low_edge(b_pos.y, b_size.y)
}

/// Twice the distance by which `a` has passed the given face of `b`, moving
/// inwards: for `Left`, how far the right edge of `a` lies beyond the left
/// edge of `b`, and likewise for the other faces.
pub open spec fn penetration(
    face: Collision,
    a_pos: Point,
    a_size: Point,
    b_pos: Point,
    b_size: Point,
) -> int {
    match face {
        Collision::Left => high_edge(a_pos.x, a_size.x) - low_edge(b_pos.x, b_size.x),
        Collision::Right => high_edge(b_pos.x, b_size.x) - low_edge(a_pos.x, a_size.x),
        Collision::Top => high_edge(b_pos.y, b_size.y) - low_edge(a_pos.y, a_size.y),
        Collision::Bottom => high_edge(a_pos.y, a_size.y) - low_edge(b_pos.y, b_size.y),
    }
}

/// The place of a face in the order that settles ties: `Left`, `Right`,
/// `Top`, `Bottom`.
pub open spec fn rank(face: Collision) -> int {
    match face {
        Collision::Left => 0,
        Collision::Right => 1,
        Collision::Top => 2,
        Collision::Bottom => 3,
    }
}

/// Whether `face` is the one that `a` has struck on `b`: no face is
/// penetrated less deeply, and of the faces penetrated equally the one
/// earliest in the order of `rank` wins. So on an exact tie a side face
/// is preferred to the top or the bottom.
pub open spec fn is_struck(
    face: Collision,
    a_pos: Point,
    a_size: Point,
    b_pos: Point,
    b_size: Point,
) -> bool {
    forall|other: Collision|
        {
            let d = penetration(face, a_pos, a_size, b_pos, b_size);
            let e = #[trigger] penetration(other, a_pos, a_size, b_pos, b_size);
            d < e || (d == e && rank(face) <= rank(other))
        }
}

/// The face of `b` that `a` has struck, if the two overlap.
pub open spec fn struck_face(a_pos: Point, a_size: Point, b_pos: Point, b_size: Point) -> Option<
    Collision,
> {
    if !overlaps(a_pos, a_size, b_pos, b_size) {
        None
    } else {
        let left = penetration(Collision::Left, a_pos, a_size, b_pos, b_size);
        let right = penetration(Collision::Right, a_pos, a_size, b_pos, b_size);
        let top = penetration(Collision::Top, a_pos, a_size, b_pos, b_size);
        let bottom = penetration(Collision::Bottom, a_pos, a_size, b_pos, b_size);
        if left <= right && left <= top && left <= bottom {
            Some(Collision::Left)
        } else if right <= top && right <= bottom {
            Some(Collision::Right)
        } else if top <= bottom {
            Some(Collision::Top)
        } else {
            Some(Collision::Bottom)
        }
    }
}

/// The struck face is the least penetrated one, ties going to the face that
/// comes first in the order of `rank`; and there is one exactly when the
/// rectangles overlap.
pub proof fn struck_face_is_shallowest(a_pos: Point, a_size: Point, b_pos: Point, b_size: Point)
    ensures
        struck_face(a_pos, a_size, b_pos, b_size) is Some <==> overlaps(
            a_pos,
            a_size,
            b_pos,
            b_size,
        ),
        forall|face: Collision|
            struck_face(a_pos, a_size, b_pos, b_size) == Some(face) <==> (overlaps(
                a_pos,
                a_size,
                b_pos,
                b_size,
            ) && is_struck(face, a_pos, a_size, b_pos, b_size)),
{
    assert forall|face: Collision|
        struck_face(a_pos, a_size, b_pos, b_size) == Some(face) <==> (overlaps(
            a_pos,
            a_size,
            b_pos,
            b_size,
        ) && is_struck(face, a_pos, a_size, b_pos, b_size)) by {
        let left = penetration(Collision::Left, a_pos, a_size, b_pos, b_size);
        let right = penetration(Collision::Right, a_pos, a_size, b_pos, b_size);
        let top = penetration(Collision::Top, a_pos, a_size, b_pos, b_size);
        let bottom = penetration(Collision::Bottom, a_pos, a_size, b_pos, b_size);
    }
}

/// Tests rectangle `a` against rectangle `b` and reports the face of `b`
/// that `a` has struck. Each rectangle is given by its centre and its
/// extents.
pub fn collide(a_pos: Vec2, a_size: Vec2, b_pos: Vec2, b_size: Vec2) -> (hit: Option<Collision>)
    ensures
        hit == struck_face(a_pos@, a_size@, b_pos@, b_size@),
{
    let a_min_x: i128 = 2 * (a_pos.x as i128) - (a_size.x as i128);
    let a_max_x: i128 = 2 * (a_pos.x as i128) + (a_size.x as i128);
    let a_min_y: i128 = 2 * (a_pos.y as i128) - (a_size.y as i128);
    let a_max_y: i128 = 2 * (a_pos.y as i128) + (a_size.y as i128);
    let b_min_x: i128 = 2 * (b_pos.x as i128) - (b_size.x as i128);
    let b_max_x: i128 = 2 * (b_pos.x as i128) + (b_size.x as i128);
    let b_min_y: i128 = 2 * (b_pos.y as i128) - (b_size.y as i128);
    let b_max_y: i128 = 2 * (b_pos.y as i128) + (b_size.y as i128);
    if a_min_x < b_max_x && a_max_x > b_min_x && a_min_y < b_max_y && a_max_y > b_min_y {
        let left: i128 = a_max_x - b_min_x;
        let right: i128 = b_max_x - a_min_x;
        let top: i128 = b_max_y - a_min_y;
        let bottom: i128 = a_max_y - b_min_y;
        if left <= right && left <= top && left <= bottom {
            Some(Collision::Left)
        } else if right <= top && right <= bottom {
            Some(Collision::Right)
        } else if top <= bottom {
            Some(Collision::Top)
        } else {
            Some(Collision::Bottom)
        }
    } else {
        None
    }
}

} // verus!
