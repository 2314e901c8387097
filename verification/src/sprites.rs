//! Shape representation and vertex generation.
//!
//! Every shape carries its center; the polygonal kinds expose an ordered
//! vertex ring computed from the center, a fixed per-kind radius and, for
//! the triangle, its rotation. Circle and Point have no vertices: they are
//! collision subjects and effect markers, never collision polygons.

use vstd::prelude::*;
use crate::constants::{
    DIAMOND_RADIUS, POS_LIMIT, ROT_FULL, SQUARE_HALF_SIDE, TRIANGLE_RADIUS, VERTEX_SPAN,
};
use crate::math::{
    add_angle, cos_fixed, lemma_radial_offset_bound, lemma_sin_bounds,
    radial_offset, scale_trig, sin_fixed, spec_cos, spec_sin,
};

verus! {

/// A game shape: center coordinates in milli-pixels, and for the triangle
/// a rotation in milli-degrees.
#[derive(Clone, Copy, Debug, PartialEq, Eq, Structural)]
pub enum Sprite {
    Triangle(i64, i64, i64),
    Circle(i64, i64),
    Diamond(i64, i64),
    Square(i64, i64),
    Point(i64, i64),
}

/// The center of a shape: every variant exposes its center coordinate.
pub open spec fn spec_coords(s: Sprite) -> (i64, i64) {
    match s {
        Sprite::Triangle(x, y, _) => (x, y),
        Sprite::Circle(x, y) => (x, y),
        Sprite::Diamond(x, y) => (x, y),
        Sprite::Square(x, y) => (x, y),
        Sprite::Point(x, y) => (x, y),
    }
}

/// The shape's center is within the simulation's coordinate range and a
/// triangle's rotation is a normalised angle.
pub open spec fn sprite_pos_ok(s: Sprite) -> bool {
    &&& -POS_LIMIT <= spec_coords(s).0 <= POS_LIMIT
    &&& -POS_LIMIT <= spec_coords(s).1 <= POS_LIMIT
    &&& match s {
        Sprite::Triangle(_, _, rot) => 0 <= rot < ROT_FULL,
        _ => true,
    }
}

/// The angle of a triangle's `k`-th vertex: its rotation plus `k` thirds
/// of a turn, brought back into `[0, ROT_FULL)`.
pub open spec fn tri_angle(rot: i64, k: int) -> int {
    let s = rot + k * 120_000;
    if s >= ROT_FULL {
        s - ROT_FULL
    } else {
        s
    }
}

/// The `k`-th vertex of a triangle: the center displaced by the triangle
/// radius along the vertex angle.
pub open spec fn tri_vertex(x: i64, y: i64, rot: i64, k: int) -> (i64, i64) {
    let a = tri_angle(rot, k);
    (
        (x + radial_offset(TRIANGLE_RADIUS as int, spec_cos(a))) as i64,
        (y + radial_offset(TRIANGLE_RADIUS as int, spec_sin(a))) as i64,
    )
}

/// The ordered vertex ring of a shape. The diamond is an axis-aligned
/// rhombus; the square's corners lie at `SQUARE_HALF_SIDE` on each axis.
pub open spec fn spec_vertices(s: Sprite) -> Seq<(i64, i64)> {
    match s {
        Sprite::Triangle(x, y, rot) => seq![
            tri_vertex(x, y, rot, 0),
            tri_vertex(x, y, rot, 1),
            tri_vertex(x, y, rot, 2),
        ],
        Sprite::Diamond(x, y) => seq![
            (x, (y - DIAMOND_RADIUS) as i64),
            ((x + DIAMOND_RADIUS) as i64, y),
            (x, (y + DIAMOND_RADIUS) as i64),
            ((x - DIAMOND_RADIUS) as i64, y),
        ],
        Sprite::Square(x, y) => seq![
            ((x - SQUARE_HALF_SIDE) as i64, (y - SQUARE_HALF_SIDE) as i64),
            ((x - SQUARE_HALF_SIDE) as i64, (y + SQUARE_HALF_SIDE) as i64),
            ((x + SQUARE_HALF_SIDE) as i64, (y - SQUARE_HALF_SIDE) as i64),
            ((x + SQUARE_HALF_SIDE) as i64, (y + SQUARE_HALF_SIDE) as i64),
        ],
        Sprite::Circle(_, _) => Seq::empty(),
        Sprite::Point(_, _) => Seq::empty(),
    }
}

/// `v` lies within `VERTEX_SPAN` of the center `c` on each axis.
pub open spec fn vertex_near(c: (i64, i64), v: (i64, i64)) -> bool {
    &&& c.0 - VERTEX_SPAN <= v.0 <= c.0 + VERTEX_SPAN
    &&& c.1 - VERTEX_SPAN <= v.1 <= c.1 + VERTEX_SPAN
}

/// Every vertex of a well-placed shape stays near its center.
pub proof fn lemma_vertices_near(s: Sprite)
    requires
        sprite_pos_ok(s),
    ensures
        forall|i: int|
            0 <= i < spec_vertices(s).len() ==> #[trigger] vertex_near(
                spec_coords(s),
                spec_vertices(s)[i],
            ),
{
    match s {
        Sprite::Triangle(x, y, rot) => {
            assert forall|i: int| 0 <= i < spec_vertices(s).len() implies #[trigger] vertex_near(
                spec_coords(s),
                spec_vertices(s)[i],
            ) by {
                let a = tri_angle(rot, i);
                lemma_sin_bounds(a);
                lemma_sin_bounds(if a + 90_000 < ROT_FULL { a + 90_000 } else { a + 90_000 - ROT_FULL });
                lemma_radial_offset_bound(TRIANGLE_RADIUS as int, spec_cos(a));
                lemma_radial_offset_bound(TRIANGLE_RADIUS as int, spec_sin(a));
            }
        },
        _ => {},
    }
}

impl Sprite {
    /// The center coordinate of the shape.
    pub fn get_coords(&self) -> (r: (i64, i64))
        ensures
            r == spec_coords(*self),
    {
        match *self {
            Sprite::Triangle(x, y, _) => (x, y),
            Sprite::Circle(x, y) => (x, y),
            Sprite::Diamond(x, y) => (x, y),
            Sprite::Square(x, y) => (x, y),
            Sprite::Point(x, y) => (x, y),
        }
    }

    /// The ordered vertex ring of the shape.
    pub fn get_vertices(&self) -> (r: Vec<(i64, i64)>)
        requires
            sprite_pos_ok(*self),
        ensures
            r@ == spec_vertices(*self),
    {
        match *self {
            Sprite::Triangle(x, y, rot) => {
                let mut out: Vec<(i64, i64)> = Vec::new();
                let a0 = rot;
                let a1 = add_angle(a0, 120_000);
                let a2 = add_angle(a1, 120_000);
                proof {
                    assert(a0 == tri_angle(rot, 0));
                    assert(a1 == tri_angle(rot, 1));
                    assert(a2 == tri_angle(rot, 2));
                }
                let c0 = cos_fixed(a0);
                let s0 = sin_fixed(a0);
                out.push((x + scale_trig(TRIANGLE_RADIUS, c0), y + scale_trig(TRIANGLE_RADIUS, s0)));
                let c1 = cos_fixed(a1);
                let s1 = sin_fixed(a1);
                out.push((x + scale_trig(TRIANGLE_RADIUS, c1), y + scale_trig(TRIANGLE_RADIUS, s1)));
                let c2 = cos_fixed(a2);
                let s2 = sin_fixed(a2);
                out.push((x + scale_trig(TRIANGLE_RADIUS, c2), y + scale_trig(TRIANGLE_RADIUS, s2)));
                proof {
                    assert(out@ =~= spec_vertices(*self));
                }
                out
            },
            Sprite::Diamond(x, y) => {
                let mut out: Vec<(i64, i64)> = Vec::new();
                out.push((x, y - DIAMOND_RADIUS));
                out.push((x + DIAMOND_RADIUS, y));
                out.push((x, y + DIAMOND_RADIUS));
                out.push((x - DIAMOND_RADIUS, y));
                proof {
                    assert(out@ =~= spec_vertices(*self));
                }
                out
            },
            Sprite::Square(x, y) => {
                let mut out: Vec<(i64, i64)> = Vec::new();
                out.push((x - SQUARE_HALF_SIDE, y - SQUARE_HALF_SIDE));
                out.push((x - SQUARE_HALF_SIDE, y + SQUARE_HALF_SIDE));
                out.push((x + SQUARE_HALF_SIDE, y - SQUARE_HALF_SIDE));
                out.push((x + SQUARE_HALF_SIDE, y + SQUARE_HALF_SIDE));
                proof {
                    assert(out@ =~= spec_vertices(*self));
                }
                out
            },
            Sprite::Circle(_, _) => {
                let out: Vec<(i64, i64)> = Vec::new();
                proof {
                    assert(out@ =~= spec_vertices(*self));
                }
                out
            },
            Sprite::Point(_, _) => {
                let out: Vec<(i64, i64)> = Vec::new();
                proof {
                    assert(out@ =~= spec_vertices(*self));
                }
                out
            },
        }
    }
}

} // verus!
