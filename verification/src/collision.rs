//! Collision predicates between the player's circle and a shape's
//! polygon: the swept edge-crossing test and the corner proximity test.

use vstd::prelude::*;
use crate::constants::{CIRCLE_RADIUS, POS_LIMIT, VERTEX_LIMIT, VERTEX_SPAN};
use crate::game::GameState;
use crate::sprites::{
    lemma_vertices_near, spec_coords, spec_vertices, sprite_pos_ok, vertex_near, Sprite,
};

verus! {

/// The circle of radius `r` at `(cx, cy)` genuinely crosses the segment
/// from `v1` to `v2`: writing the segment as `P(t) = v1 + t (v2 - v1)`,
/// the quadratic `a t^2 + b t + c = 0` that places `P(t)` on the circle
/// has two distinct real roots and their midpoint `-b / 2a` falls
/// strictly between 0 and 1. A tangent touch, a crossing beyond the
/// segment's ends, or mere overlap without boundary crossing do not count.
pub open spec fn edge_crossed(cx: int, cy: int, r: int, v1: (i64, i64), v2: (i64, i64)) -> bool {
    let dx = v2.0 - v1.0;
    let dy = v2.1 - v1.1;
    let fx = v1.0 - cx;
    let fy = v1.1 - cy;
    let a = dx * dx + dy * dy;
    let b = 2 * (dx * fx + dy * fy);
    let c = fx * fx + fy * fy - r * r;
    &&& b * b - 4 * a * c > 0
    &&& b < 0
    &&& -b < 2 * a
}

/// Some edge of the vertex ring `vs` (wrapping from the last vertex back
/// to the first) is crossed by the circle at `(cx, cy)`.
pub open spec fn any_edge_crossed(cx: int, cy: int, r: int, vs: Seq<(i64, i64)>) -> bool {
    exists|i: int|
        0 <= i < vs.len() && edge_crossed(
            cx,
            cy,
            r,
            #[trigger] vs[i],
            vs[(i + 1) % (vs.len() as int)],
        )
}

/// The vertex `v` lies strictly within distance `r` of `(cx, cy)`.
pub open spec fn in_radius(cx: int, cy: int, r: int, v: (i64, i64)) -> bool {
    let dx = cx - v.0;
    let dy = cy - v.1;
    dx * dx + dy * dy < r * r
}

/// Some vertex of `vs` lies strictly within distance `r` of `(cx, cy)`.
pub open spec fn any_corner_hit(cx: int, cy: int, r: int, vs: Seq<(i64, i64)>) -> bool {
    exists|i: int| 0 <= i < vs.len() && in_radius(cx, cy, r, vs[i])
}

/// The player circle at `c` crosses an edge of `shape`'s polygon.
pub open spec fn spec_edge_collision(shape: Sprite, c: (i64, i64)) -> bool {
    any_edge_crossed(c.0 as int, c.1 as int, CIRCLE_RADIUS as int, spec_vertices(shape))
}

/// The player circle at `c` contains a corner of `shape`'s polygon.
pub open spec fn spec_corner_collision(shape: Sprite, c: (i64, i64)) -> bool {
    any_corner_hit(c.0 as int, c.1 as int, CIRCLE_RADIUS as int, spec_vertices(shape))
}

/// The exact swept-crossing test for one segment, in 128-bit arithmetic.
fn segment_crossed(cx: i64, cy: i64, r: i64, v1: (i64, i64), v2: (i64, i64)) -> (res: bool)
    requires
        -POS_LIMIT <= cx <= POS_LIMIT,
        -POS_LIMIT <= cy <= POS_LIMIT,
        0 <= r <= 1_000_000,
        -VERTEX_LIMIT <= v1.0 <= VERTEX_LIMIT,
        -VERTEX_LIMIT <= v1.1 <= VERTEX_LIMIT,
        -VERTEX_LIMIT <= v2.0 <= VERTEX_LIMIT,
        -VERTEX_LIMIT <= v2.1 <= VERTEX_LIMIT,
        -2 * VERTEX_SPAN <= v2.0 - v1.0 <= 2 * VERTEX_SPAN,
        -2 * VERTEX_SPAN <= v2.1 - v1.1 <= 2 * VERTEX_SPAN,
    ensures
        res == edge_crossed(cx as int, cy as int, r as int, v1, v2),
{
    let dx = (v2.0 - v1.0) as i128;
    let dy = (v2.1 - v1.1) as i128;
    let fx = (v1.0 as i128) - (cx as i128);
    let fy = (v1.1 as i128) - (cy as i128);
    proof {
        assert(0 <= dx * dx <= 40_000_000_000 && 0 <= dy * dy <= 40_000_000_000)
            by (nonlinear_arith)
            requires
                -200_000 <= dx <= 200_000,
                -200_000 <= dy <= 200_000,
        ;
        assert(0 <= fx * fx <= 9_100_000_000_000_000_000 && 0 <= fy * fy
            <= 9_100_000_000_000_000_000) by (nonlinear_arith)
            requires
                -3_000_200_000 <= fx <= 3_000_200_000,
                -3_000_200_000 <= fy <= 3_000_200_000,
        ;
        assert(-610_000_000_000_000_000 <= dx * fx <= 610_000_000_000_000_000
            && -610_000_000_000_000_000 <= dy * fy <= 610_000_000_000_000_000)
            by (nonlinear_arith)
            requires
                -200_000 <= dx <= 200_000,
                -200_000 <= dy <= 200_000,
                -3_000_200_000 <= fx <= 3_000_200_000,
                -3_000_200_000 <= fy <= 3_000_200_000,
        ;
        assert(0 <= (r as i128) * (r as i128) <= 1_000_000_000_000) by (nonlinear_arith)
            requires
                0 <= r <= 1_000_000,
        ;
    }
    let a = dx * dx + dy * dy;
    let b = 2 * (dx * fx + dy * fy);
    let c = fx * fx + fy * fy - (r as i128) * (r as i128);
    proof {
        assert(0 <= b * b <= 6_250_000_000_000_000_000_000_000_000_000_000_000) by (nonlinear_arith)
            requires
                -2_500_000_000_000_000_000 <= b <= 2_500_000_000_000_000_000,
        ;
        assert(-5_824_000_000_000_000_000_000_000_000_000 <= 4 * a * c
            <= 5_824_000_000_000_000_000_000_000_000_000) by (nonlinear_arith)
            requires
                0 <= a <= 80_000_000_000,
                -18_200_000_000_000_000_000 <= c <= 18_200_000_000_000_000_000,
        ;
    }
    let det = b * b - 4 * a * c;
    det > 0 && b < 0 && -b < 2 * a
}

/// The exact corner proximity test for one vertex.
fn vertex_within(cx: i64, cy: i64, r: i64, v: (i64, i64)) -> (res: bool)
    requires
        -POS_LIMIT <= cx <= POS_LIMIT,
        -POS_LIMIT <= cy <= POS_LIMIT,
        0 <= r <= 1_000_000,
        -VERTEX_LIMIT <= v.0 <= VERTEX_LIMIT,
        -VERTEX_LIMIT <= v.1 <= VERTEX_LIMIT,
    ensures
        res == in_radius(cx as int, cy as int, r as int, v),
{
    let dx = (cx as i128) - (v.0 as i128);
    let dy = (cy as i128) - (v.1 as i128);
    proof {
        assert(0 <= dx * dx <= 9_100_000_000_000_000_000 && 0 <= dy * dy
            <= 9_100_000_000_000_000_000) by (nonlinear_arith)
            requires
                -3_000_200_000 <= dx <= 3_000_200_000,
                -3_000_200_000 <= dy <= 3_000_200_000,
        ;
        assert(0 <= (r as i128) * (r as i128) <= 1_000_000_000_000) by (nonlinear_arith)
            requires
                0 <= r <= 1_000_000,
        ;
    }
    dx * dx + dy * dy < (r as i128) * (r as i128)
}

/// Whether the player's circle genuinely crosses an edge of `shape`'s
/// polygon; this is the trigger for a gate detonation and the lethal
/// test against enemies.
pub fn check_edge_collision(shape: &Sprite, game_state: &GameState) -> (res: bool)
    requires
        sprite_pos_ok(*shape),
        sprite_pos_ok(game_state.player.sprite),
    ensures
        res == spec_edge_collision(*shape, spec_coords(game_state.player.sprite)),
{
    let (cx, cy) = game_state.player.get_sprite().get_coords();
    let vertices = shape.get_vertices();
    proof {
        lemma_vertices_near(*shape);
    }
    let n = vertices.len();
    let ghost vs = vertices@;
    let mut i: usize = 0;
    while i < n
        invariant
            vs == spec_vertices(*shape),
            vs.len() == n,
            0 <= i <= n,
            vertices@ == vs,
            (cx, cy) == spec_coords(game_state.player.sprite),
            -POS_LIMIT <= cx <= POS_LIMIT,
            -POS_LIMIT <= cy <= POS_LIMIT,
            forall|k: int|
                0 <= k < vs.len() ==> #[trigger] vertex_near(spec_coords(*shape), vs[k]),
            sprite_pos_ok(*shape),
            forall|k: int|
                0 <= k < i ==> !edge_crossed(
                    cx as int,
                    cy as int,
                    CIRCLE_RADIUS as int,
                    #[trigger] vs[k],
                    vs[(k + 1) % (vs.len() as int)],
                ),
        decreases n - i,
    {
        let j = if i + 1 == n { 0 } else { i + 1 };
        let v1 = vertices[i];
        let v2 = vertices[j];
        proof {
            assert(vertex_near(spec_coords(*shape), vs[i as int]));
            assert(vertex_near(spec_coords(*shape), vs[j as int]));
            if i + 1 == n {
                vstd::arithmetic::div_mod::lemma_mod_self_0(vs.len() as int);
            } else {
                vstd::arithmetic::div_mod::lemma_small_mod((i + 1) as nat, vs.len());
            }
            assert(j == (i + 1) % (vs.len() as int));
        }
        if segment_crossed(cx, cy, CIRCLE_RADIUS, v1, v2) {
            return true;
        }
        i = i + 1;
    }
    false
}

/// Whether some corner of `shape`'s polygon lies inside the player's
/// circle; this is the lethal test against an aged gate.
pub fn check_corner_collision(shape: &Sprite, game_state: &GameState) -> (res: bool)
    requires
        sprite_pos_ok(*shape),
        sprite_pos_ok(game_state.player.sprite),
    ensures
        res == spec_corner_collision(*shape, spec_coords(game_state.player.sprite)),
{
    let (cx, cy) = game_state.player.get_sprite().get_coords();
    let vertices = shape.get_vertices();
    proof {
        lemma_vertices_near(*shape);
    }
    let n = vertices.len();
    let ghost vs = vertices@;
    let mut i: usize = 0;
    while i < n
        invariant
            vs == spec_vertices(*shape),
            vs.len() == n,
            0 <= i <= n,
            vertices@ == vs,
            (cx, cy) == spec_coords(game_state.player.sprite),
            -POS_LIMIT <= cx <= POS_LIMIT,
            -POS_LIMIT <= cy <= POS_LIMIT,
            forall|k: int|
                0 <= k < vs.len() ==> #[trigger] vertex_near(spec_coords(*shape), vs[k]),
            sprite_pos_ok(*shape),
            forall|k: int|
                0 <= k < i ==> !in_radius(cx as int, cy as int, CIRCLE_RADIUS as int, vs[k]),
        decreases n - i,
    {
        let v = vertices[i];
        proof {
            assert(vertex_near(spec_coords(*shape), vs[i as int]));
        }
        if vertex_within(cx, cy, CIRCLE_RADIUS, v) {
            return true;
        }
        i = i + 1;
    }
    false
}

} // verus!
