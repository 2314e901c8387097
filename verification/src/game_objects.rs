//! Game entities: a shape paired with per-kind behaviour data.
//!
//! The shape's variant is the entity's kind: the player is the circle,
//! enemies are diamonds, gates are triangles and multiplier pickups are
//! squares. The behaviour data carries a gate's spin, a pickup's velocity
//! and the spawn timestamp that drives grace periods and lifetimes.

use vstd::prelude::*;
use crate::constants::{
    CIRCLE_RADIUS, DECAY_DEN, DECAY_NUM, DEFAULT_ROTATION_SPEED, ENEMY_SPEED,
    MULTIPLIER_ATTRACT_MIN, MULTIPLIER_SPEED, PLAYER_SPEED, PLAYER_SPEED_DIAGONAL, PLAYER_START_X,
    PLAYER_START_Y, POS_LIMIT, ROT_FULL, SQUARE_RADIUS, VEL_LIMIT, WINDOW_HEIGHT, WINDOW_WIDTH,
};
use crate::game::{GameState, Keys};
use crate::math::{
    add_angle, added_angle, clamp_i64, clamped, dist2, dist_floor, lemma_component_le_dist,
    lemma_toward_le_delta, lemma_toward_le_num, spec_toward, sqrt_floor, toward_i64,
};
use crate::sprites::{spec_coords, sprite_pos_ok, Sprite};

verus! {

/// Kind-specific behaviour data of an entity.
#[derive(Clone, Copy, Debug, PartialEq, Eq)]
pub struct GameObjectData {
    /// A gate's signed angular step per tick, in milli-degrees.
    pub rotation_speed: Option<i64>,
    /// A pickup's velocity in milli-pixels per tick.
    pub velocity: Option<(i64, i64)>,
    /// When the entity was spawned, in host milliseconds.
    pub spawn_time: Option<u64>,
}

impl GameObjectData {
    pub fn new() -> (d: GameObjectData)
        ensures
            d.rotation_speed is None,
            d.velocity is None,
            d.spawn_time is None,
    {
        GameObjectData { rotation_speed: None, velocity: None, spawn_time: None }
    }
}

/// A game entity: its shape and its behaviour data.
#[derive(Clone, Copy, Debug, PartialEq, Eq)]
pub struct GameObject {
    pub sprite: Sprite,
    pub data: GameObjectData,
}

/// The entity's coordinates, spin and velocity are within the simulation's
/// ranges; every constructor establishes this and every update preserves it.
pub open spec fn object_wf(o: GameObject) -> bool {
    &&& sprite_pos_ok(o.sprite)
    &&& match o.data.rotation_speed {
        Some(rs) => -ROT_FULL < rs < ROT_FULL,
        None => true,
    }
    &&& match o.data.velocity {
        Some(v) => -VEL_LIMIT <= v.0 <= VEL_LIMIT && -VEL_LIMIT <= v.1 <= VEL_LIMIT,
        None => true,
    }
}

impl GameObject {
    /// An entity of the given shape with no behaviour data.
    pub fn new(sprite: Sprite) -> (o: GameObject)
        ensures
            o.sprite == sprite,
            o.data.rotation_speed is None,
            o.data.velocity is None,
            o.data.spawn_time is None,
            sprite_pos_ok(sprite) ==> object_wf(o),
    {
        GameObject { sprite, data: GameObjectData::new() }
    }

    pub fn get_sprite(&self) -> (r: &Sprite)
        ensures
            *r == self.sprite,
    {
        &self.sprite
    }

    /// The player circle at its spawn point in the middle of the playfield.
    pub fn new_player() -> (o: GameObject)
        ensures
            o.sprite == Sprite::Circle(PLAYER_START_X, PLAYER_START_Y),
            o.data == (GameObjectData { rotation_speed: None, velocity: None, spawn_time: None }),
            object_wf(o),
    {
        GameObject {
            sprite: Sprite::Circle(PLAYER_START_X, PLAYER_START_Y),
            data: GameObjectData::new(),
        }
    }

    /// A gate triangle at `coords` with the given initial rotation and
    /// signed spin, stamped with its spawn time.
    pub fn new_gate(coords: (i64, i64), angle: i64, spin: i64, now_ms: u64) -> (o: GameObject)
        requires
            -POS_LIMIT <= coords.0 <= POS_LIMIT,
            -POS_LIMIT <= coords.1 <= POS_LIMIT,
            0 <= angle < ROT_FULL,
            -ROT_FULL < spin < ROT_FULL,
        ensures
            o.sprite == Sprite::Triangle(coords.0, coords.1, angle),
            o.data == (GameObjectData {
                rotation_speed: Some(spin),
                velocity: None,
                spawn_time: Some(now_ms),
            }),
            object_wf(o),
    {
        GameObject {
            sprite: Sprite::Triangle(coords.0, coords.1, angle),
            data: GameObjectData {
                rotation_speed: Some(spin),
                velocity: None,
                spawn_time: Some(now_ms),
            },
        }
    }

    /// An enemy diamond at `coords`.
    pub fn new_enemy(coords: (i64, i64)) -> (o: GameObject)
        requires
            -POS_LIMIT <= coords.0 <= POS_LIMIT,
            -POS_LIMIT <= coords.1 <= POS_LIMIT,
        ensures
            o.sprite == Sprite::Diamond(coords.0, coords.1),
            o.data == (GameObjectData { rotation_speed: None, velocity: None, spawn_time: None }),
            object_wf(o),
    {
        GameObject { sprite: Sprite::Diamond(coords.0, coords.1), data: GameObjectData::new() }
    }

    /// A multiplier pickup square at `coords` with an initial velocity,
    /// stamped with its spawn time.
    pub fn new_multiplier(coords: (i64, i64), velocity: (i64, i64), now_ms: u64) -> (o: GameObject)
        requires
            -POS_LIMIT <= coords.0 <= POS_LIMIT,
            -POS_LIMIT <= coords.1 <= POS_LIMIT,
            -VEL_LIMIT <= velocity.0 <= VEL_LIMIT,
            -VEL_LIMIT <= velocity.1 <= VEL_LIMIT,
        ensures
            o.sprite == Sprite::Square(coords.0, coords.1),
            o.data == (GameObjectData {
                rotation_speed: None,
                velocity: Some(velocity),
                spawn_time: Some(now_ms),
            }),
            object_wf(o),
    {
        GameObject {
            sprite: Sprite::Square(coords.0, coords.1),
            data: GameObjectData {
                rotation_speed: None,
                velocity: Some(velocity),
                spawn_time: Some(now_ms),
            },
        }
    }
}

/// The signed step on one axis from a pair of opposing keys.
pub open spec fn axis_delta(neg: bool, pos: bool) -> int {
    (if pos {
        PLAYER_SPEED as int
    } else {
        0
    }) - (if neg {
        PLAYER_SPEED as int
    } else {
        0
    })
}

/// A nonzero axis step shrunk to the diagonal speed, keeping its sign.
pub open spec fn diagonal_of(d: int) -> int {
    if d > 0 {
        PLAYER_SPEED_DIAGONAL as int
    } else if d < 0 {
        -(PLAYER_SPEED_DIAGONAL as int)
    } else {
        0
    }
}

/// The player's movement for one tick: key steps on each axis, scaled by
/// `sqrt(2)/2` when the movement is diagonal.
pub open spec fn player_delta(keys: Keys) -> (int, int) {
    let dx = axis_delta(keys.left, keys.right);
    let dy = axis_delta(keys.up, keys.down);
    if dx != 0 && dy != 0 {
        (diagonal_of(dx), diagonal_of(dy))
    } else {
        (dx, dy)
    }
}

/// The player's center after one tick: stepped by the key movement and
/// clamped into the playfield, inset by the player's radius.
pub open spec fn moved_player(p: (i64, i64), keys: Keys) -> (i64, i64) {
    let d = player_delta(keys);
    (
        clamped(p.0 + d.0, CIRCLE_RADIUS as int, WINDOW_WIDTH - CIRCLE_RADIUS) as i64,
        clamped(p.1 + d.1, CIRCLE_RADIUS as int, WINDOW_HEIGHT - CIRCLE_RADIUS) as i64,
    )
}

/// An enemy's center after one tick: one enemy-speed step along the
/// direction to the player `p`, unless already within one step of it.
pub open spec fn homing_move(e: (i64, i64), p: (i64, i64)) -> (i64, i64) {
    let dx = p.0 - e.0;
    let dy = p.1 - e.1;
    let d = sqrt_floor(dx * dx + dy * dy);
    if d > ENEMY_SPEED {
        (
            (e.0 + spec_toward(dx, ENEMY_SPEED as int, d)) as i64,
            (e.1 + spec_toward(dy, ENEMY_SPEED as int, d)) as i64,
        )
    } else {
        e
    }
}

/// A pickup's center after its velocity is applied, held inside the
/// simulation's coordinate range.
pub open spec fn drifted_pos(m: (i64, i64), v: (i64, i64)) -> (i64, i64) {
    (
        clamped(m.0 + v.0, -POS_LIMIT as int, POS_LIMIT as int) as i64,
        clamped(m.1 + v.1, -POS_LIMIT as int, POS_LIMIT as int) as i64,
    )
}

/// A velocity component after one tick of multiplicative decay.
pub open spec fn decayed(v: int) -> int {
    spec_toward(v, DECAY_NUM as int, DECAY_DEN as int)
}

/// A pickup's center after the magnetic pull: one pickup-speed step
/// toward the player when closer than the attraction threshold, with a
/// zero distance left untouched.
pub open spec fn attracted_pos(m: (i64, i64), p: (i64, i64)) -> (i64, i64) {
    let dx = p.0 - m.0;
    let dy = p.1 - m.1;
    let d = sqrt_floor(dx * dx + dy * dy);
    if 0 < d && d < MULTIPLIER_ATTRACT_MIN {
        (
            (m.0 + spec_toward(dx, MULTIPLIER_SPEED as int, d)) as i64,
            (m.1 + spec_toward(dy, MULTIPLIER_SPEED as int, d)) as i64,
        )
    } else {
        m
    }
}

/// Pickup convergence, one step: while a pickup rests inside the
/// attraction band but outside collection range of the player, the
/// magnetic pull strictly shrinks its squared distance to the player.
pub proof fn lemma_attraction_pulls_closer(m: (i64, i64), p: (i64, i64))
    requires
        -POS_LIMIT <= m.0 <= POS_LIMIT,
        -POS_LIMIT <= m.1 <= POS_LIMIT,
        0 <= p.0 <= WINDOW_WIDTH,
        0 <= p.1 <= WINDOW_HEIGHT,
        CIRCLE_RADIUS + SQUARE_RADIUS <= sqrt_floor(dist2(p, m)),
        sqrt_floor(dist2(p, m)) < MULTIPLIER_ATTRACT_MIN,
    ensures
        dist2(p, attracted_pos(m, p)) < dist2(p, m),
{
    let dx = p.0 - m.0;
    let dy = p.1 - m.1;
    let d2 = dx * dx + dy * dy;
    assert(dx * dx >= 0 && dy * dy >= 0) by (nonlinear_arith);
    crate::math::lemma_sqrt_floor_exists(d2);
    let d = sqrt_floor(d2);
    let k = MULTIPLIER_SPEED as int;
    lemma_component_le_dist(dx as int, dy * dy, d);
    lemma_component_le_dist(dy as int, dx * dx, d);
    lemma_toward_le_num(dx as int, k, d);
    lemma_toward_le_num(dy as int, k, d);
    let sx = spec_toward(dx as int, k, d);
    let sy = spec_toward(dy as int, k, d);
    let mx = if dx >= 0 { dx as int } else { -dx };
    let my = if dy >= 0 { dy as int } else { -dy };
    let smx = mx * k / d;
    let smy = my * k / d;
    vstd::arithmetic::div_mod::lemma_fundamental_div_mod(mx * k, d);
    vstd::arithmetic::div_mod::lemma_mod_bound(mx * k, d);
    vstd::arithmetic::div_mod::lemma_fundamental_div_mod(my * k, d);
    vstd::arithmetic::div_mod::lemma_mod_bound(my * k, d);
    assert(dx * sx == mx * smx && mx * mx == dx * dx) by (nonlinear_arith)
        requires
            sx == (if dx >= 0 { smx } else { -smx }),
            mx == (if dx >= 0 { dx as int } else { -dx }),
    ;
    assert(dy * sy == my * smy && my * my == dy * dy) by (nonlinear_arith)
        requires
            sy == (if dy >= 0 { smy } else { -smy }),
            my == (if dy >= 0 { dy as int } else { -dy }),
    ;
    assert(d * (mx * smx) >= mx * mx * k - mx * d) by (nonlinear_arith)
        requires
            mx >= 0,
            d > 0,
            d * smx >= mx * k - d + 1,
    ;
    assert(d * (my * smy) >= my * my * k - my * d) by (nonlinear_arith)
        requires
            my >= 0,
            d > 0,
            d * smy >= my * k - d + 1,
    ;
    assert(d * (dx * sx + dy * sy) == d * (mx * smx) + d * (my * smy)) by (nonlinear_arith)
        requires
            dx * sx == mx * smx,
            dy * sy == my * smy,
    ;
    assert(mx * mx * k + my * my * k == d2 * k) by (nonlinear_arith)
        requires
            mx * mx == dx * dx,
            my * my == dy * dy,
            d2 == dx * dx + dy * dy,
    ;
    assert(mx * d <= d * d && my * d <= d * d) by (nonlinear_arith)
        requires
            0 <= mx <= d,
            0 <= my <= d,
    ;
    assert(d * (dx * sx + dy * sy) >= d2 * k - 2 * (d * d));
    assert(dx * sx + dy * sy >= d * (k - 2)) by (nonlinear_arith)
        requires
            d * (dx * sx + dy * sy) >= d2 * k - 2 * (d * d),
            d * d <= d2,
            d > 0,
            k >= 2,
    ;
    assert(sx * sx + sy * sy <= 2 * k * k) by (nonlinear_arith)
        requires
            -k <= sx <= k,
            -k <= sy <= k,
    ;
    let nx = (m.0 + sx) as i64;
    let ny = (m.1 + sy) as i64;
    assert(attracted_pos(m, p) == (nx, ny));
    assert(dist2(p, attracted_pos(m, p)) == (dx - sx) * (dx - sx) + (dy - sy) * (dy - sy));
    assert((dx - sx) * (dx - sx) + (dy - sy) * (dy - sy) == d2 - 2 * (dx * sx + dy * sy) + (sx
        * sx + sy * sy)) by (nonlinear_arith)
        requires
            d2 == dx * dx + dy * dy,
    ;
    assert(2 * (dx * sx + dy * sy) > sx * sx + sy * sy);
}

/// The entity after one tick of motion under the transient state `s`:
/// gates spin, the player follows the keys, enemies home toward the
/// player, pickups drift, decay and are pulled in; a bare point is inert.
pub open spec fn updated_object(o: GameObject, s: GameState) -> GameObject {
    match o.sprite {
        Sprite::Triangle(x, y, rot) => {
            let rs = match o.data.rotation_speed {
                Some(r) => r,
                None => DEFAULT_ROTATION_SPEED,
            };
            GameObject { sprite: Sprite::Triangle(x, y, added_angle(rot as int, rs as int) as i64), data: o.data }
        },
        Sprite::Circle(cx, cy) => {
            let m = moved_player((cx, cy), s.keys);
            GameObject { sprite: Sprite::Circle(m.0, m.1), data: o.data }
        },
        Sprite::Diamond(ex, ey) => {
            let m = homing_move((ex, ey), spec_coords(s.player.sprite));
            GameObject { sprite: Sprite::Diamond(m.0, m.1), data: o.data }
        },
        Sprite::Square(mx, my) => {
            let p = spec_coords(s.player.sprite);
            let m1 = match o.data.velocity {
                Some(v) => drifted_pos((mx, my), v),
                None => (mx, my),
            };
            let v1 = match o.data.velocity {
                Some(v) => Some((decayed(v.0 as int) as i64, decayed(v.1 as int) as i64)),
                None => None,
            };
            let m2 = attracted_pos(m1, p);
            GameObject {
                sprite: Sprite::Square(m2.0, m2.1),
                data: GameObjectData {
                    rotation_speed: o.data.rotation_speed,
                    velocity: v1,
                    spawn_time: o.data.spawn_time,
                },
            }
        },
        Sprite::Point(_, _) => o,
    }
}

/// One tick of motion never changes an entity's kind, its spawn time or
/// its spin, and keeps a velocity exactly when there was one.
pub proof fn lemma_updated_object_keeps(o: GameObject, s: GameState)
    ensures
        (updated_object(o, s).sprite is Triangle) == (o.sprite is Triangle),
        (updated_object(o, s).sprite is Circle) == (o.sprite is Circle),
        (updated_object(o, s).sprite is Diamond) == (o.sprite is Diamond),
        (updated_object(o, s).sprite is Square) == (o.sprite is Square),
        (updated_object(o, s).sprite is Point) == (o.sprite is Point),
        updated_object(o, s).data.spawn_time == o.data.spawn_time,
        updated_object(o, s).data.rotation_speed == o.data.rotation_speed,
        (updated_object(o, s).data.velocity is Some) == (o.data.velocity is Some),
{
}

/// The player's position in the transient state is inside the playfield.
pub open spec fn player_in_window(s: GameState) -> bool {
    &&& 0 <= spec_coords(s.player.sprite).0 <= WINDOW_WIDTH
    &&& 0 <= spec_coords(s.player.sprite).1 <= WINDOW_HEIGHT
}

impl GameObject {
    /// Advance this entity by one tick of motion under the current keys
    /// and player position.
    pub fn update(&mut self, game_state: &GameState)
        requires
            object_wf(*old(self)),
            player_in_window(*game_state),
        ensures
            *final(self) == updated_object(*old(self), *game_state),
            object_wf(*final(self)),
    {
        match self.sprite {
            Sprite::Triangle(x, y, rot) => {
                let rs = match self.data.rotation_speed {
                    Some(r) => r,
                    None => DEFAULT_ROTATION_SPEED,
                };
                let nr = add_angle(rot, rs);
                self.sprite = Sprite::Triangle(x, y, nr);
            },
            Sprite::Circle(cx, cy) => {
                let keys = game_state.keys;
                let mut dx: i64 = 0;
                let mut dy: i64 = 0;
                if keys.up {
                    dy = dy - PLAYER_SPEED;
                }
                if keys.left {
                    dx = dx - PLAYER_SPEED;
                }
                if keys.down {
                    dy = dy + PLAYER_SPEED;
                }
                if keys.right {
                    dx = dx + PLAYER_SPEED;
                }
                proof {
                    assert(dx == axis_delta(keys.left, keys.right));
                    assert(dy == axis_delta(keys.up, keys.down));
                }
                let sx: i64;
                let sy: i64;
                if dx != 0 && dy != 0 {
                    sx = if dx > 0 { PLAYER_SPEED_DIAGONAL } else { -PLAYER_SPEED_DIAGONAL };
                    sy = if dy > 0 { PLAYER_SPEED_DIAGONAL } else { -PLAYER_SPEED_DIAGONAL };
                } else {
                    sx = dx;
                    sy = dy;
                }
                let nx = clamp_i64(cx + sx, CIRCLE_RADIUS, WINDOW_WIDTH - CIRCLE_RADIUS);
                let ny = clamp_i64(cy + sy, CIRCLE_RADIUS, WINDOW_HEIGHT - CIRCLE_RADIUS);
                self.sprite = Sprite::Circle(nx, ny);
            },
            Sprite::Diamond(ex, ey) => {
                let (px, py) = game_state.player.get_sprite().get_coords();
                let d = dist_floor((px, py), (ex, ey));
                if d > (ENEMY_SPEED as u64) {
                    let dx = px - ex;
                    let dy = py - ey;
                    proof {
                        assert(dist2((px, py), (ex, ey)) == dx * dx + dy * dy);
                        assert(dx * dx >= 0 && dy * dy >= 0) by (nonlinear_arith);
                        lemma_component_le_dist(dx as int, dy * dy, d as int);
                        lemma_component_le_dist(dy as int, dx * dx, d as int);
                        lemma_toward_le_delta(dx as int, ENEMY_SPEED as int, d as int);
                        lemma_toward_le_delta(dy as int, ENEMY_SPEED as int, d as int);
                    }
                    let sx = toward_i64(dx, ENEMY_SPEED as u64, d);
                    let sy = toward_i64(dy, ENEMY_SPEED as u64, d);
                    self.sprite = Sprite::Diamond(ex + sx, ey + sy);
                }
            },
            Sprite::Square(mx, my) => {
                let (px, py) = game_state.player.get_sprite().get_coords();
                let m1x: i64;
                let m1y: i64;
                let new_vel: Option<(i64, i64)>;
                match self.data.velocity {
                    Some((vx, vy)) => {
                        m1x = clamp_i64(mx + vx, -POS_LIMIT, POS_LIMIT);
                        m1y = clamp_i64(my + vy, -POS_LIMIT, POS_LIMIT);
                        proof {
                            lemma_toward_le_delta(vx as int, DECAY_NUM as int, DECAY_DEN as int);
                            lemma_toward_le_delta(vy as int, DECAY_NUM as int, DECAY_DEN as int);
                        }
                        let nvx = toward_i64(vx, DECAY_NUM as u64, DECAY_DEN as u64);
                        let nvy = toward_i64(vy, DECAY_NUM as u64, DECAY_DEN as u64);
                        new_vel = Some((nvx, nvy));
                    },
                    None => {
                        m1x = mx;
                        m1y = my;
                        new_vel = None;
                    },
                }
                let d = dist_floor((px, py), (m1x, m1y));
                let mut m2x = m1x;
                let mut m2y = m1y;
                if d > 0 && d < (MULTIPLIER_ATTRACT_MIN as u64) {
                    let dx = px - m1x;
                    let dy = py - m1y;
                    proof {
                        assert(dist2((px, py), (m1x, m1y)) == dx * dx + dy * dy);
                        assert(dx * dx >= 0 && dy * dy >= 0) by (nonlinear_arith);
                        lemma_component_le_dist(dx as int, dy * dy, d as int);
                        lemma_component_le_dist(dy as int, dx * dx, d as int);
                        lemma_toward_le_num(dx as int, MULTIPLIER_SPEED as int, d as int);
                        lemma_toward_le_num(dy as int, MULTIPLIER_SPEED as int, d as int);
                    }
                    m2x = m1x + toward_i64(dx, MULTIPLIER_SPEED as u64, d);
                    m2y = m1y + toward_i64(dy, MULTIPLIER_SPEED as u64, d);
                }
                self.sprite = Sprite::Square(m2x, m2y);
                self.data = GameObjectData {
                    rotation_speed: self.data.rotation_speed,
                    velocity: new_vel,
                    spawn_time: self.data.spawn_time,
                };
            },
            Sprite::Point(_, _) => {},
        }
    }
}

} // verus!
