//! The root aggregate: the authoritative game state and the per-tick
//! simulation step — motion, collision resolution, explosions, pickup
//! consumption, culling and spawning.

use vstd::prelude::*;
use crate::collision::{
    check_corner_collision, check_edge_collision, spec_corner_collision, spec_edge_collision,
};
use crate::constants::{
    BOOM_STRENGTH, CIRCLE_RADIUS, ENEMY_BUFFER, EXPLOSION_RADIUS, GATE_BUFFER, GATE_GRACE_MS,
    MULTIPLIER_LIFETIME_MS, PLAYER_START_X, PLAYER_START_Y, POS_LIMIT, ROT_FULL, SCALE,
    SQUARE_RADIUS, VEL_LIMIT, WINDOW_HEIGHT, WINDOW_WIDTH,
};
use crate::game_objects::{
    lemma_updated_object_keeps, object_wf, player_in_window, updated_object, GameObject,
    GameObjectData,
};
use crate::math::{
    dist2, dist2_u64, dist_floor, lemma_component_le_dist, lemma_toward_le_num, spec_toward,
    sqrt_floor, toward_i64,
};
use crate::sprites::{spec_coords, Sprite};

verus! {

/// The movement keys currently held down.
#[derive(Clone, Copy, Debug, PartialEq, Eq, Structural)]
pub struct Keys {
    pub up: bool,
    pub left: bool,
    pub down: bool,
    pub right: bool,
}

impl Keys {
    pub fn new() -> (k: Keys)
        ensures
            k == (Keys { up: false, left: false, down: false, right: false }),
    {
        Keys { up: false, left: false, down: false, right: false }
    }
}

/// The transient state every entity reads while it moves: the held keys
/// and the player entity.
#[derive(Clone, Copy, Debug)]
pub struct GameState {
    pub keys: Keys,
    pub player: GameObject,
}

/// The initial transient state: no key held, player at its spawn point.
pub open spec fn initial_game_state() -> GameState {
    GameState {
        keys: Keys { up: false, left: false, down: false, right: false },
        player: GameObject {
            sprite: Sprite::Circle(PLAYER_START_X, PLAYER_START_Y),
            data: GameObjectData { rotation_speed: None, velocity: None, spawn_time: None },
        },
    }
}

impl GameState {
    pub fn new() -> (s: GameState)
        ensures
            s == initial_game_state(),
    {
        GameState { keys: Keys::new(), player: GameObject::new_player() }
    }
}

/// The mathematical value of a `Game`: plain values and sequences.
#[verifier::ext_equal]
pub struct GameModel {
    pub keys: Keys,
    pub player: GameObject,
    pub objects: Seq<GameObject>,
    pub score: u64,
    pub multiplier: u64,
    pub pending: Seq<(i64, i64)>,
    pub paused: bool,
    pub spawn_count: int,
    pub game_over: bool,
}

/// The root aggregate: the entity population, the player, the score
/// bookkeeping and the state-machine flags.
pub struct Game {
    pub game_state: GameState,
    pub game_objects: Vec<GameObject>,
    pub score: u64,
    pub multiplier: u64,
    pub pending_boom_locations: Vec<(i64, i64)>,
    pub paused: bool,
    pub spawn_count: usize,
    pub game_over: bool,
}

impl View for Game {
    type V = GameModel;

    open spec fn view(&self) -> GameModel {
        GameModel {
            keys: self.game_state.keys,
            player: self.game_state.player,
            objects: self.game_objects@,
            score: self.score,
            multiplier: self.multiplier,
            pending: self.pending_boom_locations@,
            paused: self.paused,
            spawn_count: self.spawn_count as int,
            game_over: self.game_over,
        }
    }
}

/// The model of a freshly created game.
pub open spec fn initial_model() -> GameModel {
    GameModel {
        keys: Keys { up: false, left: false, down: false, right: false },
        player: GameObject {
            sprite: Sprite::Circle(PLAYER_START_X, PLAYER_START_Y),
            data: GameObjectData { rotation_speed: None, velocity: None, spawn_time: None },
        },
        objects: Seq::empty(),
        score: 0,
        multiplier: 1,
        pending: Seq::empty(),
        paused: false,
        spawn_count: 1,
        game_over: false,
    }
}

/// A dynamic entity is well-formed and is neither a player circle nor a
/// bare point: those never live in the population.
pub open spec fn object_ok(o: GameObject) -> bool {
    &&& object_wf(o)
    &&& !(o.sprite is Circle)
    &&& !(o.sprite is Point)
}

pub open spec fn objects_ok(objs: Seq<GameObject>) -> bool {
    forall|i: int| 0 <= i < objs.len() ==> object_ok(#[trigger] objs[i])
}

/// A gate triangle whose edge the player's circle crosses.
pub open spec fn gate_crossed(o: GameObject, p: (i64, i64)) -> bool {
    o.sprite is Triangle && spec_edge_collision(o.sprite, p)
}

/// A gate whose grace period has elapsed: old enough to be lethal.
pub open spec fn gate_aged(o: GameObject, now: u64) -> bool {
    match o.data.spawn_time {
        Some(t) => now > t + GATE_GRACE_MS,
        None => false,
    }
}

/// An aged gate with a corner inside the player's circle.
pub open spec fn gate_lethal(o: GameObject, p: (i64, i64), now: u64) -> bool {
    o.sprite is Triangle && gate_aged(o, now) && spec_corner_collision(o.sprite, p)
}

/// An enemy whose edge the player's circle crosses.
pub open spec fn enemy_lethal(o: GameObject, p: (i64, i64)) -> bool {
    o.sprite is Diamond && spec_edge_collision(o.sprite, p)
}

pub open spec fn lethal_at(o: GameObject, p: (i64, i64), now: u64) -> bool {
    gate_lethal(o, p, now) || enemy_lethal(o, p)
}

/// Some remaining entity kills the player this tick.
pub open spec fn any_lethal(objs: Seq<GameObject>, p: (i64, i64), now: u64) -> bool {
    exists|i: int| 0 <= i < objs.len() && #[trigger] lethal_at(objs[i], p, now)
}

/// An enemy close enough to an explosion at `c` to be consumed by it.
pub open spec fn enemy_boomed(o: GameObject, c: (i64, i64)) -> bool {
    o.sprite is Diamond && dist2(spec_coords(o.sprite), c) < EXPLOSION_RADIUS * EXPLOSION_RADIUS
}

/// A pickup within collection range of the player.
pub open spec fn pickup_consumed(o: GameObject, p: (i64, i64)) -> bool {
    o.sprite is Square && dist2(spec_coords(o.sprite), p) < (CIRCLE_RADIUS + SQUARE_RADIUS) * (
    CIRCLE_RADIUS + SQUARE_RADIUS)
}

/// A non-pickup, or a pickup that has not yet outlived its lifetime.
pub open spec fn pickup_alive(o: GameObject, now: u64) -> bool {
    !(o.sprite is Square) || match o.data.spawn_time {
        Some(t) => now < t + MULTIPLIER_LIFETIME_MS,
        None => true,
    }
}

/// The initial velocity of a pickup born at `e` from an explosion at
/// `c`: directed away from `c`, with magnitude `BOOM_STRENGTH` scaled
/// down by the distance plus one pixel; zero if the distance is zero.
pub open spec fn boom_velocity(e: (i64, i64), c: (i64, i64)) -> (i64, i64) {
    let dx = e.0 - c.0;
    let dy = e.1 - c.1;
    let d = sqrt_floor(dx * dx + dy * dy);
    if d == 0 {
        (0, 0)
    } else {
        let vmag = (BOOM_STRENGTH * SCALE) / (d + SCALE);
        (spec_toward(dx, vmag, d) as i64, spec_toward(dy, vmag, d) as i64)
    }
}

/// The pickup an exploded enemy turns into.
pub open spec fn pickup_from(e: GameObject, c: (i64, i64), now: u64) -> GameObject {
    let pos = spec_coords(e.sprite);
    GameObject {
        sprite: Sprite::Square(pos.0, pos.1),
        data: GameObjectData {
            rotation_speed: None,
            velocity: Some(boom_velocity(pos, c)),
            spawn_time: Some(now),
        },
    }
}

/// Saturating add on the score and multiplier counters.
pub open spec fn sat_add_u64(a: u64, b: u64) -> u64 {
    if a + b > u64::MAX {
        u64::MAX
    } else {
        (a + b) as u64
    }
}

/// The score after `k` enemies are converted, each worth the multiplier.
pub open spec fn score_after(score: u64, mult: u64, k: nat) -> u64
    decreases k,
{
    if k == 0 {
        score
    } else {
        score_after(sat_add_u64(score, mult), mult, (k - 1) as nat)
    }
}

/// The multiplier after `k` pickups are consumed.
pub open spec fn mult_after(mult: u64, k: nat) -> u64
    decreases k,
{
    if k == 0 {
        mult
    } else {
        mult_after(sat_add_u64(mult, 1), (k - 1) as nat)
    }
}

/// Every entity after one tick of motion under the state `s`.
pub open spec fn updated_objects_seq(objs: Seq<GameObject>, s: GameState) -> Seq<GameObject> {
    objs.map_values(|o: GameObject| updated_object(o, s))
}

pub open spec fn crossed_gates_of(objs: Seq<GameObject>, p: (i64, i64)) -> Seq<GameObject> {
    objs.filter(|o: GameObject| gate_crossed(o, p))
}

pub open spec fn not_crossed_of(objs: Seq<GameObject>, p: (i64, i64)) -> Seq<GameObject> {
    objs.filter(|o: GameObject| !gate_crossed(o, p))
}

pub open spec fn boomed_of(objs: Seq<GameObject>, c: (i64, i64)) -> Seq<GameObject> {
    objs.filter(|o: GameObject| enemy_boomed(o, c))
}

pub open spec fn not_boomed_of(objs: Seq<GameObject>, c: (i64, i64)) -> Seq<GameObject> {
    objs.filter(|o: GameObject| !enemy_boomed(o, c))
}

pub open spec fn pickups_of(hit: Seq<GameObject>, c: (i64, i64), now: u64) -> Seq<GameObject> {
    hit.map_values(|e: GameObject| pickup_from(e, c, now))
}

pub open spec fn consumed_of(objs: Seq<GameObject>, p: (i64, i64)) -> Seq<GameObject> {
    objs.filter(|o: GameObject| pickup_consumed(o, p))
}

pub open spec fn not_consumed_of(objs: Seq<GameObject>, p: (i64, i64)) -> Seq<GameObject> {
    objs.filter(|o: GameObject| !pickup_consumed(o, p))
}

pub open spec fn alive_of(objs: Seq<GameObject>, now: u64) -> Seq<GameObject> {
    objs.filter(|o: GameObject| pickup_alive(o, now))
}

pub open spec fn sprites_of(objs: Seq<GameObject>) -> Seq<Sprite> {
    objs.map_values(|o: GameObject| o.sprite)
}

/// The sprites a snapshot reports: the player's first, then every
/// entity's, in population order.
pub open spec fn all_sprites(m: GameModel) -> Seq<Sprite> {
    seq![m.player.sprite] + sprites_of(m.objects)
}

pub open spec fn boom_centers(gates: Seq<GameObject>) -> Seq<(i64, i64)> {
    gates.map_values(|g: GameObject| spec_coords(g.sprite))
}

/// The population after an explosion at `c`: the spared entities in
/// their order, then one pickup per consumed enemy, in the enemies'
/// order.
pub open spec fn boomed_objects(objs: Seq<GameObject>, c: (i64, i64), now: u64) -> Seq<
    GameObject,
> {
    not_boomed_of(objs, c) + pickups_of(boomed_of(objs, c), c, now)
}

/// The score after an explosion at `c`: one multiplier per consumed
/// enemy.
pub open spec fn boom_score(objs: Seq<GameObject>, c: (i64, i64), score: u64, mult: u64) -> u64 {
    score_after(score, mult, boomed_of(objs, c).len())
}

/// The population and score after every crossed gate has detonated, in
/// order.
pub open spec fn booms_result(
    objs: Seq<GameObject>,
    score: u64,
    mult: u64,
    gates: Seq<GameObject>,
    now: u64,
) -> (Seq<GameObject>, u64)
    decreases gates.len(),
{
    if gates.len() == 0 {
        (objs, score)
    } else {
        let c = spec_coords(gates[0].sprite);
        booms_result(
            boomed_objects(objs, c, now),
            boom_score(objs, c, score, mult),
            mult,
            gates.drop_first(),
            now,
        )
    }
}

/// One full tick: motion, gate resolution (a non-empty batch of crossed
/// gates detonates and suppresses the lethal checks), explosion effects,
/// pickup consumption and culling. While paused or over, a tick changes
/// nothing.
pub open spec fn tick_spec(m: GameModel, now: u64) -> GameModel {
    if m.paused || m.game_over {
        m
    } else {
        let s0 = GameState { keys: m.keys, player: m.player };
        let p1 = updated_object(m.player, s0);
        let s1 = GameState { keys: m.keys, player: p1 };
        let objs1 = updated_objects_seq(m.objects, s1);
        let ppos = spec_coords(p1.sprite);
        let crossed = crossed_gates_of(objs1, ppos);
        let rest = not_crossed_of(objs1, ppos);
        let br = booms_result(rest, m.score, m.multiplier, crossed, now);
        let over2 = if crossed.len() == 0 {
            any_lethal(rest, ppos, now)
        } else {
            false
        };
        let pend2 = m.pending + boom_centers(crossed);
        let consumed_n = consumed_of(br.0, ppos).len();
        let objs3 = not_consumed_of(br.0, ppos);
        let objs4 = alive_of(objs3, now);
        GameModel {
            keys: m.keys,
            player: p1,
            objects: objs4,
            score: br.1,
            multiplier: mult_after(m.multiplier, consumed_n),
            pending: pend2,
            paused: m.paused,
            spawn_count: m.spawn_count,
            game_over: over2,
        }
    }
}

/// While paused or over, a tick is the identity on the game model:
/// only the explicit reset and resume calls change such a state.
pub proof fn lemma_tick_paused_or_over(m: GameModel, now: u64)
    requires
        m.paused || m.game_over,
    ensures
        tick_spec(m, now) == m,
{
}

/// Across any tick the multiplier never decreases and never drops
/// below one, and the score never decreases.
pub proof fn lemma_tick_monotone(m: GameModel, now: u64)
    requires
        m.multiplier >= 1,
    ensures
        tick_spec(m, now).multiplier >= m.multiplier,
        tick_spec(m, now).multiplier >= 1,
        tick_spec(m, now).score >= m.score,
{
    if !(m.paused || m.game_over) {
        let s0 = GameState { keys: m.keys, player: m.player };
        let p1 = updated_object(m.player, s0);
        let s1 = GameState { keys: m.keys, player: p1 };
        let objs1 = updated_objects_seq(m.objects, s1);
        let ppos = spec_coords(p1.sprite);
        let crossed = crossed_gates_of(objs1, ppos);
        let rest = not_crossed_of(objs1, ppos);
        lemma_booms_score_ge(rest, m.score, m.multiplier, crossed, now);
        let br = booms_result(rest, m.score, m.multiplier, crossed, now);
        lemma_mult_after_ge(m.multiplier, consumed_of(br.0, ppos).len());
    }
}

/// The held-key set after a key event: a recognised movement key flips
/// its flag, any other key changes nothing.
pub open spec fn keys_with(k: Keys, key: Seq<char>, held: bool) -> Keys {
    if key == "w"@ {
        Keys { up: held, left: k.left, down: k.down, right: k.right }
    } else if key == "a"@ {
        Keys { up: k.up, left: held, down: k.down, right: k.right }
    } else if key == "s"@ {
        Keys { up: k.up, left: k.left, down: held, right: k.right }
    } else if key == "d"@ {
        Keys { up: k.up, left: k.left, down: k.down, right: held }
    } else {
        k
    }
}

/// Appending an entity to a population splits through the crossing
/// filters one element at a time.
proof fn lemma_crossed_split_push(s: Seq<GameObject>, x: GameObject, p: (i64, i64))
    ensures
        crossed_gates_of(s.push(x), p) == (if gate_crossed(x, p) {
            crossed_gates_of(s, p).push(x)
        } else {
            crossed_gates_of(s, p)
        }),
        not_crossed_of(s.push(x), p) == (if !gate_crossed(x, p) {
            not_crossed_of(s, p).push(x)
        } else {
            not_crossed_of(s, p)
        }),
{
    reveal_with_fuel(Seq::filter, 2);
    assert(s.push(x).drop_last() =~= s);
    assert(s.push(x).last() == x);
}

proof fn lemma_boomed_split_push(s: Seq<GameObject>, x: GameObject, c: (i64, i64))
    ensures
        boomed_of(s.push(x), c) == (if enemy_boomed(x, c) {
            boomed_of(s, c).push(x)
        } else {
            boomed_of(s, c)
        }),
        not_boomed_of(s.push(x), c) == (if !enemy_boomed(x, c) {
            not_boomed_of(s, c).push(x)
        } else {
            not_boomed_of(s, c)
        }),
{
    reveal_with_fuel(Seq::filter, 2);
    assert(s.push(x).drop_last() =~= s);
    assert(s.push(x).last() == x);
}

proof fn lemma_consumed_split_push(s: Seq<GameObject>, x: GameObject, p: (i64, i64))
    ensures
        consumed_of(s.push(x), p) == (if pickup_consumed(x, p) {
            consumed_of(s, p).push(x)
        } else {
            consumed_of(s, p)
        }),
        not_consumed_of(s.push(x), p) == (if !pickup_consumed(x, p) {
            not_consumed_of(s, p).push(x)
        } else {
            not_consumed_of(s, p)
        }),
{
    reveal_with_fuel(Seq::filter, 2);
    assert(s.push(x).drop_last() =~= s);
    assert(s.push(x).last() == x);
}

proof fn lemma_alive_push(s: Seq<GameObject>, x: GameObject, now: u64)
    ensures
        alive_of(s.push(x), now) == (if pickup_alive(x, now) {
            alive_of(s, now).push(x)
        } else {
            alive_of(s, now)
        }),
{
    reveal_with_fuel(Seq::filter, 2);
    assert(s.push(x).drop_last() =~= s);
    assert(s.push(x).last() == x);
}

/// Below the counter's ceiling, converting `k` enemies awards exactly
/// `k` multipliers of score.
pub proof fn lemma_score_after_exact(score: u64, mult: u64, k: nat)
    requires
        score + mult * k <= u64::MAX,
    ensures
        score_after(score, mult, k) == score + mult * k,
    decreases k,
{
    if k > 0 {
        assert(mult * k == mult + mult * (k - 1)) by (nonlinear_arith)
            requires
                k >= 1,
        ;
        lemma_score_after_exact(sat_add_u64(score, mult), mult, (k - 1) as nat);
    } else {
        assert(mult * k == 0) by (nonlinear_arith)
            requires
                k == 0,
        ;
    }
}

/// An explosion at `c` awards exactly one multiplier of score per
/// enemy inside its radius, below the counter's ceiling.
pub proof fn lemma_boom_score_exact(objs: Seq<GameObject>, c: (i64, i64), score: u64, mult: u64)
    requires
        score + mult * boomed_of(objs, c).len() <= u64::MAX,
    ensures
        boom_score(objs, c, score, mult) == score + mult * boomed_of(objs, c).len(),
{
    lemma_score_after_exact(score, mult, boomed_of(objs, c).len());
}

/// Below the counter's ceiling, consuming `k` pickups raises the
/// multiplier by exactly `k`.
pub proof fn lemma_mult_after_exact(mult: u64, k: nat)
    requires
        mult + k <= u64::MAX,
    ensures
        mult_after(mult, k) == mult + k,
    decreases k,
{
    if k > 0 {
        lemma_mult_after_exact(sat_add_u64(mult, 1), (k - 1) as nat);
    }
}

proof fn lemma_score_after_ge(score: u64, mult: u64, k: nat)
    ensures
        score_after(score, mult, k) >= score,
    decreases k,
{
    if k > 0 {
        lemma_score_after_ge(sat_add_u64(score, mult), mult, (k - 1) as nat);
    }
}

proof fn lemma_mult_after_ge(mult: u64, k: nat)
    ensures
        mult_after(mult, k) >= mult,
    decreases k,
{
    if k > 0 {
        lemma_mult_after_ge(sat_add_u64(mult, 1), (k - 1) as nat);
    }
}

/// A chain of explosions never lowers the score.
proof fn lemma_booms_score_ge(
    objs: Seq<GameObject>,
    score: u64,
    mult: u64,
    gates: Seq<GameObject>,
    now: u64,
)
    ensures
        booms_result(objs, score, mult, gates, now).1 >= score,
    decreases gates.len(),
{
    if gates.len() > 0 {
        let c = spec_coords(gates[0].sprite);
        lemma_score_after_ge(score, mult, boomed_of(objs, c).len());
        lemma_booms_score_ge(
            boomed_objects(objs, c, now),
            boom_score(objs, c, score, mult),
            mult,
            gates.drop_first(),
            now,
        );
    }
}

/// Detonating the gates one more gate extends the chain at its end.
proof fn lemma_booms_result_snoc(
    objs: Seq<GameObject>,
    score: u64,
    mult: u64,
    gates: Seq<GameObject>,
    x: GameObject,
    now: u64,
)
    ensures
        ({
            let r = booms_result(objs, score, mult, gates, now);
            let c = spec_coords(x.sprite);
            booms_result(objs, score, mult, gates.push(x), now) == (
                boomed_objects(r.0, c, now),
                boom_score(r.0, c, r.1, mult),
            )
        }),
    decreases gates.len(),
{
    reveal_with_fuel(booms_result, 3);
    if gates.len() == 0 {
        assert(gates.push(x)[0] == x);
        assert(gates.push(x).drop_first() =~= Seq::<GameObject>::empty());
    } else {
        assert(gates.push(x)[0] == gates[0]);
        assert(gates.push(x).drop_first() =~= gates.drop_first().push(x));
        let c0 = spec_coords(gates[0].sprite);
        lemma_booms_result_snoc(
            boomed_objects(objs, c0, now),
            boom_score(objs, c0, score, mult),
            mult,
            gates.drop_first(),
            x,
            now,
        );
    }
}

/// A filter pass that hits nothing separates a population into itself
/// and an empty remainder.
proof fn lemma_boomed_of_none(objs: Seq<GameObject>, c: (i64, i64))
    requires
        forall|i: int| 0 <= i < objs.len() ==> !enemy_boomed(#[trigger] objs[i], c),
    ensures
        boomed_of(objs, c) == Seq::<GameObject>::empty(),
        not_boomed_of(objs, c) == objs,
    decreases objs.len(),
{
    reveal_with_fuel(Seq::filter, 2);
    if objs.len() == 0 {
        assert(boomed_of(objs, c) =~= Seq::<GameObject>::empty());
        assert(not_boomed_of(objs, c) =~= objs);
    } else {
        let prefix = objs.drop_last();
        assert(forall|i: int| 0 <= i < prefix.len() ==> !enemy_boomed(#[trigger] prefix[i], c));
        lemma_boomed_of_none(prefix, c);
        assert(!enemy_boomed(objs.last(), c));
        assert(prefix.push(objs.last()) =~= objs);
        lemma_boomed_split_push(prefix, objs.last(), c);
    }
}

/// The explosion filter keeps only entities of its source: a property
/// of every source entity holds of every spared entity.
proof fn lemma_not_boomed_keeps_all(
    s: Seq<GameObject>,
    c: (i64, i64),
    p: spec_fn(GameObject) -> bool,
)
    requires
        forall|i: int| 0 <= i < s.len() ==> p(#[trigger] s[i]),
    ensures
        forall|i: int|
            0 <= i < not_boomed_of(s, c).len() ==> p(#[trigger] not_boomed_of(s, c)[i]),
    decreases s.len(),
{
    reveal_with_fuel(Seq::filter, 2);
    if s.len() == 0 {
        assert(not_boomed_of(s, c) =~= Seq::<GameObject>::empty());
    } else {
        let prefix = s.drop_last();
        assert(forall|i: int| 0 <= i < prefix.len() ==> p(#[trigger] prefix[i]));
        lemma_not_boomed_keeps_all(prefix, c, p);
        lemma_boomed_split_push(prefix, s.last(), c);
        assert(prefix.push(s.last()) =~= s);
        assert(p(s.last()));
    }
}

/// The consumption filter keeps only entities of its source.
proof fn lemma_not_consumed_keeps_all(
    s: Seq<GameObject>,
    ppos: (i64, i64),
    p: spec_fn(GameObject) -> bool,
)
    requires
        forall|i: int| 0 <= i < s.len() ==> p(#[trigger] s[i]),
    ensures
        forall|i: int|
            0 <= i < not_consumed_of(s, ppos).len() ==> p(
                #[trigger] not_consumed_of(s, ppos)[i],
            ),
    decreases s.len(),
{
    reveal_with_fuel(Seq::filter, 2);
    if s.len() == 0 {
        assert(not_consumed_of(s, ppos) =~= Seq::<GameObject>::empty());
    } else {
        let prefix = s.drop_last();
        assert(forall|i: int| 0 <= i < prefix.len() ==> p(#[trigger] prefix[i]));
        lemma_not_consumed_keeps_all(prefix, ppos, p);
        lemma_consumed_split_push(prefix, s.last(), ppos);
        assert(prefix.push(s.last()) =~= s);
        assert(p(s.last()));
    }
}

/// The cull filter keeps only entities of its source.
proof fn lemma_alive_keeps_all(s: Seq<GameObject>, now: u64, p: spec_fn(GameObject) -> bool)
    requires
        forall|i: int| 0 <= i < s.len() ==> p(#[trigger] s[i]),
    ensures
        forall|i: int| 0 <= i < alive_of(s, now).len() ==> p(#[trigger] alive_of(s, now)[i]),
    decreases s.len(),
{
    reveal_with_fuel(Seq::filter, 2);
    if s.len() == 0 {
        assert(alive_of(s, now) =~= Seq::<GameObject>::empty());
    } else {
        let prefix = s.drop_last();
        assert(forall|i: int| 0 <= i < prefix.len() ==> p(#[trigger] prefix[i]));
        lemma_alive_keeps_all(prefix, now, p);
        lemma_alive_push(prefix, s.last(), now);
        assert(prefix.push(s.last()) =~= s);
        assert(p(s.last()));
    }
}

/// A chain of explosions never introduces a crossed gate: the spared
/// entities come from the population, and the pickups it adds are
/// squares.
proof fn lemma_booms_keep_uncrossed(
    objs: Seq<GameObject>,
    score: u64,
    mult: u64,
    gates: Seq<GameObject>,
    now: u64,
    ppos: (i64, i64),
)
    requires
        forall|i: int| 0 <= i < objs.len() ==> !gate_crossed(#[trigger] objs[i], ppos),
    ensures
        forall|i: int|
            0 <= i < booms_result(objs, score, mult, gates, now).0.len() ==> !gate_crossed(
                #[trigger] booms_result(objs, score, mult, gates, now).0[i],
                ppos,
            ),
    decreases gates.len(),
{
    let out = booms_result(objs, score, mult, gates, now).0;
    if gates.len() == 0 {
        assert forall|i: int| 0 <= i < out.len() implies !gate_crossed(out[i], ppos) by {
            assert(out[i] == objs[i]);
        }
    } else {
        let c = spec_coords(gates[0].sprite);
        let o1 = boomed_objects(objs, c, now);
        lemma_not_boomed_keeps_all(objs, c, |o: GameObject| !gate_crossed(o, ppos));
        let nb = not_boomed_of(objs, c);
        let pk = pickups_of(boomed_of(objs, c), c, now);
        assert forall|i: int| 0 <= i < o1.len() implies !gate_crossed(o1[i], ppos) by {
            if i < nb.len() {
                assert(o1[i] == nb[i]);
            } else {
                assert(o1[i] == pk[i - nb.len()]);
                assert(o1[i].sprite is Square);
            }
        }
        let s1 = boom_score(objs, c, score, mult);
        lemma_booms_keep_uncrossed(o1, s1, mult, gates.drop_first(), now, ppos);
        let rec = booms_result(o1, s1, mult, gates.drop_first(), now).0;
        assert(out == rec);
        assert forall|i: int| 0 <= i < out.len() implies !gate_crossed(out[i], ppos) by {
            assert(out[i] == rec[i]);
        }
    }
}

/// Gate resolution removes the whole crossed batch: after a running
/// tick no remaining entity is a gate whose edge the moved player
/// crosses, each crossed gate's center stands once, in order, on the
/// pending explosion queue, and a non-empty batch suppresses the
/// lethal checks, leaving the game running.
pub proof fn lemma_tick_removes_crossed_gates(m: GameModel, now: u64)
    requires
        !m.paused,
        !m.game_over,
    ensures
        ({
            let s0 = GameState { keys: m.keys, player: m.player };
            let p1 = updated_object(m.player, s0);
            let ppos = spec_coords(p1.sprite);
            let objs1 = updated_objects_seq(m.objects, GameState { keys: m.keys, player: p1 });
            let crossed = crossed_gates_of(objs1, ppos);
            &&& forall|i: int|
                0 <= i < tick_spec(m, now).objects.len() ==> !gate_crossed(
                    #[trigger] tick_spec(m, now).objects[i],
                    ppos,
                )
            &&& tick_spec(m, now).pending == m.pending + boom_centers(crossed)
            &&& crossed.len() > 0 ==> !tick_spec(m, now).game_over
        }),
{
    broadcast use vstd::seq_lib::group_filter_ensures;

    let s0 = GameState { keys: m.keys, player: m.player };
    let p1 = updated_object(m.player, s0);
    let s1 = GameState { keys: m.keys, player: p1 };
    let objs1 = updated_objects_seq(m.objects, s1);
    let ppos = spec_coords(p1.sprite);
    let crossed = crossed_gates_of(objs1, ppos);
    let rest = not_crossed_of(objs1, ppos);
    assert(forall|i: int|
        0 <= i < rest.len() ==> !gate_crossed(#[trigger] rest[i], ppos));
    lemma_booms_keep_uncrossed(rest, m.score, m.multiplier, crossed, now, ppos);
    let br = booms_result(rest, m.score, m.multiplier, crossed, now);
    lemma_not_consumed_keeps_all(br.0, ppos, |o: GameObject| !gate_crossed(o, ppos));
    let objs3 = not_consumed_of(br.0, ppos);
    lemma_alive_keeps_all(objs3, now, |o: GameObject| !gate_crossed(o, ppos));
}

/// An entity outside the blast radius survives an explosion: it still
/// stands, unchanged, in the resulting population.
pub proof fn lemma_boom_spares_distant(objs: Seq<GameObject>, c: (i64, i64), now: u64, i: int)
    requires
        0 <= i < objs.len(),
        !enemy_boomed(objs[i], c),
    ensures
        boomed_objects(objs, c, now).contains(objs[i]),
{
    broadcast use vstd::seq_lib::group_filter_ensures;

    let nb = not_boomed_of(objs, c);
    assert(nb.contains(objs[i]));
    let j = choose|j: int| 0 <= j < nb.len() && nb[j] == objs[i];
    assert(boomed_objects(objs, c, now)[j] == objs[i]);
}

/// Explosion idempotence: an explosion whose radius contains no enemy
/// neither changes the population nor awards any score.
pub proof fn lemma_boom_no_enemies(
    objs: Seq<GameObject>,
    c: (i64, i64),
    score: u64,
    mult: u64,
    now: u64,
)
    requires
        forall|i: int| 0 <= i < objs.len() ==> !enemy_boomed(#[trigger] objs[i], c),
    ensures
        boomed_objects(objs, c, now) == objs,
        boom_score(objs, c, score, mult) == score,
{
    lemma_boomed_of_none(objs, c);
    assert(pickups_of(Seq::<GameObject>::empty(), c, now) =~= Seq::<GameObject>::empty());
    assert(objs + Seq::<GameObject>::empty() =~= objs);
}

/// The read-only view handed to the presentation layer after each tick;
/// taking it drains the pending explosion events.
pub struct Snapshot {
    pub sprites: Vec<Sprite>,
    pub score: u64,
    pub multiplier: u64,
    pub game_over: bool,
    pub explosion_events: Vec<(i64, i64)>,
}

impl Game {
    /// Structural invariant: the player is a circle clamped into the
    /// playfield, the multiplier is at least one, and every entity in
    /// the population is a well-formed gate, enemy or pickup.
    pub open spec fn wf(&self) -> bool {
        &&& self.game_state.player.sprite is Circle
        &&& object_wf(self.game_state.player)
        &&& CIRCLE_RADIUS <= spec_coords(self.game_state.player.sprite).0 <= WINDOW_WIDTH
            - CIRCLE_RADIUS
        &&& CIRCLE_RADIUS <= spec_coords(self.game_state.player.sprite).1 <= WINDOW_HEIGHT
            - CIRCLE_RADIUS
        &&& self.multiplier >= 1
        &&& objects_ok(self.game_objects@)
    }

    pub fn new() -> (g: Game)
        ensures
            g@ == initial_model(),
            g.wf(),
    {
        let g = Game {
            game_state: GameState::new(),
            game_objects: Vec::new(),
            score: 0,
            multiplier: 1,
            pending_boom_locations: Vec::new(),
            paused: false,
            spawn_count: 1,
            game_over: false,
        };
        proof {
            assert(g@ =~= initial_model());
        }
        g
    }

    /// Reinitialise all state to its initial values: empty population,
    /// player recentered, keys released, score 0, multiplier 1, spawn
    /// count 1, both flags cleared and the explosion queue emptied.
    pub fn reset_game(&mut self)
        ensures
            final(self)@ == initial_model(),
            final(self).wf(),
    {
        self.game_state = GameState::new();
        self.score = 0;
        self.multiplier = 1;
        self.spawn_count = 1;
        self.game_objects = Vec::new();
        self.pending_boom_locations = Vec::new();
        self.paused = false;
        self.game_over = false;
        proof {
            assert(final(self)@ =~= initial_model());
        }
    }

    /// Record a movement key as held; unrecognised keys are ignored.
    pub fn key_down(&mut self, key: String)
        ensures
            final(self)@ == (GameModel {
                keys: keys_with(old(self)@.keys, key@, true),
                ..old(self)@
            }),
            old(self).wf() ==> final(self).wf(),
    {
        self.set_key(key, true);
    }

    /// Record a movement key as released; unrecognised keys are ignored.
    pub fn key_up(&mut self, key: String)
        ensures
            final(self)@ == (GameModel {
                keys: keys_with(old(self)@.keys, key@, false),
                ..old(self)@
            }),
            old(self).wf() ==> final(self).wf(),
    {
        self.set_key(key, false);
    }

    fn set_key(&mut self, key: String, held: bool)
        ensures
            final(self)@ == (GameModel {
                keys: keys_with(old(self)@.keys, key@, held),
                ..old(self)@
            }),
            old(self).wf() ==> final(self).wf(),
    {
        if key == "w".to_owned() {
            self.game_state.keys.up = held;
        } else if key == "a".to_owned() {
            self.game_state.keys.left = held;
        } else if key == "s".to_owned() {
            self.game_state.keys.down = held;
        } else if key == "d".to_owned() {
            self.game_state.keys.right = held;
        }
        proof {
            assert(final(self)@ =~= (GameModel {
                keys: keys_with(old(self)@.keys, key@, held),
                ..old(self)@
            }));
        }
    }

    /// Flip the pause flag; has no effect once the game is over.
    pub fn toggle_pause(&mut self)
        ensures
            old(self).game_over ==> final(self)@ == old(self)@,
            !old(self).game_over ==> final(self)@ == (GameModel {
                paused: !old(self)@.paused,
                ..old(self)@
            }),
            old(self).wf() ==> final(self).wf(),
    {
        if !self.game_over {
            self.paused = !self.paused;
            proof {
                assert(final(self)@ =~= (GameModel { paused: !old(self)@.paused, ..old(self)@ }));
            }
        }
    }

    /// The action bound to the primary key: a full reset once the game
    /// is over, a pause toggle otherwise.
    pub fn handle_primary_action(&mut self)
        ensures
            old(self).game_over ==> final(self)@ == initial_model(),
            !old(self).game_over ==> final(self)@ == (GameModel {
                paused: !old(self)@.paused,
                ..old(self)@
            }),
            old(self).game_over ==> final(self).wf(),
            old(self).wf() ==> final(self).wf(),
    {
        if self.game_over {
            self.reset_game();
        } else {
            self.paused = !self.paused;
            proof {
                assert(final(self)@ =~= (GameModel { paused: !old(self)@.paused, ..old(self)@ }));
            }
        }
    }

    /// Every visible sprite: the player's first, then one per entity.
    pub fn get_sprites(&self) -> (r: Vec<Sprite>)
        ensures
            r@ == all_sprites(self@),
    {
        let mut sprites: Vec<Sprite> = Vec::new();
        sprites.push(self.game_state.player.sprite);
        let n = self.game_objects.len();
        let mut i: usize = 0;
        while i < n
            invariant
                n == self.game_objects@.len(),
                0 <= i <= n,
                sprites@.len() == i + 1,
                sprites@[0] == self.game_state.player.sprite,
                forall|k: int| 0 <= k < i ==> sprites@[k + 1] == self.game_objects@[k].sprite,
            decreases n - i,
        {
            sprites.push(self.game_objects[i].sprite);
            i = i + 1;
        }
        proof {
            assert(sprites@ =~= all_sprites(self@));
        }
        sprites
    }

    /// The read-only snapshot after a tick; drains the pending
    /// explosion-event queue.
    pub fn snapshot(&mut self) -> (snap: Snapshot)
        ensures
            snap.sprites@ == all_sprites(old(self)@),
            snap.score == old(self)@.score,
            snap.multiplier == old(self)@.multiplier,
            snap.game_over == old(self)@.game_over,
            snap.explosion_events@ == old(self)@.pending,
            final(self)@ == (GameModel { pending: Seq::empty(), ..old(self)@ }),
            old(self).wf() ==> final(self).wf(),
    {
        let sprites = self.get_sprites();
        let n = self.pending_boom_locations.len();
        let mut events: Vec<(i64, i64)> = Vec::new();
        let mut i: usize = 0;
        while i < n
            invariant
                n == self.pending_boom_locations@.len(),
                0 <= i <= n,
                events@ == self.pending_boom_locations@.take(i as int),
            decreases n - i,
        {
            events.push(self.pending_boom_locations[i]);
            proof {
                assert(events@ =~= self.pending_boom_locations@.take(i + 1));
            }
            i = i + 1;
        }
        proof {
            assert(events@ =~= self.pending_boom_locations@);
        }
        self.pending_boom_locations.clear();
        proof {
            assert(final(self)@ =~= (GameModel { pending: Seq::empty(), ..old(self)@ }));
        }
        Snapshot {
            sprites,
            score: self.score,
            multiplier: self.multiplier,
            game_over: self.game_over,
            explosion_events: events,
        }
    }
}

impl Game {
    /// Move every entity one tick: the player first, then the
    /// population, each against the freshly moved player.
    fn update_entities(&mut self)
        requires
            old(self).wf(),
        ensures
            final(self).wf(),
            final(self).game_state.keys == old(self).game_state.keys,
            final(self).game_state.player == updated_object(
                old(self).game_state.player,
                old(self).game_state,
            ),
            final(self).game_objects@ == updated_objects_seq(
                old(self).game_objects@,
                final(self).game_state,
            ),
            final(self).score == old(self).score,
            final(self).multiplier == old(self).multiplier,
            final(self).pending_boom_locations@ == old(self).pending_boom_locations@,
            final(self).paused == old(self).paused,
            final(self).spawn_count == old(self).spawn_count,
            final(self).game_over == old(self).game_over,
    {
        let gs0 = self.game_state;
        proof {
            assert(player_in_window(gs0));
        }
        self.game_state.player.update(&gs0);
        proof {
            assert(self.game_state.player.sprite is Circle);
            assert(player_in_window(self.game_state));
        }
        let gs1 = self.game_state;
        let n = self.game_objects.len();
        let mut i: usize = 0;
        while i < n
            invariant
                n == self.game_objects@.len(),
                n == old(self).game_objects@.len(),
                0 <= i <= n,
                self.game_state == gs1,
                gs1.keys == old(self).game_state.keys,
                gs1.player == updated_object(old(self).game_state.player, old(self).game_state),
                gs1.player.sprite is Circle,
                object_wf(gs1.player),
                CIRCLE_RADIUS <= spec_coords(gs1.player.sprite).0 <= WINDOW_WIDTH - CIRCLE_RADIUS,
                CIRCLE_RADIUS <= spec_coords(gs1.player.sprite).1 <= WINDOW_HEIGHT - CIRCLE_RADIUS,
                player_in_window(gs1),
                objects_ok(old(self).game_objects@),
                forall|k: int|
                    0 <= k < i ==> #[trigger] self.game_objects@[k] == updated_object(
                        old(self).game_objects@[k],
                        gs1,
                    ),
                forall|k: int| 0 <= k < i ==> object_ok(#[trigger] self.game_objects@[k]),
                forall|k: int|
                    i <= k < n ==> #[trigger] self.game_objects@[k] == old(
                        self,
                    ).game_objects@[k],
                self.score == old(self).score,
                self.multiplier == old(self).multiplier,
                self.pending_boom_locations@ == old(self).pending_boom_locations@,
                self.paused == old(self).paused,
                self.spawn_count == old(self).spawn_count,
                self.game_over == old(self).game_over,
            decreases n - i,
        {
            let mut o = self.game_objects[i];
            proof {
                assert(object_ok(old(self).game_objects@[i as int]));
            }
            o.update(&gs1);
            proof {
                lemma_updated_object_keeps(old(self).game_objects@[i as int], gs1);
            }
            self.game_objects.set(i, o);
            i = i + 1;
        }
        proof {
            assert(self.game_objects@ =~= updated_objects_seq(old(self).game_objects@, gs1));
        }
    }

    /// Remove and return, as one batch, every gate whose edge the player
    /// crosses; the remaining population keeps its order.
    fn extract_crossed_gates(&mut self) -> (crossed: Vec<GameObject>)
        requires
            old(self).wf(),
        ensures
            final(self).wf(),
            final(self).game_objects@ == not_crossed_of(
                old(self).game_objects@,
                spec_coords(old(self).game_state.player.sprite),
            ),
            crossed@ == crossed_gates_of(
                old(self).game_objects@,
                spec_coords(old(self).game_state.player.sprite),
            ),
            objects_ok(crossed@),
            final(self).game_state == old(self).game_state,
            final(self).score == old(self).score,
            final(self).multiplier == old(self).multiplier,
            final(self).pending_boom_locations@ == old(self).pending_boom_locations@,
            final(self).paused == old(self).paused,
            final(self).spawn_count == old(self).spawn_count,
            final(self).game_over == old(self).game_over,
    {
        let ghost ppos = spec_coords(self.game_state.player.sprite);
        let ghost objs0 = self.game_objects@;
        let n = self.game_objects.len();
        let mut kept: Vec<GameObject> = Vec::new();
        let mut crossed: Vec<GameObject> = Vec::new();
        let mut i: usize = 0;
        while i < n
            invariant
                old(self).wf(),
                *self == *old(self),
                objs0 == old(self).game_objects@,
                ppos == spec_coords(old(self).game_state.player.sprite),
                n == objs0.len(),
                0 <= i <= n,
                kept@ == not_crossed_of(objs0.take(i as int), ppos),
                crossed@ == crossed_gates_of(objs0.take(i as int), ppos),
                objects_ok(kept@),
                objects_ok(crossed@),
            decreases n - i,
        {
            let o = self.game_objects[i];
            let is_hit = match o.sprite {
                Sprite::Triangle(_, _, _) => check_edge_collision(&o.sprite, &self.game_state),
                _ => false,
            };
            proof {
                assert(object_ok(objs0[i as int]));
                assert(is_hit == gate_crossed(o, ppos));
                assert(objs0.take(i + 1) =~= objs0.take(i as int).push(o));
                lemma_crossed_split_push(objs0.take(i as int), o, ppos);
            }
            if is_hit {
                crossed.push(o);
            } else {
                kept.push(o);
            }
            i = i + 1;
        }
        proof {
            assert(objs0.take(n as int) =~= objs0);
        }
        self.game_objects = kept;
        crossed
    }

    /// Whether any remaining entity kills the player this tick: an aged
    /// gate's corner inside the player's circle, or an enemy edge the
    /// circle crosses.
    fn lethal_hit(&self, now_ms: u64) -> (hit: bool)
        requires
            self.wf(),
        ensures
            hit == any_lethal(
                self.game_objects@,
                spec_coords(self.game_state.player.sprite),
                now_ms,
            ),
    {
        let ghost ppos = spec_coords(self.game_state.player.sprite);
        let n = self.game_objects.len();
        let mut found = false;
        let mut i: usize = 0;
        while i < n
            invariant
                self.wf(),
                ppos == spec_coords(self.game_state.player.sprite),
                n == self.game_objects@.len(),
                0 <= i <= n,
                found == (exists|k: int|
                    0 <= k < i && #[trigger] lethal_at(self.game_objects@[k], ppos, now_ms)),
            decreases n - i,
        {
            let o = self.game_objects[i];
            proof {
                assert(object_ok(self.game_objects@[i as int]));
            }
            let l = match o.sprite {
                Sprite::Triangle(_, _, _) => {
                    let aged = match o.data.spawn_time {
                        Some(t) => now_ms >= t && now_ms - t > GATE_GRACE_MS,
                        None => false,
                    };
                    if aged {
                        check_corner_collision(&o.sprite, &self.game_state)
                    } else {
                        false
                    }
                },
                Sprite::Diamond(_, _) => check_edge_collision(&o.sprite, &self.game_state),
                _ => false,
            };
            proof {
                assert(l == lethal_at(o, ppos, now_ms));
                if l {
                    assert(lethal_at(self.game_objects@[i as int], ppos, now_ms));
                }
            }
            if l {
                found = true;
            }
            i = i + 1;
        }
        found
    }

    /// Remove every pickup within collection range of the player and
    /// bump the multiplier once per pickup removed.
    fn consume_pickups(&mut self)
        requires
            old(self).wf(),
        ensures
            final(self).wf(),
            final(self).game_objects@ == not_consumed_of(
                old(self).game_objects@,
                spec_coords(old(self).game_state.player.sprite),
            ),
            final(self).multiplier == mult_after(
                old(self).multiplier,
                consumed_of(
                    old(self).game_objects@,
                    spec_coords(old(self).game_state.player.sprite),
                ).len(),
            ),
            final(self).multiplier >= old(self).multiplier,
            final(self).game_state == old(self).game_state,
            final(self).score == old(self).score,
            final(self).pending_boom_locations@ == old(self).pending_boom_locations@,
            final(self).paused == old(self).paused,
            final(self).spawn_count == old(self).spawn_count,
            final(self).game_over == old(self).game_over,
    {
        let ghost ppos = spec_coords(self.game_state.player.sprite);
        let ghost objs0 = self.game_objects@;
        let (px, py) = self.game_state.player.get_sprite().get_coords();
        let reach2: u64 = ((CIRCLE_RADIUS + SQUARE_RADIUS) as u64) * ((CIRCLE_RADIUS
            + SQUARE_RADIUS) as u64);
        let n = self.game_objects.len();
        let mut kept: Vec<GameObject> = Vec::new();
        let mut eaten: Vec<GameObject> = Vec::new();
        let mut i: usize = 0;
        while i < n
            invariant
                old(self).wf(),
                *self == *old(self),
                objs0 == old(self).game_objects@,
                ppos == spec_coords(old(self).game_state.player.sprite),
                (px, py) == ppos,
                reach2 == (CIRCLE_RADIUS + SQUARE_RADIUS) * (CIRCLE_RADIUS + SQUARE_RADIUS),
                n == objs0.len(),
                0 <= i <= n,
                kept@ == not_consumed_of(objs0.take(i as int), ppos),
                eaten@ == consumed_of(objs0.take(i as int), ppos),
                objects_ok(kept@),
            decreases n - i,
        {
            let o = self.game_objects[i];
            proof {
                assert(object_ok(objs0[i as int]));
            }
            let is_hit = match o.sprite {
                Sprite::Square(mx, my) => dist2_u64((mx, my), (px, py)) < reach2,
                _ => false,
            };
            proof {
                assert(is_hit == pickup_consumed(o, ppos));
                assert(objs0.take(i + 1) =~= objs0.take(i as int).push(o));
                lemma_consumed_split_push(objs0.take(i as int), o, ppos);
            }
            if is_hit {
                eaten.push(o);
            } else {
                kept.push(o);
            }
            i = i + 1;
        }
        proof {
            assert(objs0.take(n as int) =~= objs0);
        }
        self.game_objects = kept;
        let ghost mult0 = self.multiplier;
        let m = eaten.len();
        let mut j: usize = 0;
        while j < m
            invariant
                0 <= j <= m,
                m == consumed_of(objs0, ppos).len(),
                mult_after(mult0, m as nat) == mult_after(self.multiplier, (m - j) as nat),
                self.multiplier >= mult0,
                mult0 == old(self).multiplier,
                objs0 == old(self).game_objects@,
                ppos == spec_coords(old(self).game_state.player.sprite),
                self.game_objects@ == not_consumed_of(objs0, ppos),
                objects_ok(self.game_objects@),
                self.game_state == old(self).game_state,
                self.score == old(self).score,
                self.pending_boom_locations@ == old(self).pending_boom_locations@,
                self.paused == old(self).paused,
                self.spawn_count == old(self).spawn_count,
                self.game_over == old(self).game_over,
                old(self).wf(),
            decreases m - j,
        {
            self.multiplier = self.multiplier.saturating_add(1);
            j = j + 1;
        }
    }

    /// Drop every pickup that has outlived its lifetime.
    fn cull(&mut self, now_ms: u64)
        requires
            old(self).wf(),
        ensures
            final(self).wf(),
            final(self).game_objects@ == alive_of(old(self).game_objects@, now_ms),
            final(self).game_state == old(self).game_state,
            final(self).score == old(self).score,
            final(self).multiplier == old(self).multiplier,
            final(self).pending_boom_locations@ == old(self).pending_boom_locations@,
            final(self).paused == old(self).paused,
            final(self).spawn_count == old(self).spawn_count,
            final(self).game_over == old(self).game_over,
    {
        let ghost objs0 = self.game_objects@;
        let n = self.game_objects.len();
        let mut kept: Vec<GameObject> = Vec::new();
        let mut i: usize = 0;
        while i < n
            invariant
                old(self).wf(),
                *self == *old(self),
                objs0 == old(self).game_objects@,
                n == objs0.len(),
                0 <= i <= n,
                kept@ == alive_of(objs0.take(i as int), now_ms),
                objects_ok(kept@),
            decreases n - i,
        {
            let o = self.game_objects[i];
            proof {
                assert(object_ok(objs0[i as int]));
            }
            let keep = match o.sprite {
                Sprite::Square(_, _) => match o.data.spawn_time {
                    Some(t) => now_ms < t || now_ms - t < MULTIPLIER_LIFETIME_MS,
                    None => true,
                },
                _ => true,
            };
            proof {
                assert(keep == pickup_alive(o, now_ms));
                assert(objs0.take(i + 1) =~= objs0.take(i as int).push(o));
                lemma_alive_push(objs0.take(i as int), o, now_ms);
            }
            if keep {
                kept.push(o);
            }
            i = i + 1;
        }
        proof {
            assert(objs0.take(n as int) =~= objs0);
        }
        self.game_objects = kept;
    }

    /// Detonate an explosion at `(bx, by)`: every enemy within the
    /// explosion radius is removed, awards one multiplier of score and
    /// leaves behind a pickup flying away from the blast.
    fn boom(&mut self, bx: i64, by: i64, now_ms: u64)
        requires
            old(self).wf(),
            -POS_LIMIT <= bx <= POS_LIMIT,
            -POS_LIMIT <= by <= POS_LIMIT,
        ensures
            final(self).wf(),
            final(self).game_objects@ == boomed_objects(
                old(self).game_objects@,
                (bx, by),
                now_ms,
            ),
            final(self).score == boom_score(
                old(self).game_objects@,
                (bx, by),
                old(self).score,
                old(self).multiplier,
            ),
            final(self).score >= old(self).score,
            final(self).game_state == old(self).game_state,
            final(self).multiplier == old(self).multiplier,
            final(self).pending_boom_locations@ == old(self).pending_boom_locations@,
            final(self).paused == old(self).paused,
            final(self).spawn_count == old(self).spawn_count,
            final(self).game_over == old(self).game_over,
    {
        let ghost c = (bx, by);
        let ghost objs0 = self.game_objects@;
        let er2: u64 = (EXPLOSION_RADIUS as u64) * (EXPLOSION_RADIUS as u64);
        let n = self.game_objects.len();
        let mut kept: Vec<GameObject> = Vec::new();
        let mut hit: Vec<GameObject> = Vec::new();
        let mut i: usize = 0;
        while i < n
            invariant
                old(self).wf(),
                *self == *old(self),
                objs0 == old(self).game_objects@,
                c == (bx, by),
                -POS_LIMIT <= bx <= POS_LIMIT,
                -POS_LIMIT <= by <= POS_LIMIT,
                er2 == EXPLOSION_RADIUS * EXPLOSION_RADIUS,
                n == objs0.len(),
                0 <= i <= n,
                kept@ == not_boomed_of(objs0.take(i as int), c),
                hit@ == boomed_of(objs0.take(i as int), c),
                objects_ok(kept@),
                objects_ok(hit@),
            decreases n - i,
        {
            let o = self.game_objects[i];
            proof {
                assert(object_ok(objs0[i as int]));
            }
            let is_hit = match o.sprite {
                Sprite::Diamond(ex, ey) => dist2_u64((ex, ey), (bx, by)) < er2,
                _ => false,
            };
            proof {
                assert(is_hit == enemy_boomed(o, c));
                assert(objs0.take(i + 1) =~= objs0.take(i as int).push(o));
                lemma_boomed_split_push(objs0.take(i as int), o, c);
            }
            if is_hit {
                hit.push(o);
            } else {
                kept.push(o);
            }
            i = i + 1;
        }
        proof {
            assert(objs0.take(n as int) =~= objs0);
        }
        self.game_objects = kept;
        let ghost kept0 = self.game_objects@;
        let ghost score0 = self.score;
        let m = hit.len();
        let mut j: usize = 0;
        while j < m
            invariant
                old(self).wf(),
                objs0 == old(self).game_objects@,
                c == (bx, by),
                -POS_LIMIT <= bx <= POS_LIMIT,
                -POS_LIMIT <= by <= POS_LIMIT,
                m == hit@.len(),
                hit@ == boomed_of(objs0, c),
                objects_ok(hit@),
                kept0 == not_boomed_of(objs0, c),
                0 <= j <= m,
                self.game_objects@ == kept0 + pickups_of(hit@.take(j as int), c, now_ms),
                objects_ok(self.game_objects@),
                score0 == old(self).score,
                score_after(score0, old(self).multiplier, m as nat) == score_after(
                    self.score,
                    old(self).multiplier,
                    (m - j) as nat,
                ),
                self.score >= score0,
                self.game_state == old(self).game_state,
                self.multiplier == old(self).multiplier,
                self.pending_boom_locations@ == old(self).pending_boom_locations@,
                self.paused == old(self).paused,
                self.spawn_count == old(self).spawn_count,
                self.game_over == old(self).game_over,
            decreases m - j,
        {
            let e = hit[j];
            proof {
                assert(object_ok(hit@[j as int]));
            }
            let (ex, ey) = e.get_sprite().get_coords();
            let d = dist_floor((ex, ey), (bx, by));
            let vel: (i64, i64);
            if d == 0 {
                vel = (0, 0);
            } else {
                let num: u64 = (BOOM_STRENGTH * SCALE) as u64;
                let vmag = num / (d + (SCALE as u64));
                let dx = ex - bx;
                let dy = ey - by;
                proof {
                    vstd::arithmetic::div_mod::lemma_div_multiples_vanish(
                        500_000,
                        1000,
                    );
                    vstd::arithmetic::div_mod::lemma_div_is_ordered_by_denominator(
                        500_000_000,
                        1000,
                        d as int + 1000,
                    );
                    assert(vmag <= 500_000);
                    assert(dist2((ex, ey), (bx, by)) == dx * dx + dy * dy);
                    assert(dx * dx >= 0 && dy * dy >= 0) by (nonlinear_arith);
                    lemma_component_le_dist(dx as int, dy * dy, d as int);
                    lemma_component_le_dist(dy as int, dx * dx, d as int);
                    lemma_toward_le_num(dx as int, vmag as int, d as int);
                    lemma_toward_le_num(dy as int, vmag as int, d as int);
                }
                let vx = toward_i64(dx, vmag, d);
                let vy = toward_i64(dy, vmag, d);
                vel = (vx, vy);
            }
            self.score = self.score.saturating_add(self.multiplier);
            let p = GameObject::new_multiplier((ex, ey), vel, now_ms);
            proof {
                assert(p == pickup_from(e, c, now_ms));
                assert(hit@.take(j + 1) =~= hit@.take(j as int).push(e));
                assert(pickups_of(hit@.take(j + 1), c, now_ms) =~= pickups_of(
                    hit@.take(j as int),
                    c,
                    now_ms,
                ).push(p));
            }
            self.game_objects.push(p);
            proof {
                assert(self.game_objects@ =~= kept0 + pickups_of(hit@.take(j + 1), c, now_ms));
            }
            j = j + 1;
        }
        proof {
            assert(hit@.take(m as int) =~= hit@);
        }
    }

    /// Advance the simulation by one fixed step: move everything,
    /// resolve gate crossings (detonations suppress the lethal checks
    /// this tick), then lethal contacts, pickup consumption and culling.
    /// While paused or over, a tick changes nothing. The multiplier
    /// never decreases and never drops below one, and the score never
    /// decreases.
    pub fn tick(&mut self, now_ms: u64)
        requires
            old(self).wf(),
        ensures
            final(self).wf(),
            final(self)@ == tick_spec(old(self)@, now_ms),
            (old(self).paused || old(self).game_over) ==> final(self)@ == old(self)@,
            final(self).multiplier >= old(self).multiplier,
            final(self).score >= old(self).score,
            final(self).multiplier >= 1,
            CIRCLE_RADIUS <= spec_coords(final(self).game_state.player.sprite).0 <= WINDOW_WIDTH
                - CIRCLE_RADIUS,
            CIRCLE_RADIUS <= spec_coords(final(self).game_state.player.sprite).1 <= WINDOW_HEIGHT
                - CIRCLE_RADIUS,
    {
        if self.paused || self.game_over {
            return ;
        }
        let ghost m0 = self@;
        self.update_entities();
        let ghost gs1 = self.game_state;
        let ghost objs1 = self.game_objects@;
        proof {
            assert(old(self).game_state == (GameState { keys: m0.keys, player: m0.player }));
        }
        let crossed = self.extract_crossed_gates();
        let ghost ppos = spec_coords(gs1.player.sprite);
        let ghost rest0 = self.game_objects@;
        let ghost score0 = self.score;
        let ghost mult0 = self.multiplier;
        let ghost pend0 = self.pending_boom_locations@;
        if crossed.len() == 0 {
            if self.lethal_hit(now_ms) {
                self.game_over = true;
            }
        } else {
            let m = crossed.len();
            let mut j: usize = 0;
            while j < m
                invariant
                    self.wf(),
                    m == crossed@.len(),
                    0 <= j <= m,
                    objects_ok(crossed@),
                    self.game_objects@ == booms_result(
                        rest0,
                        score0,
                        mult0,
                        crossed@.take(j as int),
                        now_ms,
                    ).0,
                    self.score == booms_result(
                        rest0,
                        score0,
                        mult0,
                        crossed@.take(j as int),
                        now_ms,
                    ).1,
                    self.pending_boom_locations@ == pend0 + boom_centers(
                        crossed@.take(j as int),
                    ),
                    self.score >= score0,
                    self.game_state == gs1,
                    self.multiplier == mult0,
                    self.paused == old(self).paused,
                    self.spawn_count == old(self).spawn_count,
                    self.game_over == false,
                decreases m - j,
            {
                let g = crossed[j];
                proof {
                    assert(object_ok(crossed@[j as int]));
                }
                let (gx, gy) = g.get_sprite().get_coords();
                proof {
                    assert(crossed@.take(j + 1) =~= crossed@.take(j as int).push(g));
                    lemma_booms_result_snoc(
                        rest0,
                        score0,
                        mult0,
                        crossed@.take(j as int),
                        g,
                        now_ms,
                    );
                }
                self.boom(gx, gy, now_ms);
                self.pending_boom_locations.push((gx, gy));
                proof {
                    assert(self.pending_boom_locations@ =~= pend0 + boom_centers(
                        crossed@.take(j + 1),
                    ));
                }
                j = j + 1;
            }
            proof {
                assert(crossed@.take(m as int) =~= crossed@);
            }
        }
        let ghost objs2 = self.game_objects@;
        let ghost mult2 = self.multiplier;
        self.consume_pickups();
        self.cull(now_ms);
        proof {
            if crossed@.len() == 0 {
                assert(booms_result(rest0, score0, mult0, crossed@, now_ms) == (rest0, score0));
                assert(boom_centers(crossed@) =~= Seq::<(i64, i64)>::empty());
                assert(pend0 + boom_centers(crossed@) =~= pend0);
            }
            lemma_booms_score_ge(rest0, score0, mult0, crossed@, now_ms);
            lemma_mult_after_ge(mult2, consumed_of(objs2, ppos).len());
            assert(final(self)@ =~= tick_spec(old(self)@, now_ms));
        }
    }
}

/// Relies on rand's `Rng::gen_range` on a `thread_rng`, over a
/// half-open `i64` range: the result lies in `[lo, hi)`; the call
/// panics only on an empty range, which the precondition rules out.
#[verifier::external_body]
fn rand_in_range(lo: i64, hi: i64) -> (r: i64)
    requires
        lo < hi,
    ensures
        lo <= r < hi,
{
    rand::Rng::gen_range(&mut rand::thread_rng(), lo..hi)
}

/// An enemy entity as `spawn_enemy` and `place_enemy` create it.
pub open spec fn enemy_at(coords: (i64, i64)) -> GameObject {
    GameObject {
        sprite: Sprite::Diamond(coords.0, coords.1),
        data: GameObjectData { rotation_speed: None, velocity: None, spawn_time: None },
    }
}

/// A gate entity as `spawn_gate` and `place_gate` create it.
pub open spec fn gate_at(coords: (i64, i64), angle: i64, spin: i64, now: u64) -> GameObject {
    GameObject {
        sprite: Sprite::Triangle(coords.0, coords.1, angle),
        data: GameObjectData {
            rotation_speed: Some(spin),
            velocity: None,
            spawn_time: Some(now),
        },
    }
}

/// A pickup entity as `place_multiplier` creates it.
pub open spec fn multiplier_at(coords: (i64, i64), vel: (i64, i64), now: u64) -> GameObject {
    GameObject {
        sprite: Sprite::Square(coords.0, coords.1),
        data: GameObjectData {
            rotation_speed: None,
            velocity: Some(vel),
            spawn_time: Some(now),
        },
    }
}

/// The corner region of the playfield in which an enemy wave spawns:
/// `(x_min, x_max, y_min, y_max)`, half-open on the high sides.
pub open spec fn region_box(reg: int) -> (int, int, int, int) {
    if reg == 0 {
        (0, ENEMY_BUFFER as int, 0, ENEMY_BUFFER as int)
    } else if reg == 1 {
        ((WINDOW_WIDTH - ENEMY_BUFFER) as int, WINDOW_WIDTH as int, 0, ENEMY_BUFFER as int)
    } else if reg == 2 {
        (
            (WINDOW_WIDTH - ENEMY_BUFFER) as int,
            WINDOW_WIDTH as int,
            (WINDOW_HEIGHT - ENEMY_BUFFER) as int,
            WINDOW_HEIGHT as int,
        )
    } else {
        (0, ENEMY_BUFFER as int, (WINDOW_HEIGHT - ENEMY_BUFFER) as int, WINDOW_HEIGHT as int)
    }
}

pub open spec fn in_spawn_region(reg: int, pos: (i64, i64)) -> bool {
    let b = region_box(reg);
    &&& b.0 <= pos.0 < b.1
    &&& b.2 <= pos.1 < b.3
}

/// A freshly spawned wave enemy: a bare diamond inside region `reg`.
pub open spec fn spawned_enemy_in(o: GameObject, reg: int) -> bool {
    &&& o == enemy_at(spec_coords(o.sprite))
    &&& o.sprite is Diamond
    &&& in_spawn_region(reg, spec_coords(o.sprite))
}

/// Entities `lo..hi` of the population are all wave enemies in `reg`.
pub open spec fn wave_in_region(objs: Seq<GameObject>, lo: int, hi: int, reg: int) -> bool {
    forall|k: int| lo <= k < hi ==> spawned_enemy_in(#[trigger] objs[k], reg)
}

/// A freshly spawned gate: inset from the walls, with a normalised
/// rotation, a small signed spin and its spawn timestamp.
pub open spec fn spawned_gate_at(o: GameObject, now: u64) -> bool {
    &&& o.sprite is Triangle
    &&& GATE_BUFFER <= spec_coords(o.sprite).0 < WINDOW_WIDTH - GATE_BUFFER
    &&& GATE_BUFFER <= spec_coords(o.sprite).1 < WINDOW_HEIGHT - GATE_BUFFER
    &&& match o.data.rotation_speed {
        Some(rs) => -1000 <= rs < 1000,
        None => false,
    }
    &&& o.data.velocity is None
    &&& o.data.spawn_time == Some(now)
}

impl Game {
    /// Insert one enemy at the given coordinates.
    pub fn place_enemy(&mut self, coords: (i64, i64))
        requires
            old(self).wf(),
            -POS_LIMIT <= coords.0 <= POS_LIMIT,
            -POS_LIMIT <= coords.1 <= POS_LIMIT,
        ensures
            final(self).wf(),
            final(self)@ == (GameModel {
                objects: old(self)@.objects.push(enemy_at(coords)),
                ..old(self)@
            }),
    {
        let e = GameObject::new_enemy(coords);
        self.game_objects.push(e);
        proof {
            assert(final(self)@ =~= (GameModel {
                objects: old(self)@.objects.push(enemy_at(coords)),
                ..old(self)@
            }));
        }
    }

    /// Insert one gate at the given coordinates with the given initial
    /// rotation and spin, stamped with its spawn time.
    pub fn place_gate(&mut self, coords: (i64, i64), angle: i64, spin: i64, now_ms: u64)
        requires
            old(self).wf(),
            -POS_LIMIT <= coords.0 <= POS_LIMIT,
            -POS_LIMIT <= coords.1 <= POS_LIMIT,
            0 <= angle < ROT_FULL,
            -ROT_FULL < spin < ROT_FULL,
        ensures
            final(self).wf(),
            final(self)@ == (GameModel {
                objects: old(self)@.objects.push(gate_at(coords, angle, spin, now_ms)),
                ..old(self)@
            }),
    {
        let g = GameObject::new_gate(coords, angle, spin, now_ms);
        self.game_objects.push(g);
        proof {
            assert(final(self)@ =~= (GameModel {
                objects: old(self)@.objects.push(gate_at(coords, angle, spin, now_ms)),
                ..old(self)@
            }));
        }
    }

    /// Insert one multiplier pickup at the given coordinates with the
    /// given initial velocity, stamped with its spawn time.
    pub fn place_multiplier(&mut self, coords: (i64, i64), velocity: (i64, i64), now_ms: u64)
        requires
            old(self).wf(),
            -POS_LIMIT <= coords.0 <= POS_LIMIT,
            -POS_LIMIT <= coords.1 <= POS_LIMIT,
            -VEL_LIMIT <= velocity.0 <= VEL_LIMIT,
            -VEL_LIMIT <= velocity.1 <= VEL_LIMIT,
        ensures
            final(self).wf(),
            final(self)@ == (GameModel {
                objects: old(self)@.objects.push(multiplier_at(coords, velocity, now_ms)),
                ..old(self)@
            }),
    {
        let p = GameObject::new_multiplier(coords, velocity, now_ms);
        self.game_objects.push(p);
        proof {
            assert(final(self)@ =~= (GameModel {
                objects: old(self)@.objects.push(multiplier_at(coords, velocity, now_ms)),
                ..old(self)@
            }));
        }
    }

    /// Spawn one wave of enemies: a random corner region, then one
    /// enemy at a random spot in it per wave size; each wave is one
    /// enemy larger than the last. A no-op while paused or over.
    pub fn spawn_enemy(&mut self)
        requires
            old(self).wf(),
        ensures
            final(self).wf(),
            (old(self).paused || old(self).game_over) ==> final(self)@ == old(self)@,
            !(old(self).paused || old(self).game_over) ==> ({
                &&& final(self).game_objects@.len() == old(self).game_objects@.len() + old(
                    self,
                ).spawn_count
                &&& final(self).game_objects@.take(old(self).game_objects@.len() as int) == old(
                    self,
                ).game_objects@
                &&& exists|reg: int|
                    0 <= reg < 4 && #[trigger] wave_in_region(
                        final(self).game_objects@,
                        old(self).game_objects@.len() as int,
                        final(self).game_objects@.len() as int,
                        reg,
                    )
                &&& final(self).spawn_count == (if old(self).spawn_count < usize::MAX {
                    old(self).spawn_count + 1
                } else {
                    old(self).spawn_count as int
                })
                &&& final(self).game_state == old(self).game_state
                &&& final(self).score == old(self).score
                &&& final(self).multiplier == old(self).multiplier
                &&& final(self).pending_boom_locations@ == old(self).pending_boom_locations@
                &&& final(self).paused == old(self).paused
                &&& final(self).game_over == old(self).game_over
            }),
    {
        if self.paused || self.game_over {
            return ;
        }
        let region = rand_in_range(0, 4);
        let x_min: i64;
        let x_max: i64;
        let y_min: i64;
        let y_max: i64;
        if region == 0 {
            x_min = 0;
            x_max = ENEMY_BUFFER;
            y_min = 0;
            y_max = ENEMY_BUFFER;
        } else if region == 1 {
            x_min = WINDOW_WIDTH - ENEMY_BUFFER;
            x_max = WINDOW_WIDTH;
            y_min = 0;
            y_max = ENEMY_BUFFER;
        } else if region == 2 {
            x_min = WINDOW_WIDTH - ENEMY_BUFFER;
            x_max = WINDOW_WIDTH;
            y_min = WINDOW_HEIGHT - ENEMY_BUFFER;
            y_max = WINDOW_HEIGHT;
        } else {
            x_min = 0;
            x_max = ENEMY_BUFFER;
            y_min = WINDOW_HEIGHT - ENEMY_BUFFER;
            y_max = WINDOW_HEIGHT;
        }
        let ghost reg: int = if 0 <= region < 4 { region as int } else { 3 };
        proof {
            assert(region_box(reg) == (x_min as int, x_max as int, y_min as int, y_max as int));
        }
        let count = self.spawn_count;
        let ghost len0 = self.game_objects@.len();
        let mut k: usize = 0;
        while k < count
            invariant
                self.wf(),
                0 <= k <= count,
                x_min < x_max,
                y_min < y_max,
                region_box(reg) == (x_min as int, x_max as int, y_min as int, y_max as int),
                0 <= reg < 4,
                len0 == old(self).game_objects@.len(),
                self.game_objects@.len() == len0 + k,
                self.game_objects@.take(len0 as int) == old(self).game_objects@,
                forall|i: int|
                    len0 <= i < self.game_objects@.len() ==> spawned_enemy_in(
                        #[trigger] self.game_objects@[i],
                        reg,
                    ),
                self.game_state == old(self).game_state,
                self.score == old(self).score,
                self.multiplier == old(self).multiplier,
                self.pending_boom_locations@ == old(self).pending_boom_locations@,
                self.paused == old(self).paused,
                self.spawn_count == old(self).spawn_count,
                self.game_over == old(self).game_over,
            decreases count - k,
        {
            let x = rand_in_range(x_min, x_max);
            let y = rand_in_range(y_min, y_max);
            self.place_enemy((x, y));
            proof {
                assert(self.game_objects@.take(len0 as int) =~= old(self).game_objects@);
                assert(spawned_enemy_in(enemy_at((x, y)), reg));
            }
            k = k + 1;
        }
        self.spawn_count = if self.spawn_count < usize::MAX {
            self.spawn_count + 1
        } else {
            self.spawn_count
        };
        proof {
            assert(wave_in_region(
                self.game_objects@,
                len0 as int,
                self.game_objects@.len() as int,
                reg,
            ));
        }
    }

    /// Spawn one gate at a random in-bounds position, inset from the
    /// walls, with random rotation and spin. A no-op while paused or
    /// over.
    pub fn spawn_gate(&mut self, now_ms: u64)
        requires
            old(self).wf(),
        ensures
            final(self).wf(),
            (old(self).paused || old(self).game_over) ==> final(self)@ == old(self)@,
            !(old(self).paused || old(self).game_over) ==> ({
                &&& final(self).game_objects@.len() == old(self).game_objects@.len() + 1
                &&& final(self).game_objects@.take(old(self).game_objects@.len() as int) == old(
                    self,
                ).game_objects@
                &&& spawned_gate_at(
                    final(self).game_objects@[old(self).game_objects@.len() as int],
                    now_ms,
                )
                &&& final(self).game_state == old(self).game_state
                &&& final(self).score == old(self).score
                &&& final(self).multiplier == old(self).multiplier
                &&& final(self).pending_boom_locations@ == old(self).pending_boom_locations@
                &&& final(self).paused == old(self).paused
                &&& final(self).spawn_count == old(self).spawn_count
                &&& final(self).game_over == old(self).game_over
            }),
    {
        if self.paused || self.game_over {
            return ;
        }
        let gx = rand_in_range(GATE_BUFFER, WINDOW_WIDTH - GATE_BUFFER);
        let gy = rand_in_range(GATE_BUFFER, WINDOW_HEIGHT - GATE_BUFFER);
        let gr = rand_in_range(0, ROT_FULL);
        let spin = rand_in_range(-1000, 1000);
        self.place_gate((gx, gy), gr, spin, now_ms);
        proof {
            assert(self.game_objects@.take(old(self).game_objects@.len() as int) =~= old(
                self,
            ).game_objects@);
        }
    }
}

} // verus!
