use arcade_core::{Game, GameConstants, Sprite};

fn player_pos(g: &mut Game) -> (i64, i64) {
    let snap = g.snapshot();
    match snap.sprites[0] {
        Sprite::Circle(x, y) => (x, y),
        ref s => panic!("player sprite is not a circle: {s:?}"),
    }
}

#[test]
fn constants_surface() {
    let c = GameConstants::new();
    assert_eq!(c.window_width, 1_200_000);
    assert_eq!(c.window_height, 800_000);
    assert_eq!(c.circle_radius, 15_000);
    assert_eq!(c.diamond_radius, 25_000);
    assert_eq!(c.triangle_radius, 75_000);
    assert_eq!(c.square_radius, 5_000);
    assert_eq!(c.explosion_radius, 150_000);
}

#[test]
fn new_game_is_centered_and_clean() {
    let mut g = Game::new();
    assert_eq!(g.score, 0);
    assert_eq!(g.multiplier, 1);
    assert!(!g.paused);
    assert!(!g.game_over);
    let snap = g.snapshot();
    assert_eq!(snap.sprites, vec![Sprite::Circle(600_000, 400_000)]);
    assert!(snap.explosion_events.is_empty());
}

#[test]
fn movement_follows_keys() {
    let mut g = Game::new();
    g.key_down("w".to_string());
    g.tick(8);
    assert_eq!(player_pos(&mut g), (600_000, 397_000));
    g.key_up("w".to_string());
    g.key_down("d".to_string());
    g.tick(16);
    assert_eq!(player_pos(&mut g), (603_000, 397_000));
}

#[test]
fn diagonal_movement_is_scaled() {
    let mut g = Game::new();
    g.key_down("w".to_string());
    g.key_down("a".to_string());
    g.tick(8);
    assert_eq!(player_pos(&mut g), (600_000 - 2_121, 400_000 - 2_121));
}

#[test]
fn key_events_are_idempotent_and_unknown_keys_ignored() {
    let mut g = Game::new();
    g.key_down("w".to_string());
    g.key_down("w".to_string());
    g.key_down("x".to_string());
    g.key_down("q".to_string());
    g.tick(8);
    assert_eq!(player_pos(&mut g), (600_000, 397_000));
    g.key_up("w".to_string());
    g.key_up("w".to_string());
    g.tick(16);
    assert_eq!(player_pos(&mut g), (600_000, 397_000));
}

// The player's center stays within [radius, window - radius] on both
// axes however long a key is held.
#[test]
fn player_is_clamped_to_the_playfield() {
    let mut g = Game::new();
    g.key_down("a".to_string());
    g.key_down("w".to_string());
    for i in 0..400u64 {
        g.tick(8 * (i + 1));
        let (x, y) = player_pos(&mut g);
        assert!(x >= 15_000 && x <= 1_185_000);
        assert!(y >= 15_000 && y <= 785_000);
    }
    assert_eq!(player_pos(&mut g), (15_000, 15_000));
}

// While paused, ticks change nothing until the pause is toggled off.
#[test]
fn ticks_while_paused_change_nothing() {
    let mut g = Game::new();
    g.place_enemy((700_000, 400_000));
    g.key_down("a".to_string());
    g.toggle_pause();
    for i in 0..10u64 {
        g.tick(8 * (i + 1));
    }
    let snap = g.snapshot();
    assert_eq!(
        snap.sprites,
        vec![Sprite::Circle(600_000, 400_000), Sprite::Diamond(700_000, 400_000)]
    );
    assert_eq!(snap.score, 0);
    assert_eq!(snap.multiplier, 1);
    assert!(!snap.game_over);
    g.toggle_pause();
    g.tick(100);
    let after = g.snapshot();
    assert_ne!(after.sprites[0], Sprite::Circle(600_000, 400_000));
}

// Spawn 1 enemy directly adjacent to the player spawn point and run one
// tick with the player stationary: the enemy's edge crosses the player
// circle, the game is over, and score and multiplier stay at their
// pre-tick values.
#[test]
fn adjacent_enemy_ends_the_game_and_freezes_the_counters() {
    let mut g = Game::new();
    g.place_enemy((577_500, 422_500));
    g.tick(8);
    assert!(g.game_over);
    assert_eq!(g.score, 0);
    assert_eq!(g.multiplier, 1);
    // Once over, further ticks change nothing.
    let before = g.snapshot();
    g.tick(16);
    let after = g.snapshot();
    assert_eq!(before.sprites, after.sprites);
    assert_eq!(before.score, after.score);
    assert_eq!(before.multiplier, after.multiplier);
    assert!(after.game_over);
}

// Spawn one gate at (600, 400) with no rotation, move the player left
// through its vertical edge: that gate is removed, one explosion event
// at (600, 400) is queued, and the enemy inside the explosion radius
// becomes a pickup worth one multiplier of score.
#[test]
fn gate_crossing_detonates_and_converts_enemies() {
    let mut g = Game::new();
    g.place_gate((600_000, 400_000), 0, 0, 0);
    g.place_enemy((700_000, 400_000));
    g.key_down("a".to_string());
    let mut scores = Vec::new();
    let mut mults = Vec::new();
    for i in 1..=8u64 {
        g.tick(8 * i);
        scores.push(g.score);
        mults.push(g.multiplier);
    }
    assert!(!g.game_over);
    assert_eq!(g.score, 1);
    assert_eq!(g.multiplier, 1);
    // Score and multiplier were monotone and the multiplier at least 1
    // throughout.
    for w in scores.windows(2) {
        assert!(w[0] <= w[1]);
    }
    for w in mults.windows(2) {
        assert!(w[0] <= w[1]);
        assert!(w[0] >= 1);
    }
    let snap = g.snapshot();
    assert_eq!(snap.explosion_events, vec![(600_000, 400_000)]);
    assert_eq!(snap.sprites.len(), 2);
    assert_eq!(snap.sprites[0], Sprite::Circle(576_000, 400_000));
    assert_eq!(snap.sprites[1], Sprite::Square(684_000, 400_000));
    // The queue was drained by the snapshot.
    let again = g.snapshot();
    assert!(again.explosion_events.is_empty());
}

// Detonating a gate with no enemy within the explosion radius awards
// nothing and leaves the rest of the population untouched.
#[test]
fn explosion_with_no_enemies_awards_nothing() {
    let mut g = Game::new();
    g.place_gate((600_000, 400_000), 0, 0, 0);
    // An enemy far outside the explosion radius, kept away from the
    // player's path.
    g.place_enemy((1_100_000, 700_000));
    g.key_down("a".to_string());
    for i in 1..=8u64 {
        g.tick(8 * i);
    }
    assert_eq!(g.score, 0);
    assert_eq!(g.multiplier, 1);
    let snap = g.snapshot();
    assert_eq!(snap.explosion_events, vec![(600_000, 400_000)]);
    // Player and the untouched enemy: no pickup appeared.
    assert_eq!(snap.sprites.len(), 2);
    assert!(matches!(snap.sprites[1], Sprite::Diamond(_, _)));
}

// A pickup seeded with velocity (10, 0) at distance 75 from the player
// first drifts on its decaying velocity, is then pulled in once within
// the attraction threshold, and is consumed, incrementing the
// multiplier.
#[test]
fn pickup_converges_and_is_consumed() {
    let mut g = Game::new();
    g.place_multiplier((525_000, 400_000), (10_000, 0), 0);
    let mut consumed_at = None;
    for i in 1..=10u64 {
        g.tick(8 * i);
        if g.multiplier == 2 {
            consumed_at = Some(i);
            break;
        }
    }
    assert!(consumed_at.is_some(), "pickup was never consumed");
    let snap = g.snapshot();
    assert_eq!(snap.sprites, vec![Sprite::Circle(600_000, 400_000)]);
    assert_eq!(snap.multiplier, 2);
    assert_eq!(snap.score, 0);
}

// A pickup that is never consumed is culled once it outlives its
// lifetime.
#[test]
fn stale_pickup_is_culled() {
    let mut g = Game::new();
    g.place_multiplier((100_000, 100_000), (0, 0), 0);
    g.tick(8);
    assert_eq!(g.snapshot().sprites.len(), 2);
    g.tick(11_000);
    assert_eq!(g.snapshot().sprites.len(), 1);
    assert_eq!(g.multiplier, 1);
}

// A gate's corner is harmless during the grace period and lethal after
// it.
#[test]
fn gate_corner_lethal_only_after_grace_period() {
    // A gate's first vertex sits at its center + (75000, 0). Put this
    // gate so that this corner is just inside the player's circle.
    let mut g = Game::new();
    g.place_gate((600_000 - 75_000 - 10_000, 400_000), 0, 0, 0);
    g.tick(1_000);
    assert!(!g.game_over, "corner killed during the grace period");
    g.tick(6_000);
    assert!(g.game_over, "aged corner did not kill");
    assert_eq!(g.score, 0);
    assert_eq!(g.multiplier, 1);
}

// Two gates crossed in the same pass detonate as one batch, in order:
// the first explosion converts the enemy, the second finds nothing.
#[test]
fn crossed_gates_detonate_as_a_batch() {
    let mut g = Game::new();
    g.place_gate((600_000, 400_000), 0, 0, 0);
    g.place_gate((600_000, 400_000), 0, 0, 0);
    g.place_enemy((700_000, 400_000));
    g.key_down("a".to_string());
    for i in 1..=8u64 {
        g.tick(8 * i);
    }
    assert!(!g.game_over);
    assert_eq!(g.score, 1);
    let snap = g.snapshot();
    assert_eq!(
        snap.explosion_events,
        vec![(600_000, 400_000), (600_000, 400_000)]
    );
    // Both gates gone, the enemy converted into a single pickup.
    assert_eq!(snap.sprites.len(), 2);
    assert!(matches!(snap.sprites[1], Sprite::Square(_, _)));
}

// Passing through a gate's edge is safe even when another hazard fires
// at the same instant: a detonation suppresses the lethal checks for
// that tick, and only for that tick.
#[test]
fn detonation_overrides_lethal_checks_for_one_tick() {
    let mut g = Game::new();
    // A gate to sweep through, reached on the eighth tick.
    g.place_gate((600_000, 400_000), 0, 0, 0);
    // An old gate whose first corner sits on the player's path; its
    // grace period ends just before the eighth tick.
    g.place_gate((491_000, 400_000), 0, 0, 2_999);
    g.key_down("a".to_string());
    for i in 1..=8u64 {
        g.tick(1_000 * i);
    }
    // The crossing and the aged corner coincided: the detonation won.
    assert!(!g.game_over);
    let snap = g.snapshot();
    assert_eq!(snap.explosion_events, vec![(600_000, 400_000)]);
    assert_eq!(snap.sprites.len(), 2);
    // One tick later the aged corner, still inside the circle, kills.
    g.tick(9_000);
    assert!(g.game_over);
}

// Gates spin by their signed step each tick and the rotation wraps
// around a full turn.
#[test]
fn gate_rotates_by_its_spin_and_wraps() {
    let mut g = Game::new();
    g.place_gate((300_000, 300_000), 359_500, 999, 0);
    g.tick(8);
    let snap = g.snapshot();
    assert_eq!(snap.sprites[1], Sprite::Triangle(300_000, 300_000, 499));
    g.tick(16);
    assert_eq!(g.snapshot().sprites[1], Sprite::Triangle(300_000, 300_000, 1_498));
}

// An enemy steps straight toward the player by its speed, and freezes
// once it is within a single step, without ever overshooting.
#[test]
fn enemy_homes_and_never_overshoots() {
    let mut g = Game::new();
    g.place_enemy((600_000, 300_000));
    g.tick(8);
    assert_eq!(g.snapshot().sprites[1], Sprite::Diamond(600_000, 302_000));

    let mut h = Game::new();
    h.place_enemy((600_000, 398_500));
    h.tick(8);
    // Within one step of the player: the enemy holds its position, and
    // the boundary-crossing test does not fire for a circle wholly
    // inside the diamond.
    assert_eq!(h.snapshot().sprites[1], Sprite::Diamond(600_000, 398_500));
    assert!(!h.game_over);
}

// A free pickup drifts by its velocity, which decays by the fixed
// factor 0.925 every tick.
#[test]
fn pickup_drifts_on_decaying_velocity() {
    let mut g = Game::new();
    g.place_multiplier((100_000, 100_000), (10_000, -10_000), 0);
    g.tick(8);
    assert_eq!(g.snapshot().sprites[1], Sprite::Square(110_000, 90_000));
    g.tick(16);
    // One decay step: 10000 * 925 / 1000 = 9250.
    assert_eq!(g.snapshot().sprites[1], Sprite::Square(119_250, 80_750));
}

#[test]
fn enemy_waves_grow_by_one_each_time() {
    let mut g = Game::new();
    g.spawn_enemy();
    assert_eq!(g.snapshot().sprites.len(), 2);
    g.spawn_enemy();
    assert_eq!(g.snapshot().sprites.len(), 4);
    g.spawn_enemy();
    assert_eq!(g.snapshot().sprites.len(), 7);
    for s in g.snapshot().sprites.iter().skip(1) {
        match s {
            Sprite::Diamond(x, y) => {
                assert!((0..=1_200_000).contains(x));
                assert!((0..=800_000).contains(y));
                // Enemies spawn in the edge-adjacent corner regions.
                assert!(*x <= 150_000 || *x >= 1_050_000);
                assert!(*y <= 150_000 || *y >= 650_000);
            },
            other => panic!("expected a diamond, got {other:?}"),
        }
    }
}

#[test]
fn gates_spawn_inset_from_the_walls() {
    let mut g = Game::new();
    g.spawn_gate(0);
    let snap = g.snapshot();
    assert_eq!(snap.sprites.len(), 2);
    match snap.sprites[1] {
        Sprite::Triangle(x, y, rot) => {
            assert!((25_000..1_175_000).contains(&x));
            assert!((25_000..775_000).contains(&y));
            assert!((0..360_000).contains(&rot));
        },
        ref other => panic!("expected a triangle, got {other:?}"),
    }
}

#[test]
fn spawns_are_blocked_while_paused_or_over() {
    let mut g = Game::new();
    g.toggle_pause();
    g.spawn_enemy();
    g.spawn_gate(0);
    assert_eq!(g.snapshot().sprites.len(), 1);
    g.toggle_pause();
    g.place_enemy((577_500, 422_500));
    g.tick(8);
    assert!(g.game_over);
    g.spawn_enemy();
    g.spawn_gate(16);
    assert_eq!(g.snapshot().sprites.len(), 2);
}

#[test]
fn primary_action_toggles_pause_and_resets_after_game_over() {
    let mut g = Game::new();
    g.handle_primary_action();
    assert!(g.paused);
    g.handle_primary_action();
    assert!(!g.paused);
    g.place_enemy((577_500, 422_500));
    g.tick(8);
    assert!(g.game_over);
    g.handle_primary_action();
    assert!(!g.game_over);
    assert_eq!(g.score, 0);
    assert_eq!(g.multiplier, 1);
    assert_eq!(g.snapshot().sprites, vec![Sprite::Circle(600_000, 400_000)]);
}

// A reset reinitializes all state: flags cleared, queue emptied, even
// when the host calls it directly on a paused game with undrained
// explosion events.
#[test]
fn reset_clears_flags_and_queue() {
    let mut g = Game::new();
    g.place_enemy((100_000, 100_000));
    g.pending_boom_locations.push((300_000, 300_000));
    g.paused = true;
    g.game_over = true;
    g.score = 7;
    g.multiplier = 3;
    g.reset_game();
    assert!(!g.paused);
    assert!(!g.game_over);
    assert_eq!(g.score, 0);
    assert_eq!(g.multiplier, 1);
    let snap = g.snapshot();
    assert_eq!(snap.sprites, vec![Sprite::Circle(600_000, 400_000)]);
    assert!(snap.explosion_events.is_empty());
}

#[test]
fn pause_has_no_effect_once_over() {
    let mut g = Game::new();
    g.place_enemy((577_500, 422_500));
    g.tick(8);
    assert!(g.game_over);
    g.toggle_pause();
    assert!(!g.paused);
}
