use arcade_core::{check_corner_collision, check_edge_collision, GameState, Sprite};

fn state_with_player_at(x: i64, y: i64) -> GameState {
    let mut gs = GameState::new();
    gs.player.sprite = Sprite::Circle(x, y);
    gs
}

#[test]
fn diamond_vertices() {
    let d = Sprite::Diamond(300_000, 300_000);
    let vs = d.get_vertices();
    assert_eq!(
        vs,
        vec![
            (300_000, 275_000),
            (325_000, 300_000),
            (300_000, 325_000),
            (275_000, 300_000),
        ]
    );
}

#[test]
fn square_vertices() {
    let s = Sprite::Square(10_000, 20_000);
    let vs = s.get_vertices();
    assert_eq!(
        vs,
        vec![
            (10_000 - 3_536, 20_000 - 3_536),
            (10_000 - 3_536, 20_000 + 3_536),
            (10_000 + 3_536, 20_000 - 3_536),
            (10_000 + 3_536, 20_000 + 3_536),
        ]
    );
}

#[test]
fn triangle_vertices_at_zero_rotation() {
    let t = Sprite::Triangle(600_000, 400_000, 0);
    let vs = t.get_vertices();
    assert_eq!(vs.len(), 3);
    // First vertex: straight along +x at the triangle radius.
    assert_eq!(vs[0], (675_000, 400_000));
    // The other two sit on the left at half the radius, symmetric in y.
    assert_eq!(vs[1].0, 562_500);
    assert_eq!(vs[2].0, 562_500);
    assert_eq!(vs[1].1 + vs[2].1, 800_000);
    assert!(vs[1].1 > 400_000 && vs[2].1 < 400_000);
}

#[test]
fn circle_and_point_have_no_vertices() {
    assert!(Sprite::Circle(0, 0).get_vertices().is_empty());
    assert!(Sprite::Point(5, 5).get_vertices().is_empty());
}

#[test]
fn every_shape_reports_its_center() {
    assert_eq!(Sprite::Triangle(1, 2, 3).get_coords(), (1, 2));
    assert_eq!(Sprite::Circle(4, 5).get_coords(), (4, 5));
    assert_eq!(Sprite::Diamond(6, 7).get_coords(), (6, 7));
    assert_eq!(Sprite::Square(8, 9).get_coords(), (8, 9));
    assert_eq!(Sprite::Point(600_000, 400_000).get_coords(), (600_000, 400_000));
}

// Edge-crossing test against the diamond edge from (300000, 275000) to
// (325000, 300000). The player sits on the perpendicular through the
// edge midpoint (312500, 287500), at offset s along (1, -1): its
// distance to the edge is s * sqrt(2), and the circle radius is 15000.
#[test]
fn edge_crossing_fires_just_inside_the_radius() {
    let d = Sprite::Diamond(300_000, 300_000);
    // s = 10606: distance 14999.2, just inside.
    let gs = state_with_player_at(312_500 + 10_606, 287_500 - 10_606);
    assert!(check_edge_collision(&d, &gs));
}

#[test]
fn edge_crossing_silent_just_outside_the_radius() {
    let d = Sprite::Diamond(300_000, 300_000);
    // s = 10607: distance 15000.6, just outside.
    let gs = state_with_player_at(312_500 + 10_607, 287_500 - 10_607);
    assert!(!check_edge_collision(&d, &gs));
}

#[test]
fn edge_crossing_silent_when_moving_parallel_beyond_the_radius() {
    let d = Sprite::Diamond(300_000, 300_000);
    // Slide along the edge direction (1, 1) at constant offset
    // s = 11000 (distance 15556): never a crossing.
    for u in [-5_000i64, 0, 5_000] {
        let gs = state_with_player_at(312_500 + u + 11_000, 287_500 + u - 11_000);
        assert!(!check_edge_collision(&d, &gs), "fired at u = {u}");
    }
}

#[test]
fn edge_crossing_silent_at_the_polygon_center() {
    let t = Sprite::Triangle(600_000, 400_000, 0);
    let gs = state_with_player_at(600_000, 400_000);
    assert!(!check_edge_collision(&t, &gs));
}

// Corner test around the diamond vertex at (300000, 275000), with the
// player circle radius 15000.
#[test]
fn corner_fires_just_inside_the_radius() {
    let d = Sprite::Diamond(300_000, 300_000);
    let gs = state_with_player_at(300_000, 275_000 - 14_999);
    assert!(check_corner_collision(&d, &gs));
}

#[test]
fn corner_silent_at_exactly_the_radius() {
    let d = Sprite::Diamond(300_000, 300_000);
    let gs = state_with_player_at(300_000, 275_000 - 15_000);
    assert!(!check_corner_collision(&d, &gs));
}

#[test]
fn corner_silent_just_outside_the_radius() {
    let d = Sprite::Diamond(300_000, 300_000);
    let gs = state_with_player_at(300_000, 275_000 - 15_001);
    assert!(!check_corner_collision(&d, &gs));
}
