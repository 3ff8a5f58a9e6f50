use shooter_core::enemy::EnemyBundle;
use shooter_core::fixed::SCALE;
use shooter_core::game::Game;
use shooter_core::map::{clamp_position, map_dims, ArenaBounds, MapBundle};
use shooter_core::physics_sprite::{Collider, PhysicsSpriteBundle};
use shooter_core::player::{tick_cursor, Cursor, PlayerBundle, Projection};
use shooter_core::random::{rand_norm_vec2, rand_pos_vec2};
use shooter_core::vec2::Vec2;

#[test]
fn positions_clamp_into_the_asymmetric_arena() {
    let bounds = ArenaBounds::standard();
    let clamped = clamp_position(&bounds, &Vec2 { x: 1_000_000, y: -900_000 });
    assert_eq!(clamped, Vec2 { x: 545_454, y: -320_000 });
    let clamped = clamp_position(&bounds, &Vec2 { x: -1_000_000, y: 900_000 });
    assert_eq!(clamped, Vec2 { x: -545_454, y: 347_826 });
    let inside = Vec2 { x: 12, y: -34 };
    assert_eq!(clamp_position(&bounds, &inside), inside);
}

#[test]
fn the_floor_covers_the_playfield() {
    let m = MapBundle::new(Vec2 { x: 1, y: 2 });
    assert_eq!(m.pos, Vec2 { x: 1, y: 2 });
    assert_eq!(m.dims, map_dims());
    assert_eq!(m.dims, Vec2 { x: 1_200_000, y: 800_000 });
}

#[test]
fn sprites_get_quarter_size_capsules() {
    let s = PhysicsSpriteBundle::new(&Vec2 { x: 40_000, y: 45_000 }, &Vec2 { x: 5, y: 6 });
    assert_eq!(s.pos, Vec2 { x: 5, y: 6 });
    match s.collider {
        Collider::CapsuleY { half_height, radius } => {
            assert_eq!(half_height, 11_250);
            assert_eq!(radius, 10_000);
        },
        _ => panic!("expected a capsule"),
    }

    // a negative configured size collapses to zero instead of failing
    let s = PhysicsSpriteBundle::new(&Vec2 { x: -8, y: -8 }, &Vec2 { x: 0, y: 0 });
    match s.collider {
        Collider::CapsuleY { half_height, radius } => {
            assert_eq!(half_height, 0);
            assert_eq!(radius, 0);
        },
        _ => panic!("expected a capsule"),
    }
}

#[test]
fn fresh_session_state() {
    let g = Game::new();
    assert_eq!(g.player.id, Some(0));
    assert_eq!(g.player.health, 100_000);
    assert_eq!(g.wave, 0);
    assert_eq!(g.kills, 0);
    assert_eq!(g.next_id, 1);
    assert!(!g.game_over);
    assert!(g.enemies.is_empty() && g.bullets.is_empty() && g.pickups.is_empty());
}

#[test]
fn player_bundle_is_a_default_player_with_its_sprite() {
    let b = PlayerBundle::new();
    assert_eq!(b.player.health, 100_000);
    assert_eq!(b.player.direction, Vec2 { x: 1_000, y: 0 });
    assert_eq!(b.sprite.pos, Vec2 { x: 0, y: 0 });
}

#[test]
fn enemies_flip_their_sprite_walking_left() {
    let mut e = EnemyBundle::new(Vec2 { x: 0, y: 0 }, 1).enemy;
    assert!(!e.facing_flipped());
    e.direction = Vec2 { x: -500, y: 100 };
    assert!(e.facing_flipped());
}

#[test]
fn cursor_maps_through_the_projection() {
    let mut g = Game::new();
    let proj = Projection { left: -600_000, right: 600_000, bottom: -400_000, top: 400_000 };
    let window = Vec2 { x: 800_000, y: 600_000 };
    let mut cursor = Cursor::default();

    tick_cursor(&mut g, &proj, window, Some(Vec2 { x: 400_000, y: 300_000 }), &mut cursor);
    assert_eq!(g.window_size, window);
    assert_eq!(g.mouse_rel_pos, Vec2 { x: 500, y: 500 });
    assert_eq!(cursor.world_pos, Vec2 { x: 0, y: 0 });
    assert_eq!(cursor.screen_pos, Vec2 { x: 400_000, y: 300_000 });

    // no cursor on the window: nothing but the window size changes
    let before = cursor.world_pos;
    tick_cursor(&mut g, &proj, window, None, &mut cursor);
    assert_eq!(cursor.world_pos, before);
}

#[test]
fn random_draws_stay_in_their_ranges_and_vary() {
    let mut first_x = None;
    let mut varied = false;
    for _ in 0..100 {
        let p = rand_pos_vec2();
        assert!(0 <= p.x && p.x < SCALE);
        assert!(0 <= p.y && p.y < SCALE);
        match first_x {
            None => first_x = Some(p.x),
            Some(x) => varied = varied || p.x != x,
        }

        let d = rand_norm_vec2();
        assert!(-SCALE <= d.x && d.x <= SCALE);
        assert!(-SCALE <= d.y && d.y <= SCALE);
    }
    // a hundred identical draws would mean the sampler is not sampling
    assert!(varied);
}
