use player_control::player::{
    cursor_world_position, move_player, spawn_player, track_mouse_cursor, unit_direction,
    DirectionKeys, WindowSnapshot,
};
use player_control::scalar::Scalar;
use player_control::vec2::Vec2;

fn no_keys() -> DirectionKeys {
    DirectionKeys { left: false, right: false, down: false, up: false }
}

fn window_800_600(cursor: Option<Vec2>) -> WindowSnapshot {
    WindowSnapshot {
        width: Scalar::from_int(800),
        height: Scalar::from_int(600),
        cursor,
    }
}

#[test]
fn spawn_gives_documented_player() {
    let p = spawn_player();
    assert!(p.position.x.value_eq(&Scalar::from_int(0)));
    assert!(p.position.y.value_eq(&Scalar::from_int(0)));
    assert!(p.facing.x.value_eq(&Scalar::from_int(0)));
    assert!(p.facing.y.value_eq(&Scalar::from_int(1)));
    assert!(p.speed.0.value_eq(&Scalar::from_int(250)));
    assert_eq!(p.visual.root_width, 16);
    assert_eq!(p.visual.root_height, 16);
    assert_eq!(p.visual.pointer_width, 4);
    assert_eq!(p.visual.pointer_height, 8);
    assert_eq!(p.visual.pointer_forward_offset, 12);
    assert_eq!(p.visual.pointer_depth_offset, 1);
}

#[test]
fn right_key_moves_right_25_units() {
    // speed 250, a tenth of a second, only "right" held: (25, 0).
    let mut p = spawn_player();
    let keys = DirectionKeys { right: true, ..no_keys() };
    let tenth = Scalar::new(1, 0, 10);
    move_player(&mut p, &keys, &tenth);
    assert!(p.position.x.value_eq(&Scalar::from_int(25)));
    assert!(p.position.y.value_eq(&Scalar::from_int(0)));
}

#[test]
fn opposite_keys_cancel_for_any_elapsed_time() {
    let keys = DirectionKeys { left: true, right: true, ..no_keys() };
    for dt in [Scalar::new(1, 0, 10), Scalar::new(7, 0, 3), Scalar::from_int(1000)] {
        let mut p = spawn_player();
        move_player(&mut p, &keys, &dt);
        assert!(p.position.x.value_eq(&Scalar::from_int(0)));
        assert!(p.position.y.value_eq(&Scalar::from_int(0)));
    }
}

#[test]
fn movement_touches_only_the_position() {
    let mut p = spawn_player();
    let before = p;
    let keys = DirectionKeys { up: true, ..no_keys() };
    move_player(&mut p, &keys, &Scalar::new(1, 0, 10));
    assert_eq!(p.facing, before.facing);
    assert_eq!(p.speed, before.speed);
    assert_eq!(p.visual, before.visual);
    assert!(p.position.y.value_eq(&Scalar::from_int(25)));
}

#[test]
fn unit_direction_magnitude_is_zero_or_one() {
    let one = Scalar::from_int(1);
    let zero = Scalar::from_int(0);
    for left in [false, true] {
        for right in [false, true] {
            for down in [false, true] {
                for up in [false, true] {
                    let keys = DirectionKeys { left, right, down, up };
                    let dir = unit_direction(&keys);
                    let norm_sq = dir.x.mul(&dir.x).add(&dir.y.mul(&dir.y));
                    let cancelled = left == right && down == up;
                    if cancelled {
                        assert!(norm_sq.value_eq(&zero));
                    } else {
                        assert!(norm_sq.value_eq(&one));
                    }
                }
            }
        }
    }
}

#[test]
fn diagonal_direction_is_normalized() {
    let keys = DirectionKeys { right: true, up: true, ..no_keys() };
    let dir = unit_direction(&keys);
    // Each component is sqrt(2)/2.
    assert!(dir.x.value_eq(&Scalar::new(0, 1, 2)));
    assert!(dir.y.value_eq(&Scalar::new(0, 1, 2)));
}

#[test]
fn doubling_elapsed_time_doubles_displacement() {
    let keys = DirectionKeys { right: true, up: true, ..no_keys() };
    let mut once = spawn_player();
    let mut twice = spawn_player();
    move_player(&mut once, &keys, &Scalar::new(1, 0, 10));
    move_player(&mut twice, &keys, &Scalar::new(2, 0, 10));
    let two = Scalar::from_int(2);
    assert!(twice.position.x.value_eq(&two.mul(&once.position.x)));
    assert!(twice.position.y.value_eq(&two.mul(&once.position.y)));
}

#[test]
fn no_window_keeps_rotation() {
    let mut p = spawn_player();
    let before = p;
    track_mouse_cursor(&mut p, None);
    assert_eq!(p, before);
}

#[test]
fn no_cursor_keeps_rotation() {
    let mut p = spawn_player();
    let before = p;
    let w = window_800_600(None);
    track_mouse_cursor(&mut p, Some(&w));
    assert_eq!(p, before);
}

#[test]
fn cursor_on_player_keeps_rotation() {
    // Screen (400, 300) in an 800x600 window is the world origin, where the
    // player stands: no rotation update.
    let mut p = spawn_player();
    let before = p;
    let w = window_800_600(Some(Vec2::new(Scalar::from_int(400), Scalar::from_int(300))));
    track_mouse_cursor(&mut p, Some(&w));
    assert_eq!(p, before);
}

#[test]
fn screen_to_world_recentres_the_cursor() {
    // Window 800x600, cursor at screen (800, 300): world cursor (400, 0).
    let world = cursor_world_position(
        &Scalar::from_int(800),
        &Scalar::from_int(600),
        &Vec2::new(Scalar::from_int(800), Scalar::from_int(300)),
    );
    assert!(world.x.value_eq(&Scalar::from_int(400)));
    assert!(world.y.value_eq(&Scalar::from_int(0)));
}

#[test]
fn tracking_faces_positive_x() {
    // Cursor at the window's right edge, player at the origin: the player
    // turns to face +X.
    let mut p = spawn_player();
    let w = window_800_600(Some(Vec2::new(Scalar::from_int(800), Scalar::from_int(300))));
    track_mouse_cursor(&mut p, Some(&w));
    assert!(p.facing.x.is_positive());
    assert!(p.facing.y.value_eq(&Scalar::from_int(0)));
    assert!(p.facing.x.value_eq(&Scalar::from_int(400)));
    // Position and speed are untouched.
    assert!(p.position.x.value_eq(&Scalar::from_int(0)));
    assert!(p.position.y.value_eq(&Scalar::from_int(0)));
    assert!(p.speed.0.value_eq(&Scalar::from_int(250)));
}

#[test]
fn tracking_faces_positive_y() {
    // World cursor displacement (0, 5): the facing must point along +Y,
    // the forward axis itself.
    let mut p = spawn_player();
    let w = window_800_600(Some(Vec2::new(Scalar::from_int(400), Scalar::from_int(305))));
    track_mouse_cursor(&mut p, Some(&w));
    assert!(p.facing.x.value_eq(&Scalar::from_int(0)));
    assert!(p.facing.y.value_eq(&Scalar::from_int(5)));
    assert!(p.facing.y.is_positive());
}

#[test]
fn tracking_follows_a_moved_player() {
    // Player walks right for a second, then looks at the world origin.
    let mut p = spawn_player();
    let keys = DirectionKeys { right: true, ..no_keys() };
    move_player(&mut p, &keys, &Scalar::from_int(1));
    assert!(p.position.x.value_eq(&Scalar::from_int(250)));
    let w = window_800_600(Some(Vec2::new(Scalar::from_int(400), Scalar::from_int(300))));
    track_mouse_cursor(&mut p, Some(&w));
    // Displacement from (250, 0) to (0, 0) points along -X.
    assert!(p.facing.x.value_eq(&Scalar::from_int(-250)));
    assert!(p.facing.y.value_eq(&Scalar::from_int(0)));
    assert!(!p.facing.x.is_positive());
}

#[test]
fn scalar_arithmetic_is_exact() {
    let half = Scalar::new(1, 0, 2);
    let third = Scalar::new(1, 0, 3);
    assert!(half.add(&third).value_eq(&Scalar::new(5, 0, 6)));
    assert!(half.sub(&third).value_eq(&Scalar::new(1, 0, 6)));
    assert!(half.mul(&third).value_eq(&Scalar::new(1, 0, 6)));
    assert!(Scalar::from_int(7).half().value_eq(&Scalar::new(7, 0, 2)));
    // sqrt(2) * sqrt(2) == 2.
    let root2 = Scalar::new(0, 1, 1);
    assert!(root2.mul(&root2).value_eq(&Scalar::from_int(2)));
    assert!(root2.is_positive());
    assert!(Scalar::new(0, -1, 1).is_positive() == false);
    // 3/2 < sqrt(2) is false: 3/2 - sqrt(2) is positive.
    assert!(Scalar::new(3, -2, 2).is_positive());
    // 7/5 - sqrt(2) is negative.
    assert!(!Scalar::new(7, -5, 5).is_positive());
    assert!(Scalar::zero().is_zero());
    assert!(!root2.is_positive() == false);
}
