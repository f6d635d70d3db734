use omega_rust::movement::{player_movement, Keys, PlayField, Position};

const NONE: Keys = Keys { left: false, right: false, up: false, down: false };

fn window() -> PlayField {
    PlayField::window()
}

fn origin() -> Position {
    Position { x: 0, y: 0 }
}

#[test]
fn right_for_half_a_second_moves_one_hundred_units() {
    let keys = Keys { right: true, ..NONE };
    let r = player_movement(window(), origin(), keys, 500_000);
    assert_eq!(r, Position { x: 100_000_000, y: 0 });
    assert!(r.x < 360_000_000);
}

#[test]
fn left_and_right_cancel() {
    let keys = Keys { left: true, right: true, ..NONE };
    assert_eq!(player_movement(window(), origin(), keys, 1_000_000), origin());
    let p = Position { x: -12_345, y: 67_890 };
    assert_eq!(player_movement(window(), p, keys, 1_000_000), p);
}

#[test]
fn all_four_keys_cancel() {
    let keys = Keys { left: true, right: true, up: true, down: true };
    let p = Position { x: 5, y: -5 };
    assert_eq!(player_movement(window(), p, keys, 250_000), p);
}

#[test]
fn no_keys_no_move() {
    let p = Position { x: 1_000, y: -2_000 };
    assert_eq!(player_movement(window(), p, NONE, 16_667), p);
}

#[test]
fn each_axis_direction() {
    let t = 100_000;
    assert_eq!(player_movement(window(), origin(), Keys { left: true, ..NONE }, t), Position { x: -20_000_000, y: 0 });
    assert_eq!(player_movement(window(), origin(), Keys { right: true, ..NONE }, t), Position { x: 20_000_000, y: 0 });
    assert_eq!(player_movement(window(), origin(), Keys { up: true, ..NONE }, t), Position { x: 0, y: 20_000_000 });
    assert_eq!(player_movement(window(), origin(), Keys { down: true, ..NONE }, t), Position { x: 0, y: -20_000_000 });
}

#[test]
fn diagonal_move_has_unit_direction() {
    let keys = Keys { right: true, up: true, ..NONE };
    let r = player_movement(window(), origin(), keys, 100_000);
    assert_eq!(r, Position { x: 14_142_135, y: 14_142_135 });
    let d: i128 = 20_000_000;
    let len_sq = (r.x as i128) * (r.x as i128) + (r.y as i128) * (r.y as i128);
    assert!(len_sq <= d * d);
    let next_sq = (r.x as i128 + 1) * (r.x as i128 + 1) + (r.y as i128 + 1) * (r.y as i128 + 1);
    assert!(d * d < next_sq);
    let len = (len_sq as f64).sqrt() / 20_000_000.0;
    assert!((len - 1.0).abs() < 1e-6);
}

#[test]
fn diagonal_left_down() {
    let keys = Keys { left: true, down: true, ..NONE };
    let r = player_movement(window(), origin(), keys, 16_667);
    assert_eq!(r, Position { x: -2_357_069, y: -2_357_069 });
}

#[test]
fn no_time_no_move() {
    let keys = Keys { right: true, up: true, ..NONE };
    let p = Position { x: 7, y: 8 };
    assert_eq!(player_movement(window(), p, keys, 0), p);
    assert_eq!(player_movement(window(), p, keys, -1_000), p);
    assert_eq!(player_movement(window(), p, keys, i32::MIN), p);
}

#[test]
fn overshoot_is_clamped() {
    let t = 10_000_000;
    assert_eq!(player_movement(window(), origin(), Keys { right: true, ..NONE }, t).x, 360_000_000);
    assert_eq!(player_movement(window(), origin(), Keys { left: true, ..NONE }, t).x, -360_000_000);
    assert_eq!(player_movement(window(), origin(), Keys { up: true, ..NONE }, t).y, 90_000_000);
    assert_eq!(player_movement(window(), origin(), Keys { down: true, ..NONE }, t).y, -270_000_000);
}

#[test]
fn start_outside_area_is_clamped_without_moving() {
    let p = Position { x: 320_000_000, y: 120_000_000 };
    assert_eq!(player_movement(window(), p, NONE, 0), Position { x: 320_000_000, y: 90_000_000 });
}

#[test]
fn extreme_inputs_stay_in_area() {
    let field = PlayField { width: u32::MAX, height: u32::MAX };
    let keys = Keys { right: true, up: true, ..NONE };
    let bottom = -450_000 * u32::MAX as i64;
    let r = player_movement(field, Position { x: i64::MAX, y: bottom }, keys, i32::MAX);
    assert_eq!(r.x, 450_000 * u32::MAX as i64);
    assert_eq!(r.y, bottom + 303_700_049_856);
    let keys = Keys { left: true, down: true, ..NONE };
    let r = player_movement(window(), Position { x: i64::MIN, y: i64::MIN }, keys, i32::MAX);
    assert_eq!(r, Position { x: -360_000_000, y: -270_000_000 });
}

#[test]
fn empty_field_holds_only_its_centre() {
    let field = PlayField { width: 0, height: 0 };
    let keys = Keys { right: true, ..NONE };
    assert_eq!(player_movement(field, Position { x: 10, y: -10 }, keys, 1_000), origin());
}

#[test]
fn window_is_eight_hundred_by_six_hundred() {
    assert_eq!(window(), PlayField { width: 800, height: 600 });
}
