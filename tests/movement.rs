use player_move::{move_player, step, Direction, STEP};

#[test]
fn w_moves_up() {
    assert_eq!(move_player(3, 10, "w"), vec![3, 5]);
    assert_eq!(move_player(-7, 0, "w"), vec![-7, -5]);
}

#[test]
fn s_moves_down() {
    assert_eq!(move_player(3, 10, "s"), vec![3, 15]);
    assert_eq!(move_player(0, -5, "s"), vec![0, 0]);
}

#[test]
fn a_moves_left() {
    assert_eq!(move_player(3, 10, "a"), vec![-2, 10]);
}

#[test]
fn d_moves_right() {
    assert_eq!(move_player(3, 10, "d"), vec![8, 10]);
}

#[test]
fn other_keys_change_nothing() {
    for key in ["", "x", "W", "ww", "wasd", " w", "é", "up"] {
        assert_eq!(move_player(4, -9, key), vec![4, -9], "key {:?}", key);
    }
}

#[test]
fn inverse_pairs_cancel() {
    for (key, back) in [("w", "s"), ("s", "w"), ("a", "d"), ("d", "a")] {
        for (x, y) in [(0, 0), (12, -40), (i32::MAX, i32::MIN), (i32::MIN, i32::MAX)] {
            let p = move_player(x, y, key);
            assert_eq!(move_player(p[0], p[1], back), vec![x, y]);
        }
    }
}

#[test]
fn scenario_right_up_then_unknown() {
    let p = move_player(0, 0, "d");
    assert_eq!(p, vec![5, 0]);
    let p = move_player(p[0], p[1], "w");
    assert_eq!(p, vec![5, -5]);
    let p = move_player(p[0], p[1], "x");
    assert_eq!(p, vec![5, -5]);
}

#[test]
fn coordinates_wrap_on_overflow() {
    assert_eq!(move_player(i32::MAX, 0, "d"), vec![i32::MIN + 4, 0]);
    assert_eq!(move_player(i32::MIN, 0, "a"), vec![i32::MAX - 4, 0]);
    assert_eq!(move_player(0, i32::MIN + 2, "w"), vec![0, i32::MAX - 2]);
    assert_eq!(move_player(0, i32::MAX - 1, "s"), vec![0, i32::MIN + 3]);
}

#[test]
fn keys_name_directions() {
    assert_eq!(Direction::from_key("w"), Some(Direction::Up));
    assert_eq!(Direction::from_key("s"), Some(Direction::Down));
    assert_eq!(Direction::from_key("a"), Some(Direction::Left));
    assert_eq!(Direction::from_key("d"), Some(Direction::Right));
    assert_eq!(Direction::from_key(""), None);
    assert_eq!(Direction::from_key("dd"), None);
    assert_eq!(Direction::from_key("D"), None);
}

#[test]
fn step_moves_by_step_size() {
    assert_eq!(STEP, 5);
    assert_eq!(step(1, 1, Direction::Up), (1, -4));
    assert_eq!(step(1, 1, Direction::Down), (1, 6));
    assert_eq!(step(1, 1, Direction::Left), (-4, 1));
    assert_eq!(step(1, 1, Direction::Right), (6, 1));
}
