use rust_snake::character::DEFAULT_TICK_MICROS;
use rust_snake::game::Game;
use rust_snake::geometry::Direction;
use rust_snake::screen::Screen;

#[test]
fn screen_init_computes_base_unit() {
    let s = Screen::init(800, 600);
    assert_eq!((s.width, s.height, s.base_unit), (800, 600, 1));
}

#[test]
fn screen_resize_recomputes_base_unit() {
    let mut s = Screen::init(800, 600);
    s.resize(1900, 600);
    assert_eq!((s.width, s.height, s.base_unit), (1900, 600, 3));
    s.resize(-7, 2);
    assert_eq!(s.base_unit, -3);
}

#[test]
fn game_init_sizes_coin_grid() {
    let g = Game::init(16);
    assert_eq!(g.items.number_of_squares, 256);
    assert!(0 <= g.items.coin_position && g.items.coin_position < 256);
    assert_eq!(g.character.current_index, 0);
}

#[test]
fn step_frame_picks_up_coin_and_respawns_elsewhere() {
    let mut g = Game::init(4);
    g.items.coin_position = 0;
    g.step_frame(None, DEFAULT_TICK_MICROS + 1);
    assert_eq!(g.character.tail_length, 1);
    assert_ne!(g.items.coin_position, 0);
    assert_eq!(g.character.current_index, 1);
    assert_eq!(g.character.tail_positions, vec![0]);
}

#[test]
fn step_frame_applies_input_before_moving() {
    let mut g = Game::init(4);
    g.items.coin_position = 15;
    g.step_frame(Some(Direction::Down), DEFAULT_TICK_MICROS + 1);
    assert_eq!(g.character.current_index, 4);
    assert_eq!(g.items.coin_position, 15);
    assert_eq!(g.character.tail_length, 0);
}
