use rust_snake::character::{Character, DEFAULT_TICK_MICROS};
use rust_snake::geometry::Direction;

fn tick(c: &mut Character) {
    c.update(DEFAULT_TICK_MICROS + 1);
}

#[test]
fn init_gives_the_initial_state() {
    let c = Character::init(16);
    assert_eq!(c.current_index, 0);
    assert_eq!(c.future_index, 1);
    assert_eq!(c.number_of_squares_per_row, 16);
    assert_eq!(c.last_position_direction, Direction::Left);
    assert_eq!(c.timer, 0);
    assert_eq!(c.tick_threshold, DEFAULT_TICK_MICROS);
    assert!(c.tail_positions.is_empty());
    assert_eq!(c.tail_length, 0);
}

#[test]
fn update_below_threshold_only_accumulates() {
    let mut c = Character::init(4);
    c.update(200_000);
    c.update(300_000);
    assert_eq!(c.timer, 500_000);
    assert_eq!(c.current_index, 0);
    assert!(c.tail_positions.is_empty());
}

#[test]
fn update_past_threshold_advances_once() {
    let mut c = Character::init(4);
    c.update(300_000);
    c.update(300_000);
    assert_eq!(c.timer, 0);
    assert_eq!(c.current_index, 1);
    assert_eq!(c.future_index, 1);
    assert!(c.tail_positions.is_empty());
}

#[test]
fn custom_tick_threshold() {
    let mut c = Character::with_tick_threshold(4, 10);
    c.update(10);
    assert_eq!(c.current_index, 0);
    c.update(1);
    assert_eq!(c.current_index, 1);
}

#[test]
fn add_tail_length_raises_target_only() {
    let mut c = Character::init(4);
    c.add_tail_length();
    assert_eq!(c.tail_length, 1);
    assert!(c.tail_positions.is_empty());
}

#[test]
fn trail_reaches_growth_after_enough_ticks() {
    let mut c = Character::init(8);
    for _ in 0..3 {
        c.add_tail_length();
    }
    tick(&mut c);
    assert_eq!(c.tail_positions, vec![0]);
    tick(&mut c);
    assert_eq!(c.tail_positions, vec![1, 0]);
    tick(&mut c);
    assert_eq!(c.tail_positions, vec![2, 1, 0]);
    for _ in 0..4 {
        tick(&mut c);
    }
    assert_eq!(c.tail_positions.len(), 3);
    assert_eq!(c.tail_positions, vec![6, 5, 4]);
    assert_eq!(c.current_index, 7);
}

#[test]
fn trail_without_growth_stays_empty() {
    let mut c = Character::init(4);
    for _ in 0..5 {
        tick(&mut c);
    }
    assert!(c.tail_positions.is_empty());
    assert_eq!(c.current_index, 1);
}

#[test]
fn stepping_onto_the_trail_resets() {
    let mut c = Character::init(4);
    for _ in 0..4 {
        c.add_tail_length();
    }
    tick(&mut c);
    assert_eq!(c.current_index, 1);
    c.set_direction(Direction::Down);
    tick(&mut c);
    assert_eq!(c.current_index, 5);
    c.set_direction(Direction::Right);
    tick(&mut c);
    assert_eq!(c.current_index, 4);
    c.set_direction(Direction::Up);
    c.update(100);
    tick(&mut c);
    assert_eq!(c.current_index, 0);
    assert_eq!(c.future_index, 1);
    assert!(c.tail_positions.is_empty());
    assert_eq!(c.tail_length, 0);
    assert_eq!(c.last_position_direction, Direction::Left);
    assert_eq!(c.timer, 0);
}

#[test]
fn set_direction_same_direction_changes_nothing() {
    let mut c = Character::init(4);
    c.update(1234);
    c.set_direction(Direction::Left);
    assert_eq!(c.last_position_direction, Direction::Left);
    assert_eq!(c.timer, 1234);
    assert_eq!(c.current_index, 0);
    assert_eq!(c.future_index, 1);
}

#[test]
fn set_direction_takes_effect_at_next_tick() {
    let mut c = Character::init(4);
    c.set_direction(Direction::Down);
    assert_eq!(c.current_index, 0);
    tick(&mut c);
    assert_eq!(c.current_index, 4);
}

#[test]
fn move_to_same_direction_changes_nothing() {
    let mut c = Character::init(4);
    c.update(1234);
    c.move_to(Direction::Left);
    assert_eq!(c.timer, 1234);
    assert_eq!(c.current_index, 0);
}

#[test]
fn move_to_new_direction_steps_at_once() {
    let mut c = Character::init(4);
    c.add_tail_length();
    c.update(1234);
    c.move_to(Direction::Up);
    assert_eq!(c.last_position_direction, Direction::Up);
    assert_eq!(c.current_index, 12);
    assert_eq!(c.tail_positions, vec![0]);
    assert_eq!(c.timer, 0);
}

#[test]
fn occupied_positions_lists_head_then_trail() {
    let mut c = Character::init(4);
    c.add_tail_length();
    c.add_tail_length();
    tick(&mut c);
    tick(&mut c);
    assert_eq!(c.occupied_positions(), vec![2, 1, 0]);
}
