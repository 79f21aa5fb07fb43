use rust_snake::items::Items;

#[test]
fn init_on_single_cell_grid_places_coin_on_it() {
    let items = Items::init(1);
    assert_eq!(items.coin_position, 0);
    assert_eq!(items.number_of_squares, 1);
}

#[test]
fn init_places_coin_on_grid() {
    for _ in 0..50 {
        let items = Items::init(16);
        assert!(0 <= items.coin_position && items.coin_position < 16);
    }
}

#[test]
fn free_positions_excludes_occupied() {
    assert_eq!(Items::free_positions(5, &vec![1, 3]), vec![0, 2, 4]);
    assert_eq!(Items::free_positions(3, &vec![]), vec![0, 1, 2]);
    assert_eq!(Items::free_positions(3, &vec![2, 0, 1]), Vec::<i32>::new());
    assert_eq!(Items::free_positions(0, &vec![]), Vec::<i32>::new());
}

#[test]
fn place_coin_picks_indexed_cell() {
    let mut items = Items { coin_position: 3, number_of_squares: 9 };
    items.place_coin(&vec![2, 5, 8], 1);
    assert_eq!(items.coin_position, 5);
    items.place_coin(&vec![], 0);
    assert_eq!(items.coin_position, 0);
}

#[test]
fn spawn_coin_takes_the_only_free_cell() {
    let mut items = Items { coin_position: 0, number_of_squares: 4 };
    items.spawn_coin(&vec![0, 1, 3]);
    assert_eq!(items.coin_position, 2);
}

#[test]
fn spawn_coin_with_full_grid_falls_back_to_zero() {
    let mut items = Items { coin_position: 2, number_of_squares: 3 };
    items.spawn_coin(&vec![1, 2, 0]);
    assert_eq!(items.coin_position, 0);
}

#[test]
fn spawn_coin_never_lands_on_occupied_cell() {
    let occupied = vec![0, 2, 4, 6, 8];
    let mut items = Items { coin_position: 0, number_of_squares: 10 };
    for _ in 0..200 {
        items.spawn_coin(&occupied);
        assert!(items.coin_position % 2 == 1 && items.coin_position < 10);
    }
}
