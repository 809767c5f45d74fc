use chess_net::square::{cell_of, square_of, Move_channel};

#[test]
fn every_cell_maps_to_its_square_and_back() {
    for y in 0..8usize {
        for x in 0..8usize {
            let square = square_of((x, y)).expect("on the board");
            assert_eq!(square as usize, x + y * 8);
            assert_eq!(square % 8, x as u32);
            assert_eq!(square / 8, y as u32);
            assert_eq!(cell_of(square), Some((x, y)));
        }
    }
}

#[test]
fn every_square_maps_to_its_cell_and_back() {
    for square in 0..64u32 {
        let cell = cell_of(square).expect("on the board");
        assert!(cell.0 < 8 && cell.1 < 8);
        assert_eq!(square_of(cell), Some(square));
    }
}

#[test]
fn square_numbers_of_named_cells() {
    assert_eq!(square_of((0, 0)), Some(0));
    assert_eq!(square_of((4, 1)), Some(12));
    assert_eq!(square_of((4, 3)), Some(28));
    assert_eq!(square_of((4, 6)), Some(52));
    assert_eq!(square_of((4, 4)), Some(36));
    assert_eq!(square_of((7, 7)), Some(63));
}

#[test]
fn cells_off_the_board_have_no_square() {
    assert_eq!(square_of((8, 0)), None);
    assert_eq!(square_of((0, 8)), None);
    assert_eq!(square_of((usize::MAX, usize::MAX)), None);
    assert_eq!(square_of((8, usize::MAX / 8)), None);
}

#[test]
fn squares_past_the_board_have_no_cell() {
    assert_eq!(cell_of(64), None);
    assert_eq!(cell_of(u32::MAX), None);
}

#[test]
fn move_channel_is_a_plain_value() {
    let a = Move_channel { from: (4, 1), to: (4, 3) };
    let b = a;
    assert_eq!(a, b);
    assert_ne!(a, Move_channel { from: (4, 3), to: (4, 1) });
}
