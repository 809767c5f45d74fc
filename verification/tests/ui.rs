use chess_net::square::Move_channel;
use chess_net::ui::{texture_key, App, Color, Graphics_manager, PieceType};

#[test]
fn texture_keys_of_all_pieces() {
    assert_eq!(texture_key(PieceType::Pawn, Color::Black), "b_pawn");
    assert_eq!(texture_key(PieceType::Pawn, Color::White), "w_pawn");
    assert_eq!(texture_key(PieceType::Knight, Color::Black), "b_knight");
    assert_eq!(texture_key(PieceType::Knight, Color::White), "w_knight");
    assert_eq!(texture_key(PieceType::Bishop, Color::Black), "b_bishop");
    assert_eq!(texture_key(PieceType::Bishop, Color::White), "w_bishop");
    assert_eq!(texture_key(PieceType::Rook, Color::Black), "b_rook");
    assert_eq!(texture_key(PieceType::Rook, Color::White), "w_rook");
    assert_eq!(texture_key(PieceType::King, Color::Black), "b_king");
    assert_eq!(texture_key(PieceType::King, Color::White), "w_king");
    assert_eq!(texture_key(PieceType::Queen, Color::Black), "b_queen");
    assert_eq!(texture_key(PieceType::Queen, Color::White), "w_queen");
}

#[test]
fn markings_are_kept_in_order_and_wiped() {
    let mut marks = Graphics_manager::new();
    assert!(marks.marks().is_empty());
    marks.add_marking((1, 2));
    marks.add_marking((3, 4));
    marks.add_marking((1, 2));
    assert_eq!(marks.marks(), &vec![(1, 2), (3, 4), (1, 2)]);
    marks.marking_wipe();
    assert!(marks.marks().is_empty());
}

#[test]
fn check_finds_a_destination() {
    let mut app = App::new();
    let destinations = [(4, 2), (4, 3)];
    assert!(app.check(&destinations, (4, 3), false));
    assert!(app.check(&destinations, (4, 2), false));
    assert!(!app.check(&destinations, (5, 3), false));
    assert!(!app.check(&[], (4, 3), false));
    assert!(app.marks().is_empty());
}

#[test]
fn check_with_fill_marks_up_to_the_destination() {
    let mut app = App::new();
    let destinations = [(4, 2), (4, 3), (4, 4)];
    assert!(app.check(&destinations, (4, 3), true));
    assert_eq!(app.marks(), &vec![(4, 2), (4, 3)]);
    assert!(!app.check(&destinations, (0, 0), true));
    assert_eq!(app.marks(), &vec![(4, 2), (4, 3), (4, 2), (4, 3), (4, 4)]);
}

#[test]
fn first_click_picks_and_marks() {
    let mut app = App::new();
    assert_eq!(app.origin((4, 1)), (4, 1));
    assert_eq!(app.mouse_button_down_event((4, 1), true, &[(4, 2), (4, 3)]), None);
    assert_eq!(app.prev_click_pos(), Some((4, 1)));
    assert_eq!(app.marks(), &vec![(4, 2), (4, 3)]);
    assert_eq!(app.origin((7, 7)), (4, 1));
}

#[test]
fn first_click_on_no_piece_picks_without_marks() {
    let mut app = App::new();
    assert_eq!(app.mouse_button_down_event((4, 4), false, &[(1, 1)]), None);
    assert_eq!(app.prev_click_pos(), Some((4, 4)));
    assert!(app.marks().is_empty());
}

#[test]
fn first_click_stops_marking_at_the_corner() {
    let mut app = App::new();
    assert_eq!(app.mouse_button_down_event((0, 3), true, &[(0, 2), (0, 0), (0, 1)]), None);
    assert_eq!(app.marks(), &vec![(0, 2), (0, 0)]);
}

#[test]
fn second_click_on_a_destination_gives_the_move() {
    let mut app = App::new();
    let destinations = [(4, 2), (4, 3)];
    app.mouse_button_down_event((4, 1), true, &destinations);
    assert_eq!(
        app.mouse_button_down_event((4, 3), false, &destinations),
        Some(Move_channel { from: (4, 1), to: (4, 3) })
    );
    assert!(app.marks().is_empty());
    assert_eq!(app.prev_click_pos(), Some((4, 1)));
}

#[test]
fn second_click_elsewhere_gives_the_move_up() {
    let mut app = App::new();
    let destinations = [(4, 2), (4, 3)];
    app.mouse_button_down_event((4, 1), true, &destinations);
    assert_eq!(app.mouse_button_down_event((5, 5), true, &destinations), None);
    assert!(app.marks().is_empty());
    assert_eq!(app.prev_click_pos(), None);
}

#[test]
fn clicked_piece_flag_changes_nothing_else() {
    let mut app = App::new();
    app.mouse_button_down_event((4, 1), true, &[(4, 2)]);
    app.set_clicked_piece(true);
    assert_eq!(app.prev_click_pos(), Some((4, 1)));
    assert_eq!(app.marks(), &vec![(4, 2)]);
}
