use chessterm::{
    explore_moves, Bishop, Board, CurrentScreen, Direction, Game, King, Knight, Move, Pawn, Piece,
    PieceColor, PieceType, Position, Queen, Rook, MENU_ITEM_COUNT,
};

fn p(x: usize, y: usize) -> Position {
    Position { x, y }
}

fn put(board: &mut Board, x: usize, y: usize, kind: PieceType, color: PieceColor) {
    board.board[x][y] = Some(Piece::new(kind, color));
}

fn same_cells(mut a: Vec<Position>, mut b: Vec<Position>) -> bool {
    a.sort_by_key(|q| (q.x, q.y));
    b.sort_by_key(|q| (q.x, q.y));
    a == b
}

#[test]
fn starting_layout() {
    let board = Board::default();
    let back = [
        PieceType::Rook,
        PieceType::Knight,
        PieceType::Bishop,
        PieceType::Queen,
        PieceType::King,
        PieceType::Bishop,
        PieceType::Knight,
        PieceType::Rook,
    ];
    for y in 0..8 {
        assert_eq!(board.board[0][y], Some(Piece::new(back[y], PieceColor::Black)));
        assert_eq!(board.board[1][y], Some(Piece::new(PieceType::Pawn, PieceColor::Black)));
        assert_eq!(board.board[6][y], Some(Piece::new(PieceType::Pawn, PieceColor::White)));
        assert_eq!(board.board[7][y], Some(Piece::new(back[y], PieceColor::White)));
        for x in 2..6 {
            assert!(board.is_cell_empty(p(x, y)));
        }
    }
    assert_eq!(board.on_turn, PieceColor::White);
    assert_eq!(board.cursor_position, p(7, 0));
    assert!(board.selected_position.is_none());
    assert!(board.currently_legal_moves.is_none());
    assert!(!board.is_check);
    assert!(board.captured_pieces.is_empty());
}

#[test]
fn cursor_wraps_at_each_edge() {
    let mut board = Board::init_empty();
    board.cursor_position = p(0, 3);
    board.move_cursor(Direction::Up);
    assert_eq!(board.cursor_position, p(7, 3));
    board.move_cursor(Direction::Down);
    assert_eq!(board.cursor_position, p(0, 3));
    board.cursor_position = p(4, 0);
    board.move_cursor(Direction::Left);
    assert_eq!(board.cursor_position, p(4, 7));
    board.move_cursor(Direction::Right);
    assert_eq!(board.cursor_position, p(4, 0));
    board.move_cursor(Direction::Right);
    assert_eq!(board.cursor_position, p(4, 1));
    board.move_cursor(Direction::Up);
    assert_eq!(board.cursor_position, p(3, 1));
}

#[test]
fn cursor_stays_on_board_over_many_steps() {
    let mut board = Board::default();
    for i in 0..40 {
        let direction = match i % 4 {
            0 => Direction::Up,
            1 => Direction::Left,
            2 => Direction::Up,
            _ => Direction::Left,
        };
        board.move_cursor(direction);
        assert!(board.cursor_position.x < 8 && board.cursor_position.y < 8);
    }
    assert_eq!(board.cursor_position, p(3, 4));
}

#[test]
fn white_pawn_on_default_board_has_two_moves() {
    let mut board = Board::default();
    board.select_position(&p(6, 3));
    assert_eq!(board.selected_position, Some(p(6, 3)));
    assert_eq!(board.currently_legal_moves, Some(vec![p(5, 3), p(4, 3)]));
}

#[test]
fn lone_bishop_captures_and_stops() {
    let mut board = Board::init_empty();
    board.on_turn = PieceColor::Black;
    put(&mut board, 5, 4, PieceType::Bishop, PieceColor::Black);
    put(&mut board, 3, 2, PieceType::Pawn, PieceColor::White);
    board.select_position(&p(5, 4));
    let moves = board.currently_legal_moves.clone().unwrap();
    assert!(moves.contains(&p(4, 3)));
    assert!(moves.contains(&p(3, 2)));
    assert!(!moves.contains(&p(2, 1)));
    assert!(!moves.contains(&p(1, 0)));
    let expected = vec![p(4, 3), p(3, 2), p(6, 5), p(7, 6), p(6, 3), p(7, 2), p(4, 5), p(3, 6), p(2, 7)];
    assert!(same_cells(moves, expected));
}

#[test]
fn king_between_friends_and_foes_has_six_moves() {
    let mut board = Board::init_empty();
    put(&mut board, 5, 5, PieceType::King, PieceColor::White);
    put(&mut board, 4, 5, PieceType::Pawn, PieceColor::White);
    put(&mut board, 5, 4, PieceType::Pawn, PieceColor::White);
    put(&mut board, 6, 4, PieceType::Knight, PieceColor::Black);
    put(&mut board, 6, 6, PieceType::Knight, PieceColor::Black);
    board.select_position(&p(5, 5));
    let moves = board.currently_legal_moves.clone().unwrap();
    assert_eq!(moves.len(), 6);
    assert!(moves.contains(&p(6, 4)));
    assert!(moves.contains(&p(6, 6)));
    assert!(!moves.contains(&p(4, 5)));
    assert!(!moves.contains(&p(5, 4)));
}

#[test]
fn move_exposing_own_king_is_still_made() {
    let mut board = Board::init_empty();
    put(&mut board, 7, 4, PieceType::King, PieceColor::White);
    put(&mut board, 6, 4, PieceType::Rook, PieceColor::White);
    put(&mut board, 0, 4, PieceType::Rook, PieceColor::Black);
    put(&mut board, 0, 7, PieceType::King, PieceColor::Black);
    board.select_position(&p(6, 4));
    board.move_piece(&p(6, 0));
    assert_eq!(board.board[6][0], Some(Piece::new(PieceType::Rook, PieceColor::White)));
    assert!(board.board[6][4].is_none());
    assert_eq!(board.on_turn, PieceColor::Black);
    assert!(!board.is_check);
    board.select_position(&p(0, 4));
    assert!(board.currently_legal_moves.clone().unwrap().contains(&p(7, 4)));
}

#[test]
fn turn_passes_only_after_a_move() {
    let mut board = Board::default();
    board.select_position(&p(6, 3));
    board.move_piece(&p(3, 3));
    assert_eq!(board.on_turn, PieceColor::White);
    assert_eq!(board.selected_position, Some(p(6, 3)));
    board.move_piece(&p(4, 3));
    assert_eq!(board.on_turn, PieceColor::Black);
    assert!(board.selected_position.is_none());
    assert!(board.currently_legal_moves.is_none());
    assert_eq!(board.board[4][3], Some(Piece::new(PieceType::Pawn, PieceColor::White)));
    assert!(board.board[6][3].is_none());
    board.move_piece(&p(5, 3));
    assert_eq!(board.on_turn, PieceColor::Black);
}

#[test]
fn move_without_selection_does_nothing() {
    let mut board = Board::default();
    board.move_piece(&p(5, 3));
    assert_eq!(board.on_turn, PieceColor::White);
    assert_eq!(board.board[6][3], Some(Piece::new(PieceType::Pawn, PieceColor::White)));
    assert!(board.board[5][3].is_none());
}

#[test]
fn selecting_twice_gives_the_same_moves() {
    let mut board = Board::default();
    board.select_position(&p(7, 1));
    let first = board.currently_legal_moves.clone();
    let first_selected = board.selected_position;
    board.select_position(&p(7, 1));
    assert_eq!(board.currently_legal_moves, first);
    assert_eq!(board.selected_position, first_selected);
    assert_eq!(first, Some(vec![p(5, 2), p(5, 0)]));
}

#[test]
fn selecting_an_opposing_piece_clears_the_selection() {
    let mut board = Board::default();
    board.select_position(&p(6, 3));
    board.select_position(&p(1, 3));
    assert!(board.selected_position.is_none());
    assert!(board.currently_legal_moves.is_none());
}

#[test]
fn selecting_an_empty_cell_clears_the_selection() {
    let mut board = Board::default();
    board.select_position(&p(6, 3));
    board.select_position(&p(4, 4));
    assert!(board.selected_position.is_none());
    assert!(board.currently_legal_moves.is_none());
}

#[test]
fn selected_piece_without_moves_keeps_selection() {
    let mut board = Board::default();
    board.select_position(&p(7, 0));
    assert_eq!(board.selected_position, Some(p(7, 0)));
    assert!(board.currently_legal_moves.is_none());
}

#[test]
fn capture_moves_piece_to_captured_list() {
    let mut board = Board::init_empty();
    put(&mut board, 7, 4, PieceType::King, PieceColor::White);
    put(&mut board, 0, 4, PieceType::King, PieceColor::Black);
    put(&mut board, 4, 4, PieceType::Rook, PieceColor::White);
    put(&mut board, 4, 1, PieceType::Knight, PieceColor::Black);
    board.select_position(&p(4, 4));
    board.move_piece(&p(4, 1));
    assert_eq!(board.captured_pieces, vec![Piece::new(PieceType::Knight, PieceColor::Black)]);
    assert_eq!(board.board[4][1], Some(Piece::new(PieceType::Rook, PieceColor::White)));
}

#[test]
fn check_flag_is_set_and_kept() {
    let mut board = Board::init_empty();
    put(&mut board, 7, 4, PieceType::King, PieceColor::White);
    put(&mut board, 0, 4, PieceType::King, PieceColor::Black);
    put(&mut board, 5, 0, PieceType::Queen, PieceColor::White);
    assert!(!board.is_getting_checked());
    board.select_position(&p(5, 0));
    board.move_piece(&p(5, 4));
    assert!(board.is_check);
    assert_eq!(board.on_turn, PieceColor::Black);
    board.select_position(&p(0, 4));
    board.move_piece(&p(0, 3));
    assert_eq!(board.board[0][3], Some(Piece::new(PieceType::King, PieceColor::Black)));
    assert!(board.is_check);
    assert_eq!(board.on_turn, PieceColor::White);
}

#[test]
fn check_detection_finds_attacked_king() {
    let mut board = Board::init_empty();
    put(&mut board, 7, 4, PieceType::King, PieceColor::White);
    put(&mut board, 0, 4, PieceType::King, PieceColor::Black);
    put(&mut board, 2, 3, PieceType::Knight, PieceColor::White);
    assert!(board.is_getting_checked());
    board.on_turn = PieceColor::Black;
    assert!(!board.is_getting_checked());
    put(&mut board, 1, 4, PieceType::Pawn, PieceColor::Black);
    board.on_turn = PieceColor::White;
    board.board[2][3] = None;
    put(&mut board, 3, 4, PieceType::Rook, PieceColor::White);
    assert!(!board.is_getting_checked());
}

#[test]
fn confirm_selects_then_moves() {
    let mut board = Board::default();
    board.cursor_position = p(6, 0);
    board.confirm_at_cursor();
    assert_eq!(board.selected_position, Some(p(6, 0)));
    board.move_cursor(Direction::Up);
    board.move_cursor(Direction::Up);
    board.confirm_at_cursor();
    assert_eq!(board.board[4][0], Some(Piece::new(PieceType::Pawn, PieceColor::White)));
    assert_eq!(board.on_turn, PieceColor::Black);
    board.move_cursor(Direction::Right);
    board.confirm_at_cursor();
    assert!(board.selected_position.is_none());
}

#[test]
fn ray_stops_at_the_edge_and_at_pieces() {
    let mut board = Board::init_empty();
    put(&mut board, 5, 4, PieceType::Rook, PieceColor::Black);
    let mut moves = vec![];
    explore_moves(&p(5, 4), &mut moves, &board, PieceColor::Black, 1, 0);
    assert_eq!(moves, vec![p(6, 4), p(7, 4)]);
    put(&mut board, 2, 4, PieceType::Pawn, PieceColor::White);
    put(&mut board, 5, 6, PieceType::Pawn, PieceColor::Black);
    explore_moves(&p(5, 4), &mut moves, &board, PieceColor::Black, -1, 0);
    assert_eq!(moves, vec![p(6, 4), p(7, 4), p(4, 4), p(3, 4), p(2, 4)]);
    explore_moves(&p(5, 4), &mut moves, &board, PieceColor::Black, 0, 1);
    assert_eq!(moves.len(), 6);
    assert_eq!(moves[5], p(5, 5));
}

#[test]
fn rule_dispatch_by_kind() {
    let mut board = Board::init_empty();
    put(&mut board, 4, 4, PieceType::Knight, PieceColor::White);
    board.selected_position = Some(p(4, 4));
    assert_eq!(PieceType::Knight.legal_moves(&board), Knight::available_moves(&board));
    assert_eq!(PieceType::Rook.legal_moves(&board).unwrap().len(), 14);
    assert_eq!(Rook::available_moves(&board).unwrap().len(), 14);
    assert_eq!(Bishop::available_moves(&board).unwrap().len(), 13);
    assert_eq!(Queen::available_moves(&board).unwrap().len(), 27);
    assert_eq!(King::available_moves(&board).unwrap().len(), 8);
    assert_eq!(Pawn::available_moves(&board), Some(vec![p(3, 4)]));
    let moves = PieceType::Knight.moves_from(&board, &p(0, 0), PieceColor::White);
    assert_eq!(moves, vec![p(2, 1), p(1, 2)]);
}

#[test]
fn rules_give_nothing_without_a_selection() {
    let board = Board::default();
    assert!(Rook::available_moves(&board).is_none());
    assert!(Pawn::get_legal_moves_for_white(&board).is_empty());
    assert!(Pawn::get_legal_moves_for_black(&board).is_empty());
    let mut board = Board::init_empty();
    board.selected_position = Some(p(3, 3));
    assert!(Queen::available_moves(&board).is_none());
}

#[test]
fn pawn_on_far_row_has_no_moves() {
    let mut board = Board::init_empty();
    put(&mut board, 0, 3, PieceType::Pawn, PieceColor::White);
    board.selected_position = Some(p(0, 3));
    assert!(Pawn::get_legal_moves_for_white(&board).is_empty());
    assert!(Pawn::available_moves(&board).is_none());
    put(&mut board, 7, 3, PieceType::Pawn, PieceColor::Black);
    board.selected_position = Some(p(7, 3));
    assert!(Pawn::get_legal_moves_for_black(&board).is_empty());
}

#[test]
fn pawn_double_step_needs_home_rank_and_clear_path() {
    let mut board = Board::init_empty();
    put(&mut board, 5, 2, PieceType::Pawn, PieceColor::White);
    board.selected_position = Some(p(5, 2));
    assert_eq!(Pawn::get_legal_moves_for_white(&board), vec![p(4, 2)]);
    put(&mut board, 6, 6, PieceType::Pawn, PieceColor::White);
    put(&mut board, 4, 6, PieceType::Knight, PieceColor::Black);
    board.selected_position = Some(p(6, 6));
    assert_eq!(Pawn::get_legal_moves_for_white(&board), vec![p(5, 6)]);
    put(&mut board, 5, 7, PieceType::Knight, PieceColor::White);
    put(&mut board, 5, 5, PieceType::Knight, PieceColor::Black);
    assert_eq!(Pawn::get_legal_moves_for_white(&board), vec![p(5, 6), p(5, 5)]);
}

#[test]
fn symbols_of_pieces() {
    assert_eq!(PieceType::King.symbol(), 'K');
    assert_eq!(PieceType::Queen.symbol(), 'Q');
    assert_eq!(PieceType::Rook.symbol(), 'R');
    assert_eq!(PieceType::Bishop.symbol(), 'B');
    assert_eq!(PieceType::Knight.symbol(), 'N');
    assert_eq!(PieceType::Pawn.symbol(), 'p');
    assert_eq!(PieceColor::White.symbol(), 'w');
    assert_eq!(PieceColor::Black.symbol(), 'b');
}

#[test]
fn game_starts_on_menu_and_runs() {
    let mut game = Game::default();
    assert!(game.is_running);
    assert_eq!(game.current_screen, CurrentScreen::Menu);
    assert_eq!(game.menu_state.selected, 0);
    assert_eq!(game.menu_state.item_count, MENU_ITEM_COUNT);
    game.tick();
    game.run();
    assert_eq!(game.current_screen, CurrentScreen::Game);
    game.quit();
    assert!(!game.is_running);
}

#[test]
fn menu_cursor_wraps() {
    let mut game = Game::default();
    game.move_menu_cursor(Direction::Up);
    assert_eq!(game.menu_state.selected, MENU_ITEM_COUNT - 1);
    game.move_menu_cursor(Direction::Down);
    assert_eq!(game.menu_state.selected, 0);
    game.move_menu_cursor(Direction::Down);
    assert_eq!(game.menu_state.selected, 1);
    game.move_menu_cursor(Direction::Left);
    assert_eq!(game.menu_state.selected, 1);
}

#[test]
fn menu_entries_start_or_end_the_game() {
    let mut game = Game::default();
    game.choose_menu_entry();
    assert_eq!(game.current_screen, CurrentScreen::Game);
    assert!(game.is_running);
    let mut game = Game::default();
    game.move_menu_cursor(Direction::Down);
    game.choose_menu_entry();
    assert_eq!(game.current_screen, CurrentScreen::Menu);
    assert!(!game.is_running);
}
