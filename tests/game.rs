use tetris::board::{Board, HEIGHT, WIDTH};
use tetris::game::{
    clear_award, drop_interval_ms, level_for_lines, other_kind, random_kind, Command, Game,
    Intent, SPAWN_X, SPAWN_Y,
};
use tetris::piece::{rotated, PieceKind, Piece};

fn occupied(b: &Board) -> usize {
    let mut n = 0;
    for r in 0..HEIGHT {
        for c in 0..WIDTH {
            if b.get(r, c).is_some() {
                n += 1;
            }
        }
    }
    n
}

fn fill_row(b: &mut Board, row: usize) {
    for c in 0..WIDTH {
        b.set(row, c, Some(PieceKind::Z));
    }
}

#[test]
fn fresh_session_is_empty_and_centered() {
    let g = Game::with_pieces(PieceKind::T, PieceKind::L);
    assert_eq!(g.anchor(), (SPAWN_X, SPAWN_Y));
    assert_eq!(g.anchor(), (3, 0));
    assert_eq!(g.score(), 0);
    assert_eq!(g.lines(), 0);
    assert_eq!(g.level(), 1);
    assert!(!g.is_game_over());
    assert!(!g.is_paused_now());
    assert_eq!(occupied(&g.board()), 0);
    assert_eq!(g.current_piece().kind, PieceKind::T);
    assert_eq!(g.next_piece().kind, PieceKind::L);
}

#[test]
fn running_piece_never_overlaps_locked_cells() {
    let mut g = Game::with_pieces(PieceKind::S, PieceKind::Z);
    for i in 0..200 {
        let dx = if i % 3 == 0 { -1 } else { 1 };
        g.move_piece(dx, 0);
        g.move_piece(0, 1);
        if i % 5 == 0 {
            g.rotate_piece();
        }
        if g.is_game_over() {
            break;
        }
        assert!(g.is_valid_position(0, 0));
    }
}

#[test]
fn four_rotations_restore_the_shape() {
    let mut g = Game::with_pieces(PieceKind::T, PieceKind::I);
    g.move_piece(0, 1);
    g.move_piece(0, 1);
    let before = g.current_piece().shape;
    let mut shapes = Vec::new();
    for _ in 0..4 {
        g.rotate_piece();
        shapes.push(g.current_piece().shape);
    }
    assert_ne!(shapes[0], before);
    assert_eq!(shapes[3], before);
}

#[test]
fn rotated_moves_cells_a_quarter_turn() {
    let i = Piece::of_kind(PieceKind::I).shape;
    let r = rotated(&i);
    for row in 0..4 {
        for col in 0..4 {
            assert_eq!(r[col][3 - row], i[row][col]);
        }
    }
    assert!(r[0][2] && r[1][2] && r[2][2] && r[3][2]);
}

#[test]
fn blocked_rotation_keeps_the_shape() {
    let mut b = Board::empty();
    // the vertical I would cover column 5, rows 0..4
    b.set(3, 5, Some(PieceKind::O));
    let mut g = Game::with_board(b, PieceKind::I, PieceKind::O);
    assert!(!g.is_game_over());
    let before = g.current_piece().shape;
    g.rotate_piece();
    assert_eq!(g.current_piece().shape, before);
    assert_eq!(g.anchor(), (3, 0));
}

#[test]
fn lock_inside_grid_adds_the_piece_cells() {
    let mut g = Game::with_pieces(PieceKind::T, PieceKind::O);
    for _ in 0..5 {
        assert!(g.move_piece(0, 1));
    }
    let before = occupied(&g.board());
    g.lock_piece_with(PieceKind::I);
    assert_eq!(occupied(&g.board()), before + 4);
    assert_eq!(g.board().get(6, 4), Some(PieceKind::T));
    assert_eq!(g.board().get(7, 3), Some(PieceKind::T));
    assert_eq!(g.board().get(7, 4), Some(PieceKind::T));
    assert_eq!(g.board().get(7, 5), Some(PieceKind::T));
    assert_eq!(g.current_piece().kind, PieceKind::O);
    assert_eq!(g.next_piece().kind, PieceKind::I);
}

#[test]
fn lock_straddling_the_top_drops_hidden_cells() {
    let mut g = Game::with_pieces(PieceKind::T, PieceKind::O);
    assert!(g.move_piece(0, -1));
    assert!(g.move_piece(0, -1));
    assert_eq!(g.anchor(), (3, -2));
    g.lock_piece_with(PieceKind::I);
    // the T's top cell sits at row -1 and is dropped; its three lower cells land on row 0
    assert_eq!(occupied(&g.board()), 3);
    assert_eq!(g.board().get(0, 3), Some(PieceKind::T));
    assert_eq!(g.board().get(0, 4), Some(PieceKind::T));
    assert_eq!(g.board().get(0, 5), Some(PieceKind::T));
}

#[test]
fn single_bottom_row_clear() {
    let mut b = Board::empty();
    for c in 0..WIDTH {
        if !(3..7).contains(&c) {
            b.set(HEIGHT - 1, c, Some(PieceKind::Z));
        }
    }
    b.set(HEIGHT - 2, 0, Some(PieceKind::J));
    b.set(HEIGHT - 2, 8, Some(PieceKind::L));
    let mut g = Game::with_board(b, PieceKind::I, PieceKind::T);
    // the horizontal I fills columns 3..7 of the bottom row, 18 rows down
    g.hard_drop_with(PieceKind::O);
    assert_eq!(g.lines(), 1);
    assert_eq!(g.score(), 36 + 100);
    assert_eq!(g.level(), 1);
    let after = g.board();
    for c in 0..WIDTH {
        assert_eq!(after.get(HEIGHT - 1, c), b.get(HEIGHT - 2, c));
        assert_eq!(after.get(0, c), None);
    }
    assert_eq!(occupied(&after), 2);
}

#[test]
fn four_row_clear_awards_eight_hundred() {
    let mut b = Board::empty();
    for r in HEIGHT - 4..HEIGHT {
        for c in 1..WIDTH {
            b.set(r, c, Some(PieceKind::Z));
        }
    }
    b.set(HEIGHT - 5, 2, Some(PieceKind::S));
    let mut g = Game::with_board(b, PieceKind::I, PieceKind::T);
    // stand the I upright in column 5, then slide it to column 0
    g.rotate_piece();
    for _ in 0..5 {
        assert!(g.move_piece(-1, 0));
    }
    assert_eq!(g.anchor(), (-2, 0));
    g.hard_drop_with(PieceKind::O);
    assert_eq!(g.lines(), 4);
    assert_eq!(g.score(), 32 + 800);
    assert_eq!(g.board().get(HEIGHT - 1, 2), Some(PieceKind::S));
    assert_eq!(occupied(&g.board()), 1);
}

#[test]
fn non_adjacent_full_rows_cascade() {
    let mut b = Board::empty();
    fill_row(&mut b, 19);
    b.set(18, 1, Some(PieceKind::I));
    fill_row(&mut b, 17);
    b.set(16, 9, Some(PieceKind::J));
    let n = b.clear_full_rows();
    assert_eq!(n, 2);
    assert_eq!(b.get(19, 1), Some(PieceKind::I));
    assert_eq!(b.get(18, 9), Some(PieceKind::J));
    assert_eq!(occupied(&b), 2);
    assert_eq!(b.clear_full_rows(), 0);
}

#[test]
fn full_grid_clears_to_empty() {
    let mut b = Board::empty();
    for r in 0..HEIGHT {
        fill_row(&mut b, r);
    }
    assert!(b.is_row_full(0));
    assert_eq!(b.clear_full_rows(), HEIGHT);
    assert_eq!(occupied(&b), 0);
}

#[test]
fn award_uses_level_before_clear() {
    assert_eq!(clear_award(4, 3), 2400);
    assert_eq!(clear_award(1, 1), 100);
    assert_eq!(clear_award(2, 2), 600);
    assert_eq!(clear_award(3, 1), 500);
    assert_eq!(clear_award(5, 2), 2000);
    assert_eq!(clear_award(0, 7), 0);
    assert_ne!(clear_award(4, 1), 4 * clear_award(1, 1));
}

#[test]
fn level_follows_line_total() {
    assert_eq!(level_for_lines(0), 1);
    assert_eq!(level_for_lines(9), 1);
    assert_eq!(level_for_lines(10), 2);
    assert_eq!(level_for_lines(19), 2);
    assert_eq!(level_for_lines(20), 3);
    assert_eq!(level_for_lines(29), 3);
}

#[test]
fn drop_interval_by_level() {
    assert_eq!(drop_interval_ms(1), 800);
    assert_eq!(drop_interval_ms(2), 750);
    assert_eq!(drop_interval_ms(14), 150);
    assert_eq!(drop_interval_ms(15), 100);
    assert_eq!(drop_interval_ms(40), 100);
}

#[test]
fn hard_drop_over_five_rows() {
    let mut b = Board::empty();
    // the O piece spawns on rows 1..3, columns 4..6; a block on row 8 stops it 5 rows lower
    b.set(8, 4, Some(PieceKind::I));
    let mut g = Game::with_board(b, PieceKind::O, PieceKind::T);
    assert!(g.is_valid_position(0, 5));
    assert!(!g.is_valid_position(0, 6));
    g.hard_drop_with(PieceKind::L);
    assert_eq!(g.score(), 10);
    for (r, c) in [(6, 4), (6, 5), (7, 4), (7, 5)] {
        assert_eq!(g.board().get(r, c), Some(PieceKind::O));
    }
    assert_eq!(occupied(&g.board()), 5);
    assert_eq!(g.current_piece().kind, PieceKind::T);
    assert_eq!(g.next_piece().kind, PieceKind::L);
    assert_eq!(g.anchor(), (3, 0));
}

#[test]
fn hard_drop_with_line_clear_adds_bonus() {
    let mut b = Board::empty();
    for c in 0..WIDTH {
        if c != 4 && c != 5 {
            b.set(19, c, Some(PieceKind::Z));
            b.set(18, c, Some(PieceKind::Z));
        }
    }
    let mut g = Game::with_board(b, PieceKind::O, PieceKind::T);
    g.hard_drop();
    // 17 rows down, then two rows cleared at level 1
    assert_eq!(g.score(), 34 + 300);
    assert_eq!(g.lines(), 2);
    assert_eq!(occupied(&g.board()), 0);
}

#[test]
fn soft_drop_at_floor_locks() {
    let mut g = Game::with_pieces(PieceKind::I, PieceKind::O);
    let mut moves = 0;
    while g.move_piece_with(0, 1, PieceKind::S) {
        moves += 1;
    }
    assert_eq!(moves, 18);
    assert_eq!(occupied(&g.board()), 4);
    assert_eq!(g.board().get(19, 3), Some(PieceKind::I));
    assert_eq!(g.current_piece().kind, PieceKind::O);
    assert_eq!(g.next_piece().kind, PieceKind::S);
}

#[test]
fn sideways_move_into_wall_changes_nothing() {
    let mut g = Game::with_pieces(PieceKind::I, PieceKind::O);
    for _ in 0..3 {
        assert!(g.move_piece(-1, 0));
    }
    assert!(!g.move_piece(-1, 0));
    assert_eq!(g.anchor(), (0, 0));
    assert_eq!(occupied(&g.board()), 0);
}

#[test]
fn spawn_collision_ends_the_game() {
    let mut b = Board::empty();
    b.set(2, 4, Some(PieceKind::Z));
    let g = Game::with_board(b, PieceKind::T, PieceKind::O);
    assert!(g.is_game_over());
    let ok = Game::with_board(b, PieceKind::I, PieceKind::O);
    assert!(!ok.is_game_over());
}

#[test]
fn lock_then_blocked_spawn_ends_the_game() {
    let mut b = Board::empty();
    b.set(3, 0, Some(PieceKind::Z));
    // the I piece at row 1 fits; the next O needs rows 1..3 at columns 4..6
    let mut g = Game::with_board(b, PieceKind::I, PieceKind::O);
    assert!(!g.is_game_over());
    assert!(g.move_piece(0, 1));
    g.lock_piece_with(PieceKind::T);
    assert!(g.is_game_over());
    let board = g.board();
    let score = g.score();
    g.move_piece(1, 0);
    g.move_piece(0, 1);
    g.rotate_piece();
    g.hard_drop();
    g.toggle_pause();
    assert!(!g.is_paused_now());
    assert_eq!(g.score(), score);
    for r in 0..HEIGHT {
        for c in 0..WIDTH {
            assert_eq!(g.board().get(r, c), board.get(r, c));
        }
    }
}

#[test]
fn session_start_pieces_differ() {
    for _ in 0..200 {
        let g = Game::new();
        assert_ne!(g.current_piece().kind, g.next_piece().kind);
        assert!(!g.is_game_over());
    }
}

#[test]
fn later_draws_may_repeat() {
    let mut g = Game::with_pieces(PieceKind::T, PieceKind::O);
    g.spawn_new_piece_with(PieceKind::O);
    assert_eq!(g.current_piece().kind, PieceKind::O);
    assert_eq!(g.next_piece().kind, PieceKind::O);
    let mut seen_repeat = false;
    for _ in 0..500 {
        let before = g.next_piece().kind;
        g.spawn_new_piece();
        if g.next_piece().kind == before {
            seen_repeat = true;
        }
    }
    assert!(seen_repeat);
}

#[test]
fn random_draws_cover_all_kinds() {
    let mut seen = [false; 7];
    for _ in 0..1000 {
        seen[random_kind().index()] = true;
    }
    assert!(seen.iter().all(|s| *s));
}

#[test]
fn other_kind_skips_the_given_one() {
    assert_eq!(other_kind(PieceKind::T, 0), PieceKind::I);
    assert_eq!(other_kind(PieceKind::T, 2), PieceKind::S);
    assert_eq!(other_kind(PieceKind::L, 5), PieceKind::J);
    assert_eq!(other_kind(PieceKind::I, 0), PieceKind::O);
    for i in 0..7 {
        let k = PieceKind::from_index(i);
        assert_eq!(k.index(), i);
        for r in 0..6 {
            assert_ne!(other_kind(k, r), k);
        }
    }
}

#[test]
fn intents_follow_the_session_state() {
    let mut g = Game::with_pieces(PieceKind::T, PieceKind::O);
    assert_eq!(g.apply_intent_with(Intent::Quit, PieceKind::I), Command::Quit);
    assert_eq!(g.apply_intent_with(Intent::Restart, PieceKind::I), Command::Continue);
    assert_eq!(g.apply_intent_with(Intent::MoveRight, PieceKind::I), Command::Continue);
    assert_eq!(g.anchor(), (4, 0));
    g.apply_intent_with(Intent::TogglePause, PieceKind::I);
    assert!(g.is_paused_now());
    g.apply_intent_with(Intent::MoveLeft, PieceKind::I);
    g.apply_intent_with(Intent::HardDrop, PieceKind::I);
    assert_eq!(g.anchor(), (4, 0));
    assert_eq!(g.score(), 0);
    g.apply_intent_with(Intent::TogglePause, PieceKind::I);
    assert!(!g.is_paused_now());
    g.apply_intent_with(Intent::SoftDrop, PieceKind::I);
    assert_eq!(g.anchor(), (4, 1));
    g.apply_intent_with(Intent::HardDrop, PieceKind::I);
    // from anchor row 1 the T falls 16 rows
    assert_eq!(g.score(), 32);
    assert_eq!(g.next_piece().kind, PieceKind::I);

    let mut b = Board::empty();
    b.set(2, 4, Some(PieceKind::Z));
    let mut over = Game::with_board(b, PieceKind::T, PieceKind::O);
    assert_eq!(over.apply_intent_with(Intent::Restart, PieceKind::I), Command::Restart);
    over.apply_intent_with(Intent::TogglePause, PieceKind::I);
    assert!(!over.is_paused_now());
}

#[test]
fn gravity_waits_for_the_interval() {
    let mut g = Game::with_pieces(PieceKind::T, PieceKind::O);
    assert!(!g.gravity_due(800));
    assert!(g.gravity_due(801));
    g.toggle_pause();
    assert!(!g.gravity_due(5000));
}

#[test]
fn visible_cell_overlays_the_running_piece() {
    let mut g = Game::with_pieces(PieceKind::O, PieceKind::T);
    assert_eq!(g.visible_cell(1, 4), Some(PieceKind::O));
    assert_eq!(g.visible_cell(0, 4), None);
    assert_eq!(g.board().get(1, 4), None);
    g.toggle_pause();
    assert_eq!(g.visible_cell(1, 4), None);
}

#[test]
fn move_past_the_anchor_range_is_refused() {
    let mut g = Game::with_pieces(PieceKind::T, PieceKind::O);
    assert!(g.move_piece(0, -5));
    assert_eq!(g.anchor(), (3, -5));
    assert!(!g.move_piece(0, i32::MIN));
    assert_eq!(g.anchor(), (3, -5));
    assert_eq!(occupied(&g.board()), 0);
    assert!(g.move_piece(0, i32::MIN + 5));
    assert_eq!(g.anchor(), (3, i32::MIN));
}
