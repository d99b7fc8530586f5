use chess_ai::ai::{
    evaluate_for_mover, get_best_move, heuristic_score, negamax_score, piece_value,
    principal_variation, score_root_move, select_best, side_sign, SimpleMove,
};
use chess_ai::chessboard::{str_to_pos, Checkmate, Chessboard};
use chess_ai::piece::{Piece, PieceData, PieceKind, Side};
use chess_ai::table::{Flag, TTEntry, TTMove, TranspositionTable, SCORE_LIMIT};
use chess_ai::zobrist::{piece_id, ZobristTable};

fn put(board: &mut Chessboard, kind: PieceKind, side: Side, name: &str) {
    let pos = str_to_pos(name);
    board.insert(pos, Piece::of_kind(kind, PieceData::new(pos, side)));
}

fn play(board: &mut Chessboard, from: &str, to: &str) {
    let piece = *board.piece_at(str_to_pos(from)).unwrap();
    board.try_move(&piece, str_to_pos(to), Some(PieceKind::Queen));
}

fn back_rank_mate() -> Chessboard {
    let mut board = Chessboard::empty(Side::Light);
    put(&mut board, PieceKind::King, Side::Light, "g1");
    put(&mut board, PieceKind::Rook, Side::Light, "a1");
    put(&mut board, PieceKind::Pawn, Side::Light, "f2");
    put(&mut board, PieceKind::Pawn, Side::Light, "g2");
    put(&mut board, PieceKind::Pawn, Side::Light, "h2");
    put(&mut board, PieceKind::King, Side::Dark, "g8");
    put(&mut board, PieceKind::Pawn, Side::Dark, "f7");
    put(&mut board, PieceKind::Pawn, Side::Dark, "g7");
    put(&mut board, PieceKind::Pawn, Side::Dark, "h7");
    board
}

fn stalemate() -> Chessboard {
    let mut board = Chessboard::empty(Side::Dark);
    put(&mut board, PieceKind::King, Side::Dark, "a8");
    put(&mut board, PieceKind::Queen, Side::Light, "b6");
    put(&mut board, PieceKind::King, Side::Light, "h1");
    board
}

/// The score of the position for the side to move by a search of every line,
/// without a table and without a window.
fn exhaustive(board: &Chessboard, depth: u8) -> i32 {
    if depth == 0 {
        return evaluate_for_mover(board);
    }
    let moves = board.possible_moves(board.turn);
    if moves.is_empty() {
        return evaluate_for_mover(board);
    }
    let mut best = i32::MIN;
    for (piece, to) in moves {
        let mut next = board.clone();
        next.try_move(&piece, to, Some(PieceKind::Queen));
        let score = -exhaustive(&next, depth - 1);
        if score > best {
            best = score;
        }
    }
    best
}

fn exhaustive_scores(board: &Chessboard, depth: u8) -> Vec<i32> {
    let mut scores = Vec::new();
    for (piece, to) in board.possible_moves(board.turn) {
        let mut next = board.clone();
        next.try_move(&piece, to, Some(PieceKind::Queen));
        scores.push(-exhaustive(&next, depth - 1));
    }
    scores
}

fn first_largest(scores: &[i32]) -> usize {
    let mut best = 0;
    for i in 1..scores.len() {
        if scores[i] > scores[best] {
            best = i;
        }
    }
    best
}

fn same_move(a: (Piece, [u8; 2]), b: (Piece, [u8; 2])) -> bool {
    a.0.kind() == b.0.kind()
        && a.0.data().position == b.0.data().position
        && a.0.data().side == b.0.data().side
        && a.1 == b.1
}

#[test]
fn signs_and_values() {
    assert_eq!(side_sign(Side::Light), 1);
    assert_eq!(side_sign(Side::Dark), -1);
    let data = PieceData::new([0, 0], Side::Light);
    assert_eq!(piece_value(&Piece::Pawn(data)), 1);
    assert_eq!(piece_value(&Piece::Knight(data)), 3);
    assert_eq!(piece_value(&Piece::Bishop(data)), 3);
    assert_eq!(piece_value(&Piece::Rook(data)), 5);
    assert_eq!(piece_value(&Piece::Queen(data)), 9);
    assert_eq!(piece_value(&Piece::King(data)), 0);
}

#[test]
fn the_evaluation_counts_material() {
    let board = Chessboard::standard();
    assert_eq!(heuristic_score(&board), 0);
    assert_eq!(evaluate_for_mover(&board), 0);
    let mut board = Chessboard::standard();
    board.remove(str_to_pos("b8"));
    assert_eq!(heuristic_score(&board), 3);
    board.remove(str_to_pos("d1"));
    assert_eq!(heuristic_score(&board), -6);
    assert_eq!(evaluate_for_mover(&board), -6);
    board.remove(str_to_pos("a7"));
    board.remove(str_to_pos("h8"));
    board.remove(str_to_pos("c8"));
    assert_eq!(heuristic_score(&board), 3);
}

#[test]
fn the_evaluation_is_zero_sum() {
    let mut light = Chessboard::standard();
    light.remove(str_to_pos("b8"));
    light.remove(str_to_pos("a2"));
    let mut dark = light.clone();
    dark.turn = Side::Dark;
    assert_eq!(heuristic_score(&light), 2);
    assert_eq!(heuristic_score(&dark), 2);
    assert_eq!(evaluate_for_mover(&light), 2);
    assert_eq!(evaluate_for_mover(&dark), -2);
    assert_eq!(evaluate_for_mover(&dark), -evaluate_for_mover(&light));
    let balanced = Chessboard::standard();
    let mut turned = balanced.clone();
    turned.turn = Side::Dark;
    assert_eq!(evaluate_for_mover(&turned), -evaluate_for_mover(&balanced));
}

#[test]
fn a_check_counts_for_the_side_that_gives_it() {
    let mut board = Chessboard::empty(Side::Light);
    put(&mut board, PieceKind::King, Side::Light, "e1");
    put(&mut board, PieceKind::Rook, Side::Dark, "e8");
    put(&mut board, PieceKind::King, Side::Dark, "a8");
    assert_eq!(board.is_checkmated(Side::Light), Checkmate::Nothing);
    assert_eq!(heuristic_score(&board), -7);
    assert_eq!(evaluate_for_mover(&board), -7);
    let mut board = Chessboard::empty(Side::Dark);
    put(&mut board, PieceKind::King, Side::Light, "e1");
    put(&mut board, PieceKind::Queen, Side::Light, "a1");
    put(&mut board, PieceKind::King, Side::Dark, "a8");
    assert!(board.is_side_in_check(Side::Dark));
    assert_eq!(heuristic_score(&board), 11);
    assert_eq!(evaluate_for_mover(&board), -11);
}

#[test]
fn a_mate_counts_a_thousand() {
    let mut board = Chessboard::standard();
    play(&mut board, "f2", "f3");
    play(&mut board, "e7", "e5");
    play(&mut board, "g2", "g4");
    play(&mut board, "d8", "h4");
    assert_eq!(heuristic_score(&board), -1000);
    assert_eq!(evaluate_for_mover(&board), -1000);
    let mut board = back_rank_mate();
    play(&mut board, "a1", "a8");
    assert_eq!(board.is_checkmated(Side::Dark), Checkmate::Checkmate);
    assert_eq!(heuristic_score(&board), 1000);
    assert_eq!(evaluate_for_mover(&board), -1000);
}

#[test]
fn a_stalemate_counts_nothing() {
    let board = stalemate();
    assert_eq!(board.is_checkmated(Side::Dark), Checkmate::Stalemate);
    assert_eq!(heuristic_score(&board), 0);
    assert_eq!(evaluate_for_mover(&board), 0);
    let keys = ZobristTable::random();
    for depth in 0..4u8 {
        let mut tt = TranspositionTable::new(64);
        assert_eq!(negamax_score(&board, depth, -SCORE_LIMIT, SCORE_LIMIT, &keys, &mut tt), 0);
        assert!(tt.get(&board, &keys).is_none());
    }
    // with the other side to move the queen counts
    let mut light = board.clone();
    light.turn = Side::Light;
    assert_eq!(heuristic_score(&light), 9);
}

#[test]
fn select_best_takes_the_first_of_the_largest() {
    assert_eq!(select_best(&vec![1, 5, 5, 2]), 1);
    assert_eq!(select_best(&vec![7]), 0);
    assert_eq!(select_best(&vec![0, 0, 0]), 0);
    assert_eq!(select_best(&vec![-3, -2, -1]), 2);
    assert_eq!(select_best(&vec![-1, -2, -3]), 0);
    assert_eq!(select_best(&vec![i32::MIN, i32::MAX, i32::MAX]), 1);
}

#[test]
fn depth_one_scores_are_the_evaluations_after_the_move() {
    let keys = ZobristTable::random();
    let board = Chessboard::standard();
    let moves = board.possible_moves(board.turn);
    assert_eq!(moves.len(), 20);
    for i in 0..moves.len() {
        let mut tt = TranspositionTable::new(1024);
        let score = score_root_move(&board, &moves, i, 1, &keys, &mut tt);
        let mut next = board.clone();
        next.try_move(&moves[i].0, moves[i].1, Some(PieceKind::Queen));
        assert_eq!(score, -evaluate_for_mover(&next));
        assert_eq!(score, heuristic_score(&next));
        assert_eq!(score, 0);
        assert!(tt.get(&next, &keys).is_none());
    }
    let mut tt = TranspositionTable::new(1024);
    let best = get_best_move(&board, 1, &keys, &mut tt);
    assert!(moves.iter().any(|m| same_move(*m, best)));
    // every move scores alike, so the first one is taken
    assert!(same_move(best, moves[0]));
    assert_eq!((best.0.data().position, best.1), ([0, 1], [0, 2]));
}

#[test]
fn depth_one_weighs_a_check_above_a_pawn() {
    let keys = ZobristTable::random();
    let mut board = Chessboard::standard();
    play(&mut board, "e2", "e4");
    play(&mut board, "d7", "d5");
    let moves = board.possible_moves(Side::Light);
    let capture = moves.iter().position(|m| m.0.data().position == [4, 3] && m.1 == [3, 4]).unwrap();
    let check = moves.iter().position(|m| m.0.data().position == [5, 0] && m.1 == [1, 4]).unwrap();
    let mut tt = TranspositionTable::new(1024);
    assert_eq!(score_root_move(&board, &moves, capture, 1, &keys, &mut tt), 1);
    assert_eq!(score_root_move(&board, &moves, check, 1, &keys, &mut tt), 2);
    let mut tt = TranspositionTable::new(1024);
    let best = get_best_move(&board, 1, &keys, &mut tt);
    assert_eq!((best.0.data().position, best.1), ([5, 0], [1, 4]));
    assert_eq!(best.0.kind(), PieceKind::Bishop);
}

#[test]
fn the_mating_move_is_found() {
    let keys = ZobristTable::random();
    let board = back_rank_mate();
    for depth in 1..4u8 {
        let mut tt = TranspositionTable::new(4096);
        let best = get_best_move(&board, depth, &keys, &mut tt);
        assert_eq!(best.0.kind(), PieceKind::Rook);
        assert_eq!((best.0.data().position, best.1), ([0, 0], [0, 7]));
        let mut after = board.clone();
        after.try_move(&best.0, best.1, Some(PieceKind::Queen));
        assert_eq!(after.is_checkmated(Side::Dark), Checkmate::Checkmate);
        assert_eq!(heuristic_score(&after), 1000);
    }
    let moves = board.possible_moves(Side::Light);
    let mating = moves
        .iter()
        .position(|m| m.0.data().position == [0, 0] && m.1 == [0, 7])
        .unwrap();
    let mut tt = TranspositionTable::new(4096);
    assert_eq!(score_root_move(&board, &moves, mating, 2, &keys, &mut tt), 1000);
}

#[test]
fn pruning_does_not_change_the_move() {
    let keys = ZobristTable::random();
    let mut open = Chessboard::standard();
    play(&mut open, "e2", "e4");
    play(&mut open, "d7", "d5");
    play(&mut open, "b1", "c3");
    play(&mut open, "d5", "e4");
    let mut endgame = Chessboard::empty(Side::Dark);
    put(&mut endgame, PieceKind::King, Side::Light, "e1");
    put(&mut endgame, PieceKind::Rook, Side::Light, "d4");
    put(&mut endgame, PieceKind::Pawn, Side::Light, "b5");
    put(&mut endgame, PieceKind::King, Side::Dark, "e8");
    put(&mut endgame, PieceKind::Knight, Side::Dark, "c6");
    put(&mut endgame, PieceKind::Bishop, Side::Dark, "g7");
    put(&mut endgame, PieceKind::Pawn, Side::Dark, "a7");
    for board in [Chessboard::standard(), open, endgame, back_rank_mate()] {
        for depth in 1..3u8 {
            let moves = board.possible_moves(board.turn);
            let scores = exhaustive_scores(&board, depth);
            let expected = moves[first_largest(&scores)];
            let mut tt = TranspositionTable::new(1 << 14);
            let best = get_best_move(&board, depth, &keys, &mut tt);
            assert!(same_move(best, expected));
            for i in 0..moves.len() {
                let mut fresh = TranspositionTable::new(1 << 14);
                assert_eq!(score_root_move(&board, &moves, i, depth, &keys, &mut fresh), scores[i]);
            }
            let mut fresh = TranspositionTable::new(1 << 14);
            assert_eq!(
                negamax_score(&board, depth, -SCORE_LIMIT, SCORE_LIMIT, &keys, &mut fresh),
                exhaustive(&board, depth)
            );
        }
    }
}

#[test]
fn an_exact_entry_answers_at_once() {
    let keys = ZobristTable::random();
    let board = Chessboard::standard();
    let mut tt = TranspositionTable::new(64);
    let mut e = TTEntry::new(&board, &keys);
    e.score = 42;
    tt.store(e);
    assert_eq!(negamax_score(&board, 3, -SCORE_LIMIT, SCORE_LIMIT, &keys, &mut tt), 42);
    assert_eq!(negamax_score(&board, 0, -5, 5, &keys, &mut tt), 42);
    let found = tt.get(&board, &keys).unwrap();
    assert_eq!((found.score, found.depth, found.flag), (42, 0, Flag::Exact));
}

#[test]
fn a_bound_that_closes_the_window_answers_at_once() {
    let keys = ZobristTable::random();
    let board = Chessboard::standard();
    let mut tt = TranspositionTable::new(64);
    let mut lower = TTEntry::new(&board, &keys);
    lower.score = 50;
    lower.flag = Flag::Beta;
    lower.depth = 9;
    tt.store(lower);
    assert_eq!(negamax_score(&board, 1, -100, 40, &keys, &mut tt), 50);
    assert_eq!(tt.get(&board, &keys).unwrap().depth, 9);
    // the window stays open: the moves are searched and the result is stored
    assert_eq!(negamax_score(&board, 1, -100, 100, &keys, &mut tt), 0);
    let found = tt.get(&board, &keys).unwrap();
    assert_eq!((found.score, found.depth, found.flag), (0, 1, Flag::Exact));

    let mut tt = TranspositionTable::new(64);
    let mut upper = TTEntry::new(&board, &keys);
    upper.score = -50;
    upper.flag = Flag::Alpha;
    tt.store(upper);
    assert_eq!(negamax_score(&board, 1, -40, 100, &keys, &mut tt), -50);
    assert_eq!(negamax_score(&board, 1, -50, 100, &keys, &mut tt), -50);
    assert_eq!(tt.get(&board, &keys).unwrap().flag, Flag::Alpha);
    assert_eq!(negamax_score(&board, 1, -60, 100, &keys, &mut tt), 0);
    // beta was lowered to -50, so the first move closed the window; the score
    // lies inside the window that came in
    let found = tt.get(&board, &keys).unwrap();
    assert_eq!((found.score, found.depth, found.flag), (0, 1, Flag::Exact));
}

#[test]
fn the_result_is_stored_with_its_flag() {
    let keys = ZobristTable::random();
    let board = Chessboard::standard();
    let first = TTMove { piece_id: 0, start_pos: [0, 1], end_pos: [0, 2] };

    let mut tt = TranspositionTable::new(1024);
    assert_eq!(negamax_score(&board, 1, -SCORE_LIMIT, SCORE_LIMIT, &keys, &mut tt), 0);
    let found = *tt.get(&board, &keys).unwrap();
    assert_eq!((found.score, found.depth, found.flag, found.age), (0, 1, Flag::Exact, 0));
    assert_eq!(found.hash, board.zobrist_hash(&keys));
    let m = found.best_move.unwrap();
    assert_eq!((m.piece_id, m.start_pos, m.end_pos), (first.piece_id, first.start_pos, first.end_pos));

    let mut tt = TranspositionTable::new(1024);
    assert_eq!(negamax_score(&board, 1, 5, 10, &keys, &mut tt), 0);
    assert_eq!(tt.get(&board, &keys).unwrap().flag, Flag::Alpha);

    let mut tt = TranspositionTable::new(1024);
    assert_eq!(negamax_score(&board, 1, -10, -5, &keys, &mut tt), 0);
    let found = *tt.get(&board, &keys).unwrap();
    assert_eq!(found.flag, Flag::Beta);
    assert_eq!(found.best_move.unwrap().end_pos, [0, 2]);

    let mut tt = TranspositionTable::new(1024);
    assert_eq!(negamax_score(&board, 0, -SCORE_LIMIT, SCORE_LIMIT, &keys, &mut tt), 0);
    assert!(tt.get(&board, &keys).is_none());
}

#[test]
fn the_search_fills_the_table() {
    let keys = ZobristTable::random();
    let board = Chessboard::standard();
    let mut tt = TranspositionTable::new(1 << 12);
    get_best_move(&board, 2, &keys, &mut tt);
    for (piece, to) in board.possible_moves(Side::Light) {
        let mut next = board.clone();
        next.try_move(&piece, to, Some(PieceKind::Queen));
        let found = tt.get(&next, &keys).unwrap();
        assert_eq!(found.depth, 1);
        assert_eq!(found.score, 0);
        assert!(found.best_move.is_some());
    }
}

#[test]
fn the_principal_variation_follows_the_best_moves() {
    let keys = ZobristTable::random();
    let mut tt = TranspositionTable::new(256);
    let start = 0x1234_5678_9ABC_DEF0_u64;
    let m1 = TTMove { piece_id: 0, start_pos: [4, 1], end_pos: [4, 3] };
    let m2 = TTMove { piece_id: 6, start_pos: [4, 6], end_pos: [4, 4] };
    let second = Chessboard::update_hash(start, &m1, &keys);
    let third = Chessboard::update_hash(second, &m2, &keys);
    tt.store(TTEntry { hash: start, depth: 3, score: 0, flag: Flag::Exact, best_move: Some(m1), age: 0 });
    tt.store(TTEntry { hash: second, depth: 2, score: 0, flag: Flag::Exact, best_move: Some(m2), age: 0 });
    tt.store(TTEntry { hash: third, depth: 1, score: 0, flag: Flag::Exact, best_move: None, age: 0 });
    let pv = principal_variation(&tt, &keys, start, 10);
    assert_eq!(pv.len(), 2);
    assert_eq!((pv[0].piece_id, pv[0].start_pos, pv[0].end_pos), (0, [4, 1], [4, 3]));
    assert_eq!((pv[1].piece_id, pv[1].start_pos, pv[1].end_pos), (6, [4, 6], [4, 4]));
    assert_eq!(principal_variation(&tt, &keys, start, 1).len(), 1);
    assert_eq!(principal_variation(&tt, &keys, start, 0).len(), 0);
    assert_eq!(principal_variation(&tt, &keys, second, 10).len(), 1);
    assert_eq!(principal_variation(&tt, &keys, third, 10).len(), 0);
    assert_eq!(principal_variation(&tt, &keys, 99, 10).len(), 0);
}

#[test]
fn a_principal_variation_that_turns_in_a_circle_is_cut() {
    let keys = ZobristTable::random();
    let mut tt = TranspositionTable::new(256);
    let start = 77u64;
    let there = TTMove { piece_id: 2, start_pos: [1, 0], end_pos: [2, 2] };
    let back = TTMove { piece_id: 2, start_pos: [2, 2], end_pos: [1, 0] };
    let second = Chessboard::update_hash(start, &there, &keys);
    assert_eq!(Chessboard::update_hash(second, &back, &keys), start);
    tt.store(TTEntry { hash: start, depth: 3, score: 0, flag: Flag::Exact, best_move: Some(there), age: 0 });
    tt.store(TTEntry { hash: second, depth: 2, score: 0, flag: Flag::Exact, best_move: Some(back), age: 0 });
    let pv = principal_variation(&tt, &keys, start, 5);
    assert_eq!(pv.len(), 5);
    assert_eq!(pv[0].end_pos, [2, 2]);
    assert_eq!(pv[1].end_pos, [1, 0]);
    assert_eq!(pv[4].end_pos, [2, 2]);
}

#[test]
fn the_search_leaves_a_principal_variation() {
    let keys = ZobristTable::random();
    let board = back_rank_mate();
    let mut tt = TranspositionTable::new(1 << 12);
    assert_eq!(negamax_score(&board, 2, -SCORE_LIMIT, SCORE_LIMIT, &keys, &mut tt), 1000);
    let pv = principal_variation(&tt, &keys, board.zobrist_hash(&keys), 4);
    assert_eq!(pv.len(), 1);
    let rook = *board.piece_at([0, 0]).unwrap();
    assert_eq!((pv[0].piece_id, pv[0].start_pos, pv[0].end_pos), (piece_id(&rook), [0, 0], [0, 7]));
}

#[test]
fn moves_are_written_short() {
    let at = |kind, pos| SimpleMove((Piece::of_kind(kind, PieceData::new([0, 0], Side::Light)), pos));
    assert_eq!(at(PieceKind::Knight, [2, 2]).notation(), "Nc3");
    assert_eq!(at(PieceKind::Pawn, [4, 3]).notation(), "e4");
    assert_eq!(at(PieceKind::King, [6, 0]).notation(), "Kg1");
    assert_eq!(at(PieceKind::Queen, [7, 7]).notation(), "Qh8");
    assert_eq!(at(PieceKind::Rook, [0, 0]).notation(), "Ra1");
    assert_eq!(at(PieceKind::Bishop, [1, 4]).notation(), "Bb5");
    assert_eq!(at(PieceKind::Queen, [25, 9]).notation(), "Qz10");
    assert_eq!(at(PieceKind::Pawn, [0, 254]).notation(), "a255");
    assert_eq!(at(PieceKind::Pawn, [3, 99]).notation(), "d100");
    assert_eq!(at(PieceKind::Pawn, [158, 0]).notation(), "\u{ff}1");
}
