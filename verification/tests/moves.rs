use chess_ai::castle::CastleRights;
use chess_ai::chessboard::{str_to_pos, Checkmate, Chessboard, MoveResult};
use chess_ai::piece::{MoveType, Piece, PieceData, PieceKind, Side};

fn put(board: &mut Chessboard, kind: PieceKind, side: Side, name: &str) {
    let pos = str_to_pos(name);
    board.insert(pos, Piece::of_kind(kind, PieceData::new(pos, side)));
}

fn at(board: &Chessboard, name: &str) -> Piece {
    *board.piece_at(str_to_pos(name)).unwrap()
}

fn kind_side(board: &Chessboard, name: &str) -> Option<(PieceKind, Side)> {
    board.piece_at(str_to_pos(name)).map(|p| (p.kind(), p.data().side))
}

fn legal(board: &Chessboard, from: &str, to: &str) -> MoveType {
    at(board, from).can_move(board, str_to_pos(to), true, Some(PieceKind::Queen))
}

fn shape(board: &Chessboard, from: &str, to: &str) -> MoveType {
    at(board, from).can_move(board, str_to_pos(to), false, None)
}

fn play(board: &mut Chessboard, from: &str, to: &str) -> MoveResult {
    let piece = at(board, from);
    board.try_move(&piece, str_to_pos(to), Some(PieceKind::Queen))
}

#[test]
fn pawns_step_from_the_start() {
    let board = Chessboard::standard();
    assert_eq!(legal(&board, "e2", "e3"), MoveType::Regular);
    assert_eq!(legal(&board, "e2", "e4"), MoveType::Doublestep);
    assert_eq!(legal(&board, "e2", "e5"), MoveType::Invalid);
    assert_eq!(legal(&board, "e2", "d3"), MoveType::Invalid);
    assert_eq!(legal(&board, "e2", "e2"), MoveType::Invalid);
    assert_eq!(legal(&board, "e2", "e1"), MoveType::Invalid);
    assert_eq!(legal(&board, "e7", "e5"), MoveType::Doublestep);
    assert_eq!(legal(&board, "e7", "e6"), MoveType::Regular);
    assert_eq!(legal(&board, "e7", "e8"), MoveType::Invalid);
}

#[test]
fn a_blocked_pawn_cannot_step() {
    let mut board = Chessboard::standard();
    put(&mut board, PieceKind::Knight, Side::Dark, "e3");
    assert_eq!(legal(&board, "e2", "e3"), MoveType::Invalid);
    assert_eq!(legal(&board, "e2", "e4"), MoveType::Invalid);
    assert_eq!(legal(&board, "d2", "e3"), MoveType::Capture);
    assert_eq!(legal(&board, "f2", "e3"), MoveType::Capture);
    put(&mut board, PieceKind::Knight, Side::Dark, "a4");
    assert_eq!(legal(&board, "a2", "a3"), MoveType::Regular);
    assert_eq!(legal(&board, "a2", "a4"), MoveType::Invalid);
}

#[test]
fn knights_jump_and_sliders_are_blocked() {
    let board = Chessboard::standard();
    assert_eq!(legal(&board, "b1", "c3"), MoveType::Regular);
    assert_eq!(legal(&board, "b1", "a3"), MoveType::Regular);
    assert_eq!(legal(&board, "b1", "d2"), MoveType::Invalid);
    assert_eq!(legal(&board, "b1", "b3"), MoveType::Invalid);
    assert_eq!(legal(&board, "a1", "a3"), MoveType::Invalid);
    assert_eq!(legal(&board, "a1", "a2"), MoveType::Invalid);
    assert_eq!(legal(&board, "c1", "e3"), MoveType::Invalid);
    assert_eq!(legal(&board, "d1", "d3"), MoveType::Invalid);
    assert_eq!(legal(&board, "e1", "e2"), MoveType::Invalid);
}

#[test]
fn sliders_move_along_open_lines() {
    let mut board = Chessboard::empty(Side::Light);
    put(&mut board, PieceKind::King, Side::Light, "a1");
    put(&mut board, PieceKind::King, Side::Dark, "h8");
    put(&mut board, PieceKind::Rook, Side::Light, "d4");
    put(&mut board, PieceKind::Bishop, Side::Light, "c2");
    put(&mut board, PieceKind::Queen, Side::Light, "f2");
    put(&mut board, PieceKind::Pawn, Side::Dark, "d7");
    put(&mut board, PieceKind::Pawn, Side::Light, "g4");
    assert_eq!(legal(&board, "d4", "d6"), MoveType::Regular);
    assert_eq!(legal(&board, "d4", "d7"), MoveType::Capture);
    assert_eq!(legal(&board, "d4", "d8"), MoveType::Invalid);
    assert_eq!(legal(&board, "d4", "a4"), MoveType::Regular);
    assert_eq!(legal(&board, "d4", "f4"), MoveType::Regular);
    assert_eq!(legal(&board, "d4", "g4"), MoveType::Invalid);
    assert_eq!(legal(&board, "d4", "h4"), MoveType::Invalid);
    assert_eq!(legal(&board, "d4", "e5"), MoveType::Invalid);
    assert_eq!(legal(&board, "d4", "d4"), MoveType::Invalid);
    assert_eq!(legal(&board, "c2", "h7"), MoveType::Regular);
    assert_eq!(legal(&board, "c2", "a4"), MoveType::Regular);
    assert_eq!(legal(&board, "c2", "c5"), MoveType::Invalid);
    assert_eq!(legal(&board, "f2", "f8"), MoveType::Regular);
    assert_eq!(legal(&board, "f2", "e3"), MoveType::Regular);
    assert_eq!(legal(&board, "f2", "b6"), MoveType::Invalid);
    assert_eq!(legal(&board, "f2", "h4"), MoveType::Regular);
    assert_eq!(legal(&board, "f2", "e4"), MoveType::Invalid);
    assert_eq!(legal(&board, "f2", "c2"), MoveType::Invalid);
    assert_eq!(legal(&board, "f2", "d2"), MoveType::Regular);
}

#[test]
fn twenty_moves_open_the_game() {
    let board = Chessboard::standard();
    let light = board.possible_moves(Side::Light);
    assert_eq!(light.len(), 20);
    assert_eq!(board.possible_moves(Side::Dark).len(), 20);
    assert_eq!((light[0].0.data().position, light[0].1), ([0, 1], [0, 2]));
    assert_eq!((light[1].0.data().position, light[1].1), ([0, 1], [0, 3]));
    assert_eq!((light[2].0.data().position, light[2].1), ([1, 0], [0, 2]));
    assert_eq!((light[3].0.data().position, light[3].1), ([1, 0], [2, 2]));
    assert_eq!((light[19].0.data().position, light[19].1), ([7, 1], [7, 3]));
    for (piece, to) in light.iter() {
        assert_eq!(piece.data().side, Side::Light);
        assert_ne!(piece.can_move(&board, *to, true, Some(PieceKind::Queen)), MoveType::Invalid);
    }
    assert_eq!(board.is_checkmated(Side::Light), Checkmate::Nothing);
    assert_eq!(board.is_checkmated(Side::Dark), Checkmate::Nothing);
}

#[test]
fn possible_moves_lists_every_legal_move() {
    let mut board = Chessboard::standard();
    play(&mut board, "e2", "e4");
    play(&mut board, "d7", "d5");
    let listed = board.possible_moves(Side::Light);
    let mut count = 0;
    for piece in board.pieces() {
        if piece.data().side != Side::Light {
            continue;
        }
        for file in 0..8u8 {
            for rank in 0..8u8 {
                let legal = piece.can_move(&board, [file, rank], true, Some(PieceKind::Queen))
                    != MoveType::Invalid;
                let found = listed.iter().any(|(p, to)| {
                    p.data().position == piece.data().position && *to == [file, rank]
                });
                assert_eq!(legal, found);
                if legal {
                    count += 1;
                }
            }
        }
    }
    assert_eq!(count, listed.len());
    assert_eq!(count, 31);
}

#[test]
fn a_double_step_can_be_taken_in_passing() {
    let mut board = Chessboard::standard();
    assert!(matches!(play(&mut board, "e2", "e4"), MoveResult::Regular(p) if p.data().position == [4, 3]));
    assert_eq!(board.en_passant, Some([4, 3]));
    assert_eq!(board.turn, Side::Dark);
    play(&mut board, "a7", "a6");
    assert_eq!(board.en_passant, None);
    play(&mut board, "e4", "e5");
    play(&mut board, "d7", "d5");
    assert_eq!(board.en_passant, Some([3, 4]));
    assert_eq!(legal(&board, "e5", "d6"), MoveType::EnPassant);
    assert_eq!(legal(&board, "e5", "f6"), MoveType::Invalid);
    let result = play(&mut board, "e5", "d6");
    match result {
        MoveResult::EnPassant { moved, captured } => {
            assert_eq!(moved.data().position, [3, 5]);
            assert_eq!(moved.kind(), PieceKind::Pawn);
            assert_eq!(captured.data().position, [3, 4]);
            assert_eq!(captured.data().side, Side::Dark);
        }
        _ => panic!("the move is en passant"),
    }
    assert!(board.piece_at([3, 4]).is_none());
    assert!(board.piece_at([4, 4]).is_none());
    assert_eq!(kind_side(&board, "d6"), Some((PieceKind::Pawn, Side::Light)));
    assert_eq!(board.en_passant, None);
    assert_eq!(board.turn, Side::Dark);
}

#[test]
fn en_passant_lapses_after_a_move() {
    let mut board = Chessboard::standard();
    play(&mut board, "e2", "e4");
    play(&mut board, "a7", "a6");
    play(&mut board, "e4", "e5");
    play(&mut board, "d7", "d5");
    play(&mut board, "a2", "a3");
    play(&mut board, "a6", "a5");
    assert_eq!(legal(&board, "e5", "d6"), MoveType::Invalid);
}

#[test]
fn a_capture_reports_both_pieces() {
    let mut board = Chessboard::standard();
    play(&mut board, "e2", "e4");
    play(&mut board, "d7", "d5");
    assert_eq!(legal(&board, "e4", "d5"), MoveType::Capture);
    match play(&mut board, "e4", "d5") {
        MoveResult::Capture { moved, captured } => {
            assert_eq!(moved.data().position, [3, 4]);
            assert_eq!(moved.data().side, Side::Light);
            assert_eq!(captured.data().side, Side::Dark);
            assert_eq!(captured.kind(), PieceKind::Pawn);
            assert_eq!(captured.data().position, [3, 4]);
        }
        _ => panic!("the move is a capture"),
    }
    assert_eq!(board.pieces().len(), 31);
    assert_eq!(board.turn, Side::Dark);
    assert_eq!(board.en_passant, None);
}

#[test]
fn the_wrong_side_cannot_move() {
    let mut board = Chessboard::standard();
    assert_eq!(play(&mut board, "e7", "e5"), MoveResult::Invalid);
    assert_eq!(board.turn, Side::Light);
    assert_eq!(kind_side(&board, "e7"), Some((PieceKind::Pawn, Side::Dark)));
    assert!(board.piece_at([4, 4]).is_none());
    assert_eq!(board.pieces().len(), 32);
}

#[test]
fn an_invalid_move_leaves_the_board() {
    let mut board = Chessboard::standard();
    assert!(matches!(play(&mut board, "a1", "a5"), MoveResult::Invalid));
    assert_eq!(board.turn, Side::Light);
    assert_eq!(kind_side(&board, "a1"), Some((PieceKind::Rook, Side::Light)));
    assert_eq!(board.castle_rights(Side::Light), CastleRights::Both);
}

#[test]
fn a_pawn_is_promoted_to_the_chosen_kind() {
    let mut board = Chessboard::empty(Side::Light);
    put(&mut board, PieceKind::King, Side::Light, "e1");
    put(&mut board, PieceKind::King, Side::Dark, "e8");
    put(&mut board, PieceKind::Pawn, Side::Light, "a7");
    put(&mut board, PieceKind::Rook, Side::Dark, "b8");
    assert_eq!(legal(&board, "a7", "a8"), MoveType::PawnPromotion);
    assert_eq!(legal(&board, "a7", "b8"), MoveType::PawnPromotionCapture);
    let mut first = board.clone();
    let pawn = at(&first, "a7");
    match first.try_move(&pawn, [0, 7], Some(PieceKind::Knight)) {
        MoveResult::PawnPromotion(p) => {
            assert_eq!(p.kind(), PieceKind::Knight);
            assert_eq!(p.data().position, [0, 7]);
            assert_eq!(p.data().side, Side::Light);
        }
        _ => panic!("the move is a promotion"),
    }
    assert_eq!(kind_side(&first, "a8"), Some((PieceKind::Knight, Side::Light)));
    assert!(first.piece_at([0, 6]).is_none());
    assert_eq!(first.turn, Side::Dark);
    match board.try_move(&pawn, [1, 7], Some(PieceKind::Queen)) {
        MoveResult::PawnPromotionCapture { moved, captured } => {
            assert_eq!(moved.kind(), PieceKind::Queen);
            assert_eq!(moved.data().position, [1, 7]);
            assert_eq!(captured.kind(), PieceKind::Rook);
        }
        _ => panic!("the move is a promotion with a capture"),
    }
    assert_eq!(kind_side(&board, "b8"), Some((PieceKind::Queen, Side::Light)));
}

fn castling_board() -> Chessboard {
    let mut board = Chessboard::standard();
    for name in ["b1", "c1", "d1", "f1", "g1", "b8", "c8", "d8", "f8", "g8"] {
        board.remove(str_to_pos(name));
    }
    board
}

#[test]
fn the_king_castles_on_either_wing() {
    let board = castling_board();
    assert_eq!(legal(&board, "e1", "g1"), MoveType::Castle);
    assert_eq!(legal(&board, "e1", "c1"), MoveType::Castle);
    assert_eq!(legal(&board, "e1", "b1"), MoveType::Invalid);
    assert_eq!(legal(&board, "e1", "h1"), MoveType::Invalid);
    assert_eq!(legal(&board, "e8", "g8"), MoveType::Castle);
    assert_eq!(legal(&board, "e8", "c8"), MoveType::Castle);
    let mut king_side = board.clone();
    match play(&mut king_side, "e1", "g1") {
        MoveResult::Castle { king, rook, rook_init_pos } => {
            assert_eq!(king.data().position, [6, 0]);
            assert_eq!(rook.data().position, [5, 0]);
            assert_eq!(rook.kind(), PieceKind::Rook);
            assert_eq!(rook_init_pos, [7, 0]);
        }
        _ => panic!("the move is castling"),
    }
    assert_eq!(kind_side(&king_side, "g1"), Some((PieceKind::King, Side::Light)));
    assert_eq!(kind_side(&king_side, "f1"), Some((PieceKind::Rook, Side::Light)));
    assert!(king_side.piece_at([7, 0]).is_none());
    assert!(king_side.piece_at([4, 0]).is_none());
    assert_eq!(king_side.castle_rights(Side::Light), CastleRights::NoRights);
    assert_eq!(king_side.castle_rights(Side::Dark), CastleRights::Both);
    assert_eq!(king_side.turn, Side::Dark);
    let mut queen_side = board.clone();
    queen_side.turn = Side::Dark;
    match play(&mut queen_side, "e8", "c8") {
        MoveResult::Castle { king, rook, rook_init_pos } => {
            assert_eq!(king.data().position, [2, 7]);
            assert_eq!(rook.data().position, [3, 7]);
            assert_eq!(rook_init_pos, [0, 7]);
        }
        _ => panic!("the move is castling"),
    }
    assert_eq!(kind_side(&queen_side, "c8"), Some((PieceKind::King, Side::Dark)));
    assert_eq!(kind_side(&queen_side, "d8"), Some((PieceKind::Rook, Side::Dark)));
    assert!(queen_side.piece_at([0, 7]).is_none());
    assert_eq!(queen_side.castle_rights(Side::Dark), CastleRights::NoRights);
}

#[test]
fn castling_needs_a_free_and_safe_way() {
    let mut blocked = castling_board();
    put(&mut blocked, PieceKind::Knight, Side::Light, "g1");
    put(&mut blocked, PieceKind::Knight, Side::Light, "b1");
    assert_eq!(legal(&blocked, "e1", "g1"), MoveType::Invalid);
    assert_eq!(legal(&blocked, "e1", "c1"), MoveType::Invalid);

    let mut through_check = castling_board();
    through_check.remove(str_to_pos("f2"));
    put(&mut through_check, PieceKind::Rook, Side::Dark, "f6");
    assert_eq!(legal(&through_check, "e1", "g1"), MoveType::Invalid);
    assert_eq!(legal(&through_check, "e1", "c1"), MoveType::Castle);

    let mut in_check = castling_board();
    in_check.remove(str_to_pos("e2"));
    put(&mut in_check, PieceKind::Rook, Side::Dark, "e6");
    assert_eq!(legal(&in_check, "e1", "g1"), MoveType::Invalid);
    assert_eq!(legal(&in_check, "e1", "c1"), MoveType::Invalid);

    let mut into_check = castling_board();
    into_check.remove(str_to_pos("g2"));
    put(&mut into_check, PieceKind::Rook, Side::Dark, "g6");
    assert_eq!(shape(&into_check, "e1", "g1"), MoveType::Castle);
    assert_eq!(legal(&into_check, "e1", "g1"), MoveType::Invalid);
}

#[test]
fn castling_needs_the_right_and_a_piece_on_the_rook_square() {
    let mut board = castling_board();
    board.remove(str_to_pos("h1"));
    assert_eq!(legal(&board, "e1", "g1"), MoveType::Invalid);
    assert_eq!(legal(&board, "e1", "c1"), MoveType::Castle);

    let mut moved = castling_board();
    play(&mut moved, "h1", "g1");
    assert_eq!(moved.castle_rights(Side::Light), CastleRights::QueenSide);
    play(&mut moved, "a7", "a6");
    play(&mut moved, "g1", "h1");
    play(&mut moved, "a6", "a5");
    assert_eq!(legal(&moved, "e1", "g1"), MoveType::Invalid);
    assert_eq!(legal(&moved, "e1", "c1"), MoveType::Castle);
    play(&mut moved, "e1", "d1");
    assert_eq!(moved.castle_rights(Side::Light), CastleRights::NoRights);
    play(&mut moved, "a8", "a6");
    assert_eq!(moved.castle_rights(Side::Dark), CastleRights::KingSide);
}

#[test]
fn a_pinned_piece_stays() {
    let mut board = Chessboard::empty(Side::Light);
    put(&mut board, PieceKind::King, Side::Light, "e1");
    put(&mut board, PieceKind::Bishop, Side::Light, "e2");
    put(&mut board, PieceKind::Rook, Side::Dark, "e8");
    put(&mut board, PieceKind::King, Side::Dark, "a8");
    assert_eq!(shape(&board, "e2", "d3"), MoveType::Regular);
    assert_eq!(legal(&board, "e2", "d3"), MoveType::Invalid);
    assert_eq!(legal(&board, "e1", "d1"), MoveType::Regular);
    assert!(!board.is_side_in_check(Side::Light));
    board.remove(str_to_pos("e2"));
    assert!(board.is_side_in_check(Side::Light));
    assert!(!board.is_side_in_check(Side::Dark));
    assert!(board.is_king_in_check(&at(&board, "e1")));
    assert_eq!(legal(&board, "e1", "e2"), MoveType::Invalid);
    assert_eq!(legal(&board, "e1", "d2"), MoveType::Regular);
}

#[test]
fn a_side_without_a_king_is_not_in_check() {
    let mut board = Chessboard::empty(Side::Light);
    put(&mut board, PieceKind::Rook, Side::Dark, "e8");
    put(&mut board, PieceKind::Pawn, Side::Light, "e2");
    assert!(!board.is_side_in_check(Side::Light));
    assert!(!board.is_side_in_check(Side::Dark));
    assert_eq!(legal(&board, "e2", "e3"), MoveType::Regular);
}

#[test]
fn pawns_attack_diagonally_only() {
    let mut board = Chessboard::empty(Side::Dark);
    put(&mut board, PieceKind::King, Side::Dark, "e5");
    put(&mut board, PieceKind::Pawn, Side::Light, "e4");
    put(&mut board, PieceKind::King, Side::Light, "a1");
    assert!(!board.is_side_in_check(Side::Dark));
    put(&mut board, PieceKind::Pawn, Side::Light, "d4");
    assert!(board.is_side_in_check(Side::Dark));
}

#[test]
fn the_fools_mate_is_a_mate() {
    let mut board = Chessboard::standard();
    play(&mut board, "f2", "f3");
    play(&mut board, "e7", "e5");
    play(&mut board, "g2", "g4");
    assert_eq!(board.is_checkmated(Side::Light), Checkmate::Nothing);
    assert!(matches!(play(&mut board, "d8", "h4"), MoveResult::Regular(_)));
    assert!(board.is_side_in_check(Side::Light));
    assert_eq!(board.is_checkmated(Side::Light), Checkmate::Checkmate);
    assert_eq!(board.possible_moves(Side::Light).len(), 0);
    assert_eq!(board.is_checkmated(Side::Dark), Checkmate::Nothing);
}

#[test]
fn a_king_with_no_square_and_no_check_is_stalemated() {
    let mut board = Chessboard::empty(Side::Dark);
    put(&mut board, PieceKind::King, Side::Dark, "a8");
    put(&mut board, PieceKind::Queen, Side::Light, "b6");
    put(&mut board, PieceKind::King, Side::Light, "h1");
    assert!(!board.is_side_in_check(Side::Dark));
    assert_eq!(board.is_checkmated(Side::Dark), Checkmate::Stalemate);
    assert_eq!(board.possible_moves(Side::Dark).len(), 0);
    assert_eq!(board.is_checkmated(Side::Light), Checkmate::Nothing);
}

#[test]
fn apply_move_carries_out_what_it_is_told() {
    let mut board = Chessboard::standard();
    let knight = at(&board, "b1");
    let result = board.apply_move(knight, MoveType::Regular, [2, 2], None);
    assert!(matches!(result, MoveResult::Regular(p) if p.data().position == [2, 2] && p.kind() == PieceKind::Knight));
    assert!(board.piece_at([1, 0]).is_none());
    assert_eq!(board.turn, Side::Dark);
    let pawn = at(&board, "e7");
    assert!(matches!(board.apply_move(pawn, MoveType::Invalid, [4, 4], None), MoveResult::Invalid));
    assert_eq!(kind_side(&board, "e7"), Some((PieceKind::Pawn, Side::Dark)));
    assert_eq!(board.turn, Side::Dark);
    let result = board.apply_move(pawn, MoveType::Doublestep, [4, 4], None);
    assert!(matches!(result, MoveResult::Regular(p) if p.data().position == [4, 4]));
    assert_eq!(board.en_passant, Some([4, 4]));
    assert_eq!(board.turn, Side::Light);
}

#[test]
fn shape_of_move_leaves_castling_out() {
    let board = castling_board();
    let king = at(&board, "e1");
    assert_eq!(king.shape_of_move(&board, [6, 0]), MoveType::Invalid);
    assert_eq!(king.shape_of_move(&board, [5, 0]), MoveType::Regular);
    assert_eq!(king.shape_of_move(&board, [4, 1]), MoveType::Invalid);
}

#[test]
fn every_listed_move_is_made() {
    let mut middle = Chessboard::standard();
    play(&mut middle, "e2", "e4");
    play(&mut middle, "d7", "d5");
    play(&mut middle, "e4", "e5");
    play(&mut middle, "f7", "f5");
    for board in [Chessboard::standard(), castling_board(), middle] {
        let moves = board.possible_moves(board.turn);
        assert!(!moves.is_empty());
        for (piece, to) in moves {
            let expected = piece.can_move(&board, to, true, Some(PieceKind::Queen));
            let mut after = board.clone();
            let result = after.try_move(&piece, to, Some(PieceKind::Queen));
            assert!(!matches!(result, MoveResult::Invalid));
            assert_eq!(after.turn, board.turn.other());
            assert!(!after.is_side_in_check(board.turn));
            assert!(after.is_well_formed());
            let kind = match result {
                MoveResult::Invalid => MoveType::Invalid,
                MoveResult::Regular(_) => {
                    if expected == MoveType::Doublestep {
                        MoveType::Doublestep
                    } else {
                        MoveType::Regular
                    }
                }
                MoveResult::Capture { .. } => MoveType::Capture,
                MoveResult::Castle { .. } => MoveType::Castle,
                MoveResult::EnPassant { .. } => MoveType::EnPassant,
                MoveResult::PawnPromotion(_) => MoveType::PawnPromotion,
                MoveResult::PawnPromotionCapture { .. } => MoveType::PawnPromotionCapture,
            };
            assert_eq!(kind, expected);
        }
    }
}

#[test]
fn castling_is_listed_among_the_moves() {
    let board = castling_board();
    let moves = board.possible_moves(Side::Light);
    let castles: Vec<[u8; 2]> = moves
        .iter()
        .filter(|(p, to)| p.kind() == PieceKind::King && (to[0] == 6 || to[0] == 2) && to[1] == 0)
        .map(|(_, to)| *to)
        .collect();
    assert_eq!(castles, vec![[2, 0], [6, 0]]);
}
