//! The rules of movement, stated over the model of the board.

use crate::castle::CastleRights;
use crate::chessboard::{on_board_at, square_index, BoardState, MoveResult};
use crate::piece::{spec_direction, spec_start_rank, MoveType, Piece, PieceKind, Side};
use vstd::prelude::*;

verus! {

/// The sign of `d`: -1, 0 or 1.
pub open spec fn sign(d: int) -> int {
    if d < 0 {
        -1
    } else if d > 0 {
        1
    } else {
        0
    }
}

/// The absolute value of `d`.
pub open spec fn abs(d: int) -> int {
    if d < 0 {
        -d
    } else {
        d
    }
}

/// The number of steps of a straight or diagonal walk over `(dx, dy)`.
pub open spec fn walk_len(dx: int, dy: int) -> int {
    if abs(dx) >= abs(dy) {
        abs(dx)
    } else {
        abs(dy)
    }
}

/// Whether a move of this type takes the piece that stands on the square
/// moved to.
pub open spec fn takes_target(t: MoveType) -> bool {
    t == MoveType::Capture || t == MoveType::PawnPromotionCapture
}

/// Whether a move of this type turns a pawn into another piece.
pub open spec fn promotes(t: MoveType) -> bool {
    t == MoveType::PawnPromotion || t == MoveType::PawnPromotionCapture
}

/// What a piece of `side` does by stepping on `(file, rank)`: nothing where
/// its own side stands, a capture where the other side stands, a plain move
/// on an empty square.
pub open spec fn landing(b: BoardState, side: Side, file: int, rank: int) -> MoveType {
    match b.at(file, rank) {
        Some(p) => if p.side() == side {
            MoveType::Invalid
        } else {
            MoveType::Capture
        },
        None => MoveType::Regular,
    }
}

/// Whether the squares strictly between `(file, rank)` and the square
/// `(dx, dy)` away from it are empty.
pub open spec fn path_clear(b: BoardState, file: int, rank: int, dx: int, dy: int) -> bool {
    forall|k: int|
        1 <= k < walk_len(dx, dy) ==> (#[trigger] b.at(
            file + k * sign(dx),
            rank + k * sign(dy),
        )).is_none()
}

/// A move along a rank, a file or a diagonal: over empty squares only, to a
/// square that is empty or holds a piece of the other side.
pub open spec fn slide(b: BoardState, piece: Piece, ex: int, ey: int) -> MoveType {
    let dx = ex - piece.file();
    let dy = ey - piece.rank();
    if path_clear(b, piece.file(), piece.rank(), dx, dy) {
        landing(b, piece.side(), ex, ey)
    } else {
        MoveType::Invalid
    }
}

/// The move of a pawn to `(ex, ey)`: one rank ahead on an empty square, a
/// promotion where that is the last rank; two ranks ahead from its start
/// over two empty squares; one square ahead to either side where a piece of
/// the other side stands, or where the pawn that has just advanced two ranks,
/// still on the board, stands beside it on that file.
pub open spec fn pawn_move(b: BoardState, piece: Piece, ex: int, ey: int) -> MoveType {
    let side = piece.side();
    let dx = ex - piece.file();
    let dy = ey - piece.rank();
    let dir = spec_direction(side) as int;
    let last_rank = side.spec_other().spec_back_rank() as int;
    if dx == 0 && dy == dir && b.at(ex, ey).is_none() {
        if ey == last_rank {
            MoveType::PawnPromotion
        } else {
            MoveType::Regular
        }
    } else if piece.rank() == spec_start_rank(side) && dx == 0 && abs(dy) == 2 && b.at(
        piece.file(),
        piece.rank() + dir,
    ).is_none() && b.at(ex, ey).is_none() {
        MoveType::Doublestep
    } else if abs(dx) == 1 && dy == dir {
        match b.at(ex, ey) {
            Some(target) => if target.side() != side {
                if ey == last_rank {
                    MoveType::PawnPromotionCapture
                } else {
                    MoveType::Capture
                }
            } else {
                MoveType::Invalid
            },
            None => match b.en_passant {
                Some(ep) => if ep[0] == ex && ep[1] + dir == ey && b.at(
                    ep[0] as int,
                    ep[1] as int,
                ).is_some() {
                    MoveType::EnPassant
                } else {
                    MoveType::Invalid
                },
                None => MoveType::Invalid,
            },
        }
    } else {
        MoveType::Invalid
    }
}

/// The move of `piece` to `(ex, ey)` as its kind moves, castling apart.
pub open spec fn move_shape(b: BoardState, piece: Piece, ex: int, ey: int) -> MoveType {
    let dx = ex - piece.file();
    let dy = ey - piece.rank();
    match piece {
        Piece::Bishop(_) => if abs(dx) != abs(dy) {
            MoveType::Invalid
        } else {
            slide(b, piece, ex, ey)
        },
        Piece::Rook(_) => if dx != 0 && dy != 0 {
            MoveType::Invalid
        } else {
            slide(b, piece, ex, ey)
        },
        Piece::Queen(_) => if abs(dx) != abs(dy) && dx != 0 && dy != 0 {
            MoveType::Invalid
        } else {
            slide(b, piece, ex, ey)
        },
        Piece::Knight(_) => if (abs(dx) == 1 && abs(dy) == 2) || (abs(dx) == 2 && abs(dy) == 1) {
            landing(b, piece.side(), ex, ey)
        } else {
            MoveType::Invalid
        },
        Piece::Pawn(_) => pawn_move(b, piece, ex, ey),
        Piece::King(_) => if abs(dx) <= 1 && abs(dy) <= 1 {
            landing(b, piece.side(), ex, ey)
        } else {
            MoveType::Invalid
        },
    }
}

/// Whether the piece on square `i` is an enemy of `side` that could take a
/// piece of `side` standing on `(file, rank)`.
pub open spec fn attacks_from(b: BoardState, i: int, side: Side, file: int, rank: int) -> bool {
    match b.squares[i] {
        Some(p) => p.side() != side && takes_target(move_shape(b, p, file, rank)),
        None => false,
    }
}

/// Whether some enemy of `side` could take a piece of `side` standing on
/// `(file, rank)`.
pub open spec fn attacked(b: BoardState, side: Side, file: int, rank: int) -> bool {
    exists|i: int| 0 <= i < 64 && attacks_from(b, i, side, file, rank)
}

/// Whether the king of `side` could be taken. A side without a king is not
/// in check.
pub open spec fn in_check(b: BoardState, side: Side) -> bool {
    match b.king(side) {
        Some(king) => attacked(b, side, king.file(), king.rank()),
        None => false,
    }
}

/// Whether the squares of the back rank of `side` between the king's file and
/// the rook's file of `wing` are empty.
pub open spec fn castle_path_clear(b: BoardState, king: Piece, wing: CastleRights) -> bool {
    let rank = king.side().spec_back_rank() as int;
    if wing == CastleRights::KingSide {
        forall|x: int| king.file() < x < 7 ==> (#[trigger] b.at(x, rank)).is_none()
    } else {
        forall|x: int| 0 < x < king.file() ==> (#[trigger] b.at(x, rank)).is_none()
    }
}

/// The move of a king to a square that is more than one step away: castling,
/// where the king's side holds the right for that wing, the squares between
/// king and rook are empty, something other than the king stands on the
/// rook's square, and neither the king's square nor the square next to it on
/// the way is attacked.
pub open spec fn castle_move(b: BoardState, king: Piece, ex: int, ey: int) -> MoveType {
    let side = king.side();
    let wing = b.castle_rights(side).wing_for(ex, ey, side);
    let rank = side.spec_back_rank() as int;
    let next_file = king.file() + sign(ex - king.file());
    let next = [next_file as u8, king.spec_data().position[1]];
    if wing == CastleRights::NoRights {
        MoveType::Invalid
    } else if !castle_path_clear(b, king, wing) {
        MoveType::Invalid
    } else if attacked(
        b.put(king.file(), king.rank(), Some(king)),
        side,
        king.file(),
        king.rank(),
    ) {
        MoveType::Invalid
    } else if attacked(
        b.put(next_file, king.rank(), Some(king.moved_to(next))),
        side,
        next_file,
        king.rank(),
    ) {
        MoveType::Invalid
    } else if b.put(king.file(), king.rank(), None).at(wing.rook_init_file(), rank).is_none() {
        MoveType::Invalid
    } else {
        MoveType::Castle
    }
}

/// The move of `piece` to `(ex, ey)`, whether or not it leaves the mover's
/// king in check.
pub open spec fn raw_move(b: BoardState, piece: Piece, ex: int, ey: int) -> MoveType {
    if piece is King && !(abs(ex - piece.file()) <= 1 && abs(ey - piece.rank()) <= 1) {
        castle_move(b, piece, ex, ey)
    } else {
        move_shape(b, piece, ex, ey)
    }
}

/// The piece that arrives on `end`: the promoted piece where a pawn is
/// promoted, else the piece itself.
pub open spec fn arriving(
    piece: Piece,
    t: MoveType,
    end: [u8; 2],
    promotion: Option<PieceKind>,
) -> Piece {
    if promotes(t) && piece is Pawn && promotion.is_some() {
        Piece::spec_of_kind(promotion.unwrap(), piece.spec_data()).moved_to(end)
    } else {
        piece.moved_to(end)
    }
}

/// The castling rights of the mover's side after a plain move or a capture
/// by `piece`: a king gives up both wings, a rook that leaves a corner of its
/// back rank gives up that wing.
pub open spec fn rights_after(b: BoardState, piece: Piece) -> CastleRights {
    let rights = b.castle_rights(piece.side());
    match piece {
        Piece::King(_) => CastleRights::NoRights,
        Piece::Rook(_) => match CastleRights::wing_of_corner(piece) {
            Some(wing) => rights.without(wing),
            None => rights,
        },
        _ => rights,
    }
}

/// The square on which the rook of `wing` of `side` starts.
pub open spec fn rook_init_square(wing: CastleRights, side: Side) -> [u8; 2] {
    [wing.rook_init_file() as u8, side.spec_back_rank()]
}

/// The square on which the rook of `wing` of `side` stands after castling.
pub open spec fn rook_final_square(wing: CastleRights, side: Side) -> [u8; 2] {
    [wing.rook_final_file() as u8, side.spec_back_rank()]
}

/// Whether a move of type `t` of `piece` to `end` can be carried out on `b`:
/// what the move takes, moves along or turns into is there.
pub open spec fn applicable(
    b: BoardState,
    piece: Piece,
    t: MoveType,
    end: [u8; 2],
    promotion: Option<PieceKind>,
) -> bool {
    let lifted = b.put(piece.file(), piece.rank(), None);
    let ex = end[0] as int;
    let ey = end[1] as int;
    match t {
        MoveType::Invalid | MoveType::Regular | MoveType::Doublestep => true,
        MoveType::Capture => lifted.at(ex, ey).is_some(),
        MoveType::EnPassant => match b.en_passant {
            Some(ep) => (ep[0] != end[0] || ep[1] != end[1]) && lifted.at(
                ep[0] as int,
                ep[1] as int,
            ).is_some(),
            None => false,
        },
        MoveType::Castle => {
            let wing = b.castle_rights(piece.side()).wing_for(ex, ey, piece.side());
            wing != CastleRights::NoRights && lifted.at(
                wing.rook_init_file(),
                piece.side().spec_back_rank() as int,
            ).is_some()
        },
        MoveType::PawnPromotion => piece is Pawn ==> promotion.is_some(),
        MoveType::PawnPromotionCapture => lifted.at(ex, ey).is_some() && (piece is Pawn
            ==> promotion.is_some()),
    }
}

/// The board after a move of type `t` of `piece` to `end`. The piece leaves
/// its square and arrives on `end`; an en-passant capture empties the square
/// of the pawn taken, castling moves the piece on the rook's square beside
/// the king. Every valid move hands the turn to the other side and clears
/// the en-passant square, which a double step sets anew. A move of a king
/// and a move of a rook from its corner give up castling rights. An invalid
/// move puts the piece back on its square.
pub open spec fn after_move(
    b: BoardState,
    piece: Piece,
    t: MoveType,
    end: [u8; 2],
    promotion: Option<PieceKind>,
) -> BoardState {
    let side = piece.side();
    let lifted = b.put(piece.file(), piece.rank(), None);
    let ex = end[0] as int;
    let ey = end[1] as int;
    let placed = lifted.put(ex, ey, Some(arriving(piece, t, end, promotion)));
    match t {
        MoveType::Invalid => lifted.put(piece.file(), piece.rank(), Some(piece)),
        MoveType::Capture | MoveType::Regular => BoardState {
            en_passant: None,
            turn: b.turn.spec_other(),
            ..placed.with_castle_rights(side, rights_after(b, piece))
        },
        MoveType::Doublestep => BoardState {
            en_passant: Some(end),
            turn: b.turn.spec_other(),
            ..placed
        },
        MoveType::EnPassant => {
            let ep = b.en_passant.unwrap();
            BoardState {
                en_passant: None,
                turn: b.turn.spec_other(),
                ..placed.put(ep[0] as int, ep[1] as int, None)
            }
        },
        MoveType::Castle => {
            let wing = b.castle_rights(side).wing_for(ex, ey, side);
            let rank = side.spec_back_rank() as int;
            let rook = lifted.at(wing.rook_init_file(), rank).unwrap();
            let rook_moved = lifted.put(wing.rook_init_file(), rank, None).put(
                wing.rook_final_file(),
                rank,
                Some(rook.moved_to(rook_final_square(wing, side))),
            ).put(ex, ey, Some(piece.moved_to(end)));
            BoardState {
                en_passant: None,
                turn: b.turn.spec_other(),
                ..rook_moved.with_castle_rights(side, CastleRights::NoRights)
            }
        },
        MoveType::PawnPromotion | MoveType::PawnPromotionCapture => BoardState {
            en_passant: None,
            turn: b.turn.spec_other(),
            ..placed
        },
    }
}

/// The move of `piece` to `end`. With `check_check`, a move after which the
/// mover's own king could be taken is invalid.
pub open spec fn legal_move(
    b: BoardState,
    piece: Piece,
    end: [u8; 2],
    check_check: bool,
    promotion: Option<PieceKind>,
) -> MoveType {
    let t = raw_move(b, piece, end[0] as int, end[1] as int);
    if check_check && t != MoveType::Invalid && in_check(
        after_move(b, piece, t, end, promotion),
        piece.side(),
    ) {
        MoveType::Invalid
    } else {
        t
    }
}

/// What a move of type `t` of `piece` to `end` reports: the piece as it
/// stands after the move, and what it took or moved along.
pub open spec fn move_result(
    b: BoardState,
    piece: Piece,
    t: MoveType,
    end: [u8; 2],
    promotion: Option<PieceKind>,
) -> MoveResult {
    let lifted = b.put(piece.file(), piece.rank(), None);
    let moved = arriving(piece, t, end, promotion);
    let on_target = lifted.at(end[0] as int, end[1] as int);
    match t {
        MoveType::Invalid => MoveResult::Invalid,
        MoveType::Regular | MoveType::Doublestep => MoveResult::Regular(moved),
        MoveType::Capture => MoveResult::Capture { moved, captured: on_target.unwrap() },
        MoveType::EnPassant => {
            let ep = b.en_passant.unwrap();
            MoveResult::EnPassant {
                moved,
                captured: lifted.at(ep[0] as int, ep[1] as int).unwrap(),
            }
        },
        MoveType::Castle => {
            let side = piece.side();
            let wing = b.castle_rights(side).wing_for(end[0] as int, end[1] as int, side);
            let rook = lifted.at(wing.rook_init_file(), side.spec_back_rank() as int).unwrap();
            MoveResult::Castle {
                king: moved,
                rook: rook.moved_to(rook_final_square(wing, side)),
                rook_init_pos: rook_init_square(wing, side),
            }
        },
        MoveType::PawnPromotion => MoveResult::PawnPromotion(moved),
        MoveType::PawnPromotionCapture => MoveResult::PawnPromotionCapture {
            moved,
            captured: on_target.unwrap(),
        },
    }
}

/// A move leaves a well-formed board well-formed.
pub proof fn after_move_wf(
    b: BoardState,
    piece: Piece,
    t: MoveType,
    end: [u8; 2],
    promotion: Option<PieceKind>,
)
    requires
        b.wf(),
        on_board_at(piece.file(), piece.rank()),
        on_board_at(end[0] as int, end[1] as int),
    ensures
        after_move(b, piece, t, end, promotion).wf(),
{
    let a = after_move(b, piece, t, end, promotion);
    let side = piece.side();
    let wing = b.castle_rights(side).wing_for(end[0] as int, end[1] as int, side);
    let rf = rook_final_square(wing, side);
    assert(rf[0] == wing.rook_final_file() && rf[1] == side.spec_back_rank());
    let lifted = b.put(piece.file(), piece.rank(), None);
    let placed = lifted.put(end[0] as int, end[1] as int, Some(arriving(piece, t, end, promotion)));
    assert(lifted.wf());
    assert(placed.wf());
    match t {
        MoveType::Invalid => {
            assert(a.wf());
        },
        MoveType::Capture | MoveType::Regular => {
            assert(a.squares == placed.squares);
        },
        MoveType::Doublestep => {
            assert(a.squares == placed.squares);
        },
        MoveType::EnPassant => {
            let ep = b.en_passant.unwrap();
            assert(a.squares == placed.put(ep[0] as int, ep[1] as int, None).squares);
        },
        MoveType::Castle => {
            let rank = side.spec_back_rank() as int;
            let rook = lifted.at(wing.rook_init_file(), rank).unwrap();
            let s1 = lifted.put(wing.rook_init_file(), rank, None);
            let s2 = s1.put(wing.rook_final_file(), rank, Some(rook.moved_to(rf)));
            let s3 = s2.put(end[0] as int, end[1] as int, Some(piece.moved_to(end)));
            assert(s1.wf());
            assert(s2.wf());
            assert(s3.wf());
            assert(a.squares == s3.squares);
        },
        MoveType::PawnPromotion | MoveType::PawnPromotionCapture => {
            assert(a.squares == placed.squares);
        },
    }
}

/// A move that the rules find can be carried out: what it takes or moves
/// along is there.
pub proof fn legal_move_applicable(
    b: BoardState,
    piece: Piece,
    end: [u8; 2],
    check_check: bool,
    promotion: Option<PieceKind>,
)
    requires
        b.wf(),
        on_board_at(piece.file(), piece.rank()),
        on_board_at(end[0] as int, end[1] as int),
        b.at(piece.file(), piece.rank()).is_none() || b.at(piece.file(), piece.rank()) == Some(
            piece,
        ),
        promotes(raw_move(b, piece, end[0] as int, end[1] as int)) ==> promotion.is_some(),
    ensures
        applicable(b, piece, raw_move(b, piece, end[0] as int, end[1] as int), end, promotion),
        applicable(b, piece, legal_move(b, piece, end, check_check, promotion), end, promotion),
{
}

/// The square with the index `d` among the 64 squares, as `[file, rank]`.
pub open spec fn square_at(d: int) -> [u8; 2] {
    [(d / 8) as u8, (d % 8) as u8]
}

/// The `k`-th candidate among the 4096 pairs of a square to move from and a
/// square to move to: the legal move of a piece of `side` that it names, if it
/// names one. A pawn that reaches the last rank is taken to become a queen.
#[verifier::opaque]
pub open spec fn candidate(b: BoardState, side: Side, k: int) -> Option<(Piece, [u8; 2])> {
    match b.squares[k / 64] {
        Some(p) => if p.side() == side && legal_move(
            b,
            p,
            square_at(k % 64),
            true,
            Some(PieceKind::Queen),
        ) != MoveType::Invalid {
            Some((p, square_at(k % 64)))
        } else {
            None
        },
        None => None,
    }
}

/// The legal moves among the first `n` candidates, in their order.
pub open spec fn moves_upto(b: BoardState, side: Side, n: int) -> Seq<(Piece, [u8; 2])>
    decreases n,
{
    if n <= 0 {
        Seq::empty()
    } else {
        match candidate(b, side, n - 1) {
            Some(m) => moves_upto(b, side, n - 1).push(m),
            None => moves_upto(b, side, n - 1),
        }
    }
}

/// The legal moves of `side`: by the square moved from, then by the square
/// moved to.
pub open spec fn possible_moves(b: BoardState, side: Side) -> Seq<(Piece, [u8; 2])> {
    moves_upto(b, side, 4096)
}

/// Whether `side` has a legal move.
pub open spec fn has_move(b: BoardState, side: Side) -> bool {
    exists|k: int| 0 <= k < 4096 && (#[trigger] candidate(b, side, k)).is_some()
}

/// Candidates that name a square without a piece of `side` add no move.
pub proof fn moves_upto_skips(b: BoardState, side: Side, s: int, n: int)
    requires
        0 <= s < 64,
        s * 64 <= n <= s * 64 + 64,
        match b.squares[s] {
            Some(p) => p.side() != side,
            None => true,
        },
    ensures
        moves_upto(b, side, n) == moves_upto(b, side, s * 64),
    decreases n,
{
    if n > s * 64 {
        assert((n - 1) / 64 == s);
        reveal(candidate);
        moves_upto_skips(b, side, s, n - 1);
    }
}

/// The state of the game for `side` when it is to move: mate where it has no
/// legal move and is in check, stalemate where it has none and is not.
pub open spec fn game_state(b: BoardState, side: Side) -> crate::chessboard::Checkmate {
    if has_move(b, side) {
        crate::chessboard::Checkmate::Nothing
    } else if in_check(b, side) {
        crate::chessboard::Checkmate::Checkmate
    } else {
        crate::chessboard::Checkmate::Stalemate
    }
}

/// The type of the move that `try_move` makes with the piece on `from`: a
/// piece of the side that is not to move makes none.
pub open spec fn tried_move(
    b: BoardState,
    from: [u8; 2],
    end: [u8; 2],
    promotion: Option<PieceKind>,
) -> MoveType {
    let piece = b.at(from[0] as int, from[1] as int).unwrap();
    let lifted = b.put(from[0] as int, from[1] as int, None);
    if piece.side() != b.turn {
        MoveType::Invalid
    } else {
        legal_move(lifted, piece, end, true, promotion)
    }
}

/// Whether `try_move` with the piece on `from` turns a pawn into another
/// piece, so that the kind of that piece must be named.
pub open spec fn try_promotes(b: BoardState, from: [u8; 2], end: [u8; 2]) -> bool {
    let piece = b.at(from[0] as int, from[1] as int).unwrap();
    let lifted = b.put(from[0] as int, from[1] as int, None);
    piece.side() == b.turn && promotes(raw_move(lifted, piece, end[0] as int, end[1] as int))
}

/// The board after `try_move` with the piece on `from`.
pub open spec fn after_try(
    b: BoardState,
    from: [u8; 2],
    end: [u8; 2],
    promotion: Option<PieceKind>,
) -> BoardState {
    let piece = b.at(from[0] as int, from[1] as int).unwrap();
    let lifted = b.put(from[0] as int, from[1] as int, None);
    after_move(lifted, piece, tried_move(b, from, end, promotion), end, promotion)
}

/// What a candidate names: a piece of `side` that stands on the board where
/// it says, and a square of the board to which it may move.
pub proof fn candidate_is_legal(b: BoardState, side: Side, k: int)
    requires
        b.wf(),
        0 <= k < 4096,
        candidate(b, side, k).is_some(),
    ensures
        ({
            let (p, end) = candidate(b, side, k).unwrap();
            &&& b.squares[k / 64] == Some(p)
            &&& b.at(p.file(), p.rank()) == Some(p)
            &&& on_board_at(p.file(), p.rank())
            &&& p.side() == side
            &&& end == square_at(k % 64)
            &&& on_board_at(end[0] as int, end[1] as int)
            &&& legal_move(b, p, end, true, Some(PieceKind::Queen)) != MoveType::Invalid
        }),
{
    reveal(candidate);
    let p = b.squares[k / 64].unwrap();
    assert(square_index(p.file(), p.rank()) == k / 64);
}

/// Every move among the first `n` candidates' moves is one of those
/// candidates.
pub proof fn moves_upto_are_candidates(b: BoardState, side: Side, n: int, idx: int)
    requires
        0 <= n,
        0 <= idx < moves_upto(b, side, n).len(),
    ensures
        exists|k: int|
            0 <= k < n && #[trigger] candidate(b, side, k) == Some(moves_upto(b, side, n)[idx]),
    decreases n,
{
    if n > 0 {
        let before = moves_upto(b, side, n - 1);
        if idx < before.len() {
            moves_upto_are_candidates(b, side, n - 1, idx);
            let k = choose|k: int|
                0 <= k < n - 1 && #[trigger] candidate(b, side, k) == Some(before[idx]);
            assert(candidate(b, side, k) == Some(moves_upto(b, side, n)[idx]));
        } else {
            assert(candidate(b, side, n - 1) == Some(moves_upto(b, side, n)[idx]));
        }
    }
}

/// Every candidate among the first `n` is among their moves.
pub proof fn candidates_are_in_moves_upto(b: BoardState, side: Side, n: int, k: int)
    requires
        0 <= k < n,
        candidate(b, side, k).is_some(),
    ensures
        moves_upto(b, side, n).contains(candidate(b, side, k).unwrap()),
    decreases n,
{
    let m = candidate(b, side, k).unwrap();
    if k == n - 1 {
        let all = moves_upto(b, side, n);
        assert(all[all.len() - 1] == m);
    } else {
        candidates_are_in_moves_upto(b, side, n - 1, k);
        let before = moves_upto(b, side, n - 1);
        let i = choose|i: int| 0 <= i < before.len() && before[i] == m;
        assert(moves_upto(b, side, n)[i] == m);
    }
}

/// Every move that `possible_moves` lists is legal: its piece is a piece of
/// `side` that stands on the board, and the rules allow its move to the
/// square named, which is on the board.
pub proof fn possible_moves_are_legal(b: BoardState, side: Side, idx: int)
    requires
        b.wf(),
        0 <= idx < possible_moves(b, side).len(),
    ensures
        ({
            let (p, end) = possible_moves(b, side)[idx];
            &&& b.at(p.file(), p.rank()) == Some(p)
            &&& on_board_at(p.file(), p.rank())
            &&& p.side() == side
            &&& on_board_at(end[0] as int, end[1] as int)
            &&& legal_move(b, p, end, true, Some(PieceKind::Queen)) != MoveType::Invalid
        }),
{
    moves_upto_are_candidates(b, side, 4096, idx);
    let k = choose|k: int|
        0 <= k < 4096 && #[trigger] candidate(b, side, k) == Some(possible_moves(b, side)[idx]);
    candidate_is_legal(b, side, k);
}

/// Every legal move of a piece of `side` on the board is listed by
/// `possible_moves`.
pub proof fn legal_moves_are_possible(b: BoardState, side: Side, p: Piece, end: [u8; 2])
    requires
        b.wf(),
        on_board_at(p.file(), p.rank()),
        b.at(p.file(), p.rank()) == Some(p),
        p.side() == side,
        on_board_at(end[0] as int, end[1] as int),
        legal_move(b, p, end, true, Some(PieceKind::Queen)) != MoveType::Invalid,
    ensures
        possible_moves(b, side).contains((p, end)),
{
    let k = square_index(p.file(), p.rank()) * 64 + square_index(end[0] as int, end[1] as int);
    assert(k / 64 == square_index(p.file(), p.rank()));
    assert(k % 64 == square_index(end[0] as int, end[1] as int));
    assert(end =~= square_at(k % 64));
    assert(candidate(b, side, k) == Some((p, end))) by {
        reveal(candidate);
    }
    candidates_are_in_moves_upto(b, side, 4096, k);
}

/// A side has a legal move exactly where `possible_moves` lists one.
pub proof fn has_move_iff_possible(b: BoardState, side: Side)
    ensures
        has_move(b, side) <==> possible_moves(b, side).len() > 0,
{
    if has_move(b, side) {
        let k = choose|k: int| 0 <= k < 4096 && (#[trigger] candidate(b, side, k)).is_some();
        candidates_are_in_moves_upto(b, side, 4096, k);
    }
    if possible_moves(b, side).len() > 0 {
        moves_upto_are_candidates(b, side, 4096, 0);
    }
}

/// Whether two boards hold the same pieces, en-passant square and castling
/// rights: they may differ in the side to move.
pub open spec fn same_but_turn(b1: BoardState, b2: BoardState) -> bool {
    &&& b1.squares == b2.squares
    &&& b1.en_passant == b2.en_passant
    &&& b1.light_castle == b2.light_castle
    &&& b1.dark_castle == b2.dark_castle
}

/// How a piece moves does not depend on the side to move.
pub proof fn move_shape_ignores_turn(b1: BoardState, b2: BoardState, p: Piece, ex: int, ey: int)
    requires
        same_but_turn(b1, b2),
    ensures
        move_shape(b1, p, ex, ey) == move_shape(b2, p, ex, ey),
{
    let dx = ex - p.file();
    let dy = ey - p.rank();
    assert(path_clear(b1, p.file(), p.rank(), dx, dy) == path_clear(
        b2,
        p.file(),
        p.rank(),
        dx,
        dy,
    )) by {
        if path_clear(b1, p.file(), p.rank(), dx, dy) {
            assert forall|k: int| 1 <= k < walk_len(dx, dy) implies (#[trigger] b2.at(
                p.file() + k * sign(dx),
                p.rank() + k * sign(dy),
            )).is_none() by {
                let _ = b1.at(p.file() + k * sign(dx), p.rank() + k * sign(dy));
            }
        }
        if path_clear(b2, p.file(), p.rank(), dx, dy) {
            assert forall|k: int| 1 <= k < walk_len(dx, dy) implies (#[trigger] b1.at(
                p.file() + k * sign(dx),
                p.rank() + k * sign(dy),
            )).is_none() by {
                let _ = b2.at(p.file() + k * sign(dx), p.rank() + k * sign(dy));
            }
        }
    }
    assert(forall|x: int, y: int| b1.at(x, y) == b2.at(x, y));
}

/// Whether a square is attacked does not depend on the side to move.
pub proof fn attacked_ignores_turn(b1: BoardState, b2: BoardState, side: Side, x: int, y: int)
    requires
        same_but_turn(b1, b2),
    ensures
        attacked(b1, side, x, y) == attacked(b2, side, x, y),
{
    assert forall|i: int| 0 <= i < 64 implies attacks_from(b1, i, side, x, y) == attacks_from(
        b2,
        i,
        side,
        x,
        y,
    ) by {
        if b1.squares[i].is_some() {
            move_shape_ignores_turn(b1, b2, b1.squares[i].unwrap(), x, y);
        }
    }
}

/// Which king a side has does not depend on the side to move.
pub proof fn king_ignores_turn(b1: BoardState, b2: BoardState, side: Side, from: int)
    requires
        b1.squares == b2.squares,
    ensures
        b1.king_from(side, from) == b2.king_from(side, from),
    decreases 64 - from,
{
    if 0 <= from < 64 {
        king_ignores_turn(b1, b2, side, from + 1);
    }
}

/// Whether a side is in check does not depend on the side to move.
pub proof fn in_check_ignores_turn(b1: BoardState, b2: BoardState, side: Side)
    requires
        same_but_turn(b1, b2),
    ensures
        in_check(b1, side) == in_check(b2, side),
{
    king_ignores_turn(b1, b2, side, 0);
    if b1.king(side).is_some() {
        let king = b1.king(side).unwrap();
        attacked_ignores_turn(b1, b2, side, king.file(), king.rank());
    }
}

/// Whether a king may castle does not depend on the side to move.
pub proof fn castle_move_ignores_turn(b1: BoardState, b2: BoardState, p: Piece, ex: int, ey: int)
    requires
        same_but_turn(b1, b2),
    ensures
        castle_move(b1, p, ex, ey) == castle_move(b2, p, ex, ey),
{
    let side = p.side();
    let wing = b1.castle_rights(side).wing_for(ex, ey, side);
    let next_file = p.file() + sign(ex - p.file());
    let next = [next_file as u8, p.spec_data().position[1]];
    let rank = side.spec_back_rank() as int;
    assert(forall|x: int, y: int| b1.at(x, y) == b2.at(x, y));
    attacked_ignores_turn(
        b1.put(p.file(), p.rank(), Some(p)),
        b2.put(p.file(), p.rank(), Some(p)),
        side,
        p.file(),
        p.rank(),
    );
    attacked_ignores_turn(
        b1.put(next_file, p.rank(), Some(p.moved_to(next))),
        b2.put(next_file, p.rank(), Some(p.moved_to(next))),
        side,
        next_file,
        p.rank(),
    );
    assert(castle_path_clear(b1, p, wing) == castle_path_clear(b2, p, wing)) by {
        if castle_path_clear(b1, p, wing) {
            assert forall|x: int| 0 <= x < 8 implies #[trigger] b2.at(x, rank) == b1.at(
                x,
                rank,
            ) by {}
        }
        if castle_path_clear(b2, p, wing) {
            assert forall|x: int| 0 <= x < 8 implies #[trigger] b1.at(x, rank) == b2.at(
                x,
                rank,
            ) by {}
        }
    }
}

/// The boards after the same move on two boards that differ in the side to
/// move differ in the side to move at most.
pub proof fn after_move_ignores_turn(
    b1: BoardState,
    b2: BoardState,
    p: Piece,
    t: MoveType,
    end: [u8; 2],
    promotion: Option<PieceKind>,
)
    requires
        same_but_turn(b1, b2),
    ensures
        same_but_turn(
            after_move(b1, p, t, end, promotion),
            after_move(b2, p, t, end, promotion),
        ),
{
}

/// Which moves the rules allow does not depend on the side to move.
pub proof fn legal_move_ignores_turn(
    b1: BoardState,
    b2: BoardState,
    p: Piece,
    end: [u8; 2],
    check_check: bool,
    promotion: Option<PieceKind>,
)
    requires
        same_but_turn(b1, b2),
    ensures
        legal_move(b1, p, end, check_check, promotion) == legal_move(
            b2,
            p,
            end,
            check_check,
            promotion,
        ),
{
    let ex = end[0] as int;
    let ey = end[1] as int;
    move_shape_ignores_turn(b1, b2, p, ex, ey);
    castle_move_ignores_turn(b1, b2, p, ex, ey);
    let t = raw_move(b1, p, ex, ey);
    assert(t == raw_move(b2, p, ex, ey));
    after_move_ignores_turn(b1, b2, p, t, end, promotion);
    in_check_ignores_turn(
        after_move(b1, p, t, end, promotion),
        after_move(b2, p, t, end, promotion),
        p.side(),
    );
}

/// Whether a side has a legal move does not depend on the side to move.
pub proof fn has_move_ignores_turn(b1: BoardState, b2: BoardState, side: Side)
    requires
        same_but_turn(b1, b2),
    ensures
        has_move(b1, side) == has_move(b2, side),
{
    assert forall|k: int| 0 <= k < 4096 implies #[trigger] candidate(b1, side, k) == candidate(
        b2,
        side,
        k,
    ) by {
        reveal(candidate);
        if b1.squares[k / 64].is_some() {
            legal_move_ignores_turn(
                b1,
                b2,
                b1.squares[k / 64].unwrap(),
                square_at(k % 64),
                true,
                Some(PieceKind::Queen),
            );
        }
    }
    if has_move(b1, side) {
        let k = choose|k: int| 0 <= k < 4096 && (#[trigger] candidate(b1, side, k)).is_some();
        assert(candidate(b2, side, k).is_some());
    }
    if has_move(b2, side) {
        let k = choose|k: int| 0 <= k < 4096 && (#[trigger] candidate(b2, side, k)).is_some();
        assert(candidate(b1, side, k).is_some());
    }
}

} // verus!
