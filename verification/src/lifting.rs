//! A piece moves alike whether or not it is lifted from its square while its
//! move is looked at: the moves that `possible_moves` lists are the moves
//! that `try_move` makes.

use crate::chessboard::{on_board_at, square_index, BoardState};
use crate::piece::{MoveType, Piece, PieceKind, Side};
use crate::rules::{
    abs, after_move, after_try, attacked, attacks_from, castle_move, castle_path_clear, in_check,
    landing, legal_move, move_shape, path_clear, possible_moves, possible_moves_are_legal,
    raw_move, sign, slide, takes_target, tried_move, walk_len,
};
use vstd::prelude::*;

verus! {

/// A step of `k` times a sign is `k`, `-k` or 0.
pub proof fn step_product(k: int, s: int)
    requires
        s == 1 || s == -1 || s == 0,
    ensures
        k * s == (if s == 1 {
            k
        } else if s == -1 {
            -k
        } else {
            0
        }),
{
    assert(k * s == (if s == 1 {
        k
    } else if s == -1 {
        -k
    } else {
        0
    })) by (nonlinear_arith)
        requires
            s == 1 || s == -1 || s == 0,
    ;
}

/// The squares between a piece and another square are the same with or
/// without the piece on its own square.
pub proof fn path_ignores_own_square(b: BoardState, file: int, rank: int, dx: int, dy: int)
    requires
        b.squares.len() == 64,
        on_board_at(file, rank),
        dx != 0 || dy != 0,
    ensures
        path_clear(b.put(file, rank, None), file, rank, dx, dy) == path_clear(
            b,
            file,
            rank,
            dx,
            dy,
        ),
{
    let lifted = b.put(file, rank, None);
    assert forall|k: int| 1 <= k < walk_len(dx, dy) implies #[trigger] lifted.at(
        file + k * sign(dx),
        rank + k * sign(dy),
    ) == b.at(file + k * sign(dx), rank + k * sign(dy)) by {
        step_product(k, sign(dx));
        step_product(k, sign(dy));
    }
    if path_clear(b, file, rank, dx, dy) {
        assert forall|k: int| 1 <= k < walk_len(dx, dy) implies (#[trigger] lifted.at(
            file + k * sign(dx),
            rank + k * sign(dy),
        )).is_none() by {
            let _ = b.at(file + k * sign(dx), rank + k * sign(dy));
        }
    }
    if path_clear(lifted, file, rank, dx, dy) {
        assert forall|k: int| 1 <= k < walk_len(dx, dy) implies (#[trigger] b.at(
            file + k * sign(dx),
            rank + k * sign(dy),
        )).is_none() by {
            let _ = lifted.at(file + k * sign(dx), rank + k * sign(dy));
        }
    }
}

/// How a piece moves to another square than its own does not depend on
/// whether it stands on its own square.
pub proof fn shape_ignores_own_square(b: BoardState, p: Piece, ex: int, ey: int)
    requires
        b.squares.len() == 64,
        on_board_at(p.file(), p.rank()),
        ex != p.file() || ey != p.rank(),
    ensures
        move_shape(b.put(p.file(), p.rank(), None), p, ex, ey) == move_shape(b, p, ex, ey),
{
    let lifted = b.put(p.file(), p.rank(), None);
    path_ignores_own_square(b, p.file(), p.rank(), ex - p.file(), ey - p.rank());
    assert(forall|x: int, y: int|
        x != p.file() || y != p.rank() ==> lifted.at(x, y) == b.at(x, y));
}

/// Whether the kind of `q` moves along straight lines over any distance.
pub open spec fn slides(q: Piece) -> bool {
    q is Bishop || q is Rook || q is Queen
}

/// Whether `q` moves along the line over `(dx, dy)`.
pub open spec fn reaches(q: Piece, dx: int, dy: int) -> bool {
    match q {
        Piece::Bishop(_) => abs(dx) == abs(dy),
        Piece::Rook(_) => dx == 0 || dy == 0,
        Piece::Queen(_) => abs(dx) == abs(dy) || dx == 0 || dy == 0,
        _ => false,
    }
}

/// A piece that could slide over a king's square, were the king not there,
/// can take the king.
pub proof fn slider_behind_king_attacks(
    b: BoardState,
    with_king: BoardState,
    without_king: BoardState,
    q: Piece,
    king: Piece,
    tx: int,
    ty: int,
)
    requires
        b.squares.len() == 64,
        on_board_at(king.file(), king.rank()),
        on_board_at(tx, ty),
        tx != king.file() || ty != king.rank(),
        b.at(king.file(), king.rank()) == Some(king),
        king.side() != q.side(),
        slides(q),
        reaches(q, tx - q.file(), ty - q.rank()),
        forall|x: int, y: int|
            (x != king.file() || y != king.rank()) && (x != tx || y != ty) ==> #[trigger] with_king.at(
                x,
                y,
            ) == b.at(x, y),
        forall|x: int, y: int|
            x != king.file() || y != king.rank() ==> #[trigger] without_king.at(x, y)
                == with_king.at(x, y),
        with_king.at(tx, ty).is_some(),
        path_clear(without_king, q.file(), q.rank(), tx - q.file(), ty - q.rank()),
        !path_clear(with_king, q.file(), q.rank(), tx - q.file(), ty - q.rank()),
    ensures
        move_shape(b, q, king.file(), king.rank()) == MoveType::Capture,
{
    let dx = tx - q.file();
    let dy = ty - q.rank();
    let sx = sign(dx);
    let sy = sign(dy);
    let n = walk_len(dx, dy);
    let k = choose|k: int|
        1 <= k < n && !(#[trigger] with_king.at(q.file() + k * sx, q.rank() + k * sy)).is_none();
    let _ = without_king.at(q.file() + k * sx, q.rank() + k * sy);
    assert(q.file() + k * sx == king.file() && q.rank() + k * sy == king.rank());
    step_product(k, sx);
    step_product(k, sy);
    let kx = king.file() - q.file();
    let ky = king.rank() - q.rank();
    assert(sign(kx) == sx && sign(ky) == sy);
    assert(walk_len(kx, ky) == k);
    assert(reaches(q, kx, ky));
    assert forall|j: int| 1 <= j < k implies (#[trigger] b.at(
        q.file() + j * sx,
        q.rank() + j * sy,
    )).is_none() by {
        step_product(j, sx);
        step_product(j, sy);
        let _ = without_king.at(q.file() + j * sx, q.rank() + j * sy);
        let _ = with_king.at(q.file() + j * sx, q.rank() + j * sy);
    }
    assert(path_clear(b, q.file(), q.rank(), kx, ky));
    assert(landing(b, q.side(), king.file(), king.rank()) == MoveType::Capture);
    assert(slide(b, q, king.file(), king.rank()) == MoveType::Capture);
}

/// Whether a square is attacked does not depend on whether a king of the
/// side attacked that is not in check stands on its own square, once a piece
/// of that side stands on the square in question.
pub proof fn attack_ignores_safe_king(
    b: BoardState,
    king: Piece,
    moved: Piece,
    tx: int,
    ty: int,
)
    requires
        b.wf(),
        on_board_at(king.file(), king.rank()),
        on_board_at(tx, ty),
        b.at(king.file(), king.rank()) == Some(king),
        moved.side() == king.side(),
        !attacked(b, king.side(), king.file(), king.rank()),
    ensures
        attacked(b.put(tx, ty, Some(moved)), king.side(), tx, ty) == attacked(
            b.put(king.file(), king.rank(), None).put(tx, ty, Some(moved)),
            king.side(),
            tx,
            ty,
        ),
{
    let side = king.side();
    let f = king.file();
    let r = king.rank();
    let with_king = b.put(tx, ty, Some(moved));
    let without_king = b.put(f, r, None).put(tx, ty, Some(moved));
    if tx == f && ty == r {
        assert(with_king.squares =~= without_king.squares);
        assert(with_king == without_king);
    } else {
        assert forall|x: int, y: int| (x != f || y != r) && (x != tx || y != ty) implies #[trigger] with_king.at(
            x,
            y,
        ) == b.at(x, y) by {}
        assert forall|x: int, y: int| x != f || y != r implies #[trigger] without_king.at(x, y)
            == with_king.at(x, y) by {}
        assert(with_king.at(f, r) == Some(king));
        assert(without_king.at(f, r).is_none());
        assert forall|i: int| 0 <= i < 64 implies attacks_from(with_king, i, side, tx, ty)
            == attacks_from(without_king, i, side, tx, ty) by {
            if i == square_index(f, r) {
            } else if i == square_index(tx, ty) {
            } else {
                assert(with_king.squares[i] == b.squares[i]);
                assert(without_king.squares[i] == b.squares[i]);
                match b.squares[i] {
                    Some(q) => {
                        if q.side() != side {
                            assert(q.file() == i / 8 && q.rank() == i % 8);
                            let dx = tx - q.file();
                            let dy = ty - q.rank();
                            if slides(q) && reaches(q, dx, dy) {
                                let clear_with = path_clear(with_king, q.file(), q.rank(), dx, dy);
                                let clear_without = path_clear(
                                    without_king,
                                    q.file(),
                                    q.rank(),
                                    dx,
                                    dy,
                                );
                                if clear_with && !clear_without {
                                    let k = choose|k: int|
                                        1 <= k < walk_len(dx, dy) && !(#[trigger] without_king.at(
                                            q.file() + k * sign(dx),
                                            q.rank() + k * sign(dy),
                                        )).is_none();
                                    let _ = with_king.at(
                                        q.file() + k * sign(dx),
                                        q.rank() + k * sign(dy),
                                    );
                                    assert(false);
                                }
                                if clear_without && !clear_with {
                                    slider_behind_king_attacks(
                                        b,
                                        with_king,
                                        without_king,
                                        q,
                                        king,
                                        tx,
                                        ty,
                                    );
                                    assert(attacks_from(b, i, side, f, r));
                                    assert(false);
                                }
                            }
                        }
                    },
                    None => {},
                }
            }
        }
    }
}

/// Whether a king may castle does not depend on whether it stands on its
/// own square.
pub proof fn castle_ignores_own_square(b: BoardState, king: Piece, ex: int, ey: int)
    requires
        b.wf(),
        on_board_at(king.file(), king.rank()),
        on_board_at(ex, ey),
        b.at(king.file(), king.rank()) == Some(king),
    ensures
        castle_move(b.put(king.file(), king.rank(), None), king, ex, ey) == castle_move(
            b,
            king,
            ex,
            ey,
        ),
{
    let f = king.file();
    let r = king.rank();
    let side = king.side();
    let lifted = b.put(f, r, None);
    let wing = b.castle_rights(side).wing_for(ex, ey, side);
    let back = side.spec_back_rank() as int;
    let next_file = f + sign(ex - f);
    let next = [next_file as u8, king.spec_data().position[1]];
    assert(forall|x: int, y: int| x != f || y != r ==> lifted.at(x, y) == b.at(x, y));
    assert(castle_path_clear(lifted, king, wing) == castle_path_clear(b, king, wing)) by {
        if castle_path_clear(b, king, wing) {
            assert forall|x: int| 0 <= x < 8 && x != f implies #[trigger] lifted.at(x, back) == b.at(
                x,
                back,
            ) by {}
        }
        if castle_path_clear(lifted, king, wing) {
            assert forall|x: int| 0 <= x < 8 && x != f implies #[trigger] b.at(x, back) == lifted.at(
                x,
                back,
            ) by {}
        }
    }
    assert(lifted.put(f, r, Some(king)).squares =~= b.squares);
    assert(b.put(f, r, Some(king)).squares =~= b.squares);
    assert(lifted.put(f, r, Some(king)) == b.put(f, r, Some(king)));
    assert(b.put(f, r, Some(king)) == b);
    assert(lifted.put(f, r, None).squares =~= lifted.squares);
    assert(lifted.put(f, r, None) == b.put(f, r, None));
    if !attacked(b, side, f, r) {
        attack_ignores_safe_king(b, king, king.moved_to(next), next_file, r);
    }
}

/// How a piece that stands on the board moves to another square does not
/// depend on whether it is lifted from its own.
pub proof fn raw_move_ignores_own_square(b: BoardState, p: Piece, ex: int, ey: int)
    requires
        b.wf(),
        on_board_at(p.file(), p.rank()),
        on_board_at(ex, ey),
        b.at(p.file(), p.rank()) == Some(p),
        ex != p.file() || ey != p.rank(),
    ensures
        raw_move(b.put(p.file(), p.rank(), None), p, ex, ey) == raw_move(b, p, ex, ey),
{
    shape_ignores_own_square(b, p, ex, ey);
    castle_ignores_own_square(b, p, ex, ey);
}

/// Which moves the rules allow a piece that stands on the board does not
/// depend on whether it is lifted from its square.
pub proof fn legal_move_ignores_own_square(
    b: BoardState,
    p: Piece,
    end: [u8; 2],
    check_check: bool,
    promotion: Option<PieceKind>,
)
    requires
        b.wf(),
        on_board_at(p.file(), p.rank()),
        on_board_at(end[0] as int, end[1] as int),
        b.at(p.file(), p.rank()) == Some(p),
        end[0] != p.file() || end[1] != p.rank(),
    ensures
        legal_move(b.put(p.file(), p.rank(), None), p, end, check_check, promotion) == legal_move(
            b,
            p,
            end,
            check_check,
            promotion,
        ),
{
    let lifted = b.put(p.file(), p.rank(), None);
    raw_move_ignores_own_square(b, p, end[0] as int, end[1] as int);
    let t = raw_move(b, p, end[0] as int, end[1] as int);
    assert(lifted.put(p.file(), p.rank(), None).squares =~= lifted.squares);
    assert(lifted.put(p.file(), p.rank(), None) == lifted);
    assert(after_move(lifted, p, t, end, promotion) == after_move(b, p, t, end, promotion));
}

/// A piece does not move to the square on which it stands.
pub proof fn no_move_to_own_square(b: BoardState, p: Piece, end: [u8; 2])
    requires
        b.squares.len() == 64,
        on_board_at(p.file(), p.rank()),
        b.at(p.file(), p.rank()) == Some(p),
        end[0] == p.file(),
        end[1] == p.rank(),
    ensures
        raw_move(b, p, end[0] as int, end[1] as int) == MoveType::Invalid,
{
}

/// Every move that `possible_moves` lists for the side to move is made by
/// `try_move`: the board after it is the board after the move that the rules
/// found, and the other side is to move.
pub proof fn listed_moves_are_made(b: BoardState, idx: int)
    requires
        b.wf(),
        0 <= idx < possible_moves(b, b.turn).len(),
    ensures
        ({
            let (p, end) = possible_moves(b, b.turn)[idx];
            let t = legal_move(b, p, end, true, Some(PieceKind::Queen));
            &&& t != MoveType::Invalid
            &&& tried_move(b, p.spec_data().position, end, Some(PieceKind::Queen)) == t
            &&& after_try(b, p.spec_data().position, end, Some(PieceKind::Queen)) == after_move(
                b,
                p,
                t,
                end,
                Some(PieceKind::Queen),
            )
            &&& after_try(b, p.spec_data().position, end, Some(PieceKind::Queen)).turn
                == b.turn.spec_other()
            &&& !in_check(
                after_try(b, p.spec_data().position, end, Some(PieceKind::Queen)),
                b.turn,
            )
        }),
{
    let (p, end) = possible_moves(b, b.turn)[idx];
    let promotion = Some(PieceKind::Queen);
    possible_moves_are_legal(b, b.turn, idx);
    if end[0] == p.file() && end[1] == p.rank() {
        no_move_to_own_square(b, p, end);
    }
    legal_move_ignores_own_square(b, p, end, true, promotion);
    let lifted = b.put(p.file(), p.rank(), None);
    let t = legal_move(b, p, end, true, promotion);
    assert(lifted.put(p.file(), p.rank(), None).squares =~= lifted.squares);
    assert(lifted.put(p.file(), p.rank(), None) == lifted);
    assert(after_move(lifted, p, t, end, promotion) == after_move(b, p, t, end, promotion));
}

/// A move that takes the piece on the square moved to is a move as the
/// mover's kind moves: castling takes nothing.
pub proof fn taking_moves_are_shapes(
    b: BoardState,
    p: Piece,
    end: [u8; 2],
    check_check: bool,
    promotion: Option<PieceKind>,
)
    requires
        takes_target(legal_move(b, p, end, check_check, promotion)),
    ensures
        takes_target(move_shape(b, p, end[0] as int, end[1] as int)),
{
    let t = raw_move(b, p, end[0] as int, end[1] as int);
    assert(legal_move(b, p, end, check_check, promotion) == t);
    assert(!takes_target(castle_move(b, p, end[0] as int, end[1] as int)));
}

/// A piece of the side to move that can take the piece on a square attacks
/// that square.
pub proof fn taker_attacks(b: BoardState, p: Piece, victim: Side, x: int, y: int)
    requires
        b.squares.len() == 64,
        on_board_at(p.file(), p.rank()),
        b.at(p.file(), p.rank()) == Some(p),
        p.side() != victim,
        takes_target(move_shape(b, p, x, y)),
    ensures
        attacked(b, victim, x, y),
{
    let from = square_index(p.file(), p.rank());
    assert(b.squares[from] == Some(p));
    assert(attacks_from(b, from, victim, x, y));
}

/// Where the side that is not to move is not in check, no move that
/// `possible_moves` lists for the side to move takes its king.
pub proof fn listed_moves_spare_the_king(b: BoardState, idx: int)
    requires
        b.wf(),
        !in_check(b, b.turn.spec_other()),
        0 <= idx < possible_moves(b, b.turn).len(),
    ensures
        ({
            let (p, end) = possible_moves(b, b.turn)[idx];
            takes_target(legal_move(b, p, end, true, Some(PieceKind::Queen))) ==> b.at(
                end[0] as int,
                end[1] as int,
            ) != b.king(b.turn.spec_other())
        }),
{
    let (p, end) = possible_moves(b, b.turn)[idx];
    let other = b.turn.spec_other();
    let taking = takes_target(legal_move(b, p, end, true, Some(PieceKind::Queen)));
    possible_moves_are_legal(b, b.turn, idx);
    b.king_is_on_board(other);
    if taking && b.at(end[0] as int, end[1] as int) == b.king(other) {
        let king = b.king(other).unwrap();
        taking_moves_are_shapes(b, p, end, true, Some(PieceKind::Queen));
        assert(king.file() == end[0] && king.rank() == end[1]);
        taker_attacks(b, p, other, king.file(), king.rank());
        assert(in_check(b, other));
    }
}

} // verus!
