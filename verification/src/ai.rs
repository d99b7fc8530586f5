//! The search: negamax with alpha-beta pruning over the legal moves, with
//! results kept in the transposition table.

use crate::chessboard::{BoardState, Checkmate, Chessboard};
use crate::piece::{Piece, PieceKind, Side};
use crate::rules::{
    after_try, game_state, has_move, in_check, possible_moves, possible_moves_are_legal,
};
use crate::table::{Flag, TTEntry, TTMove, TableState, TranspositionTable, SCORE_LIMIT};
use crate::text::{decimal, push_char, push_decimal};
use crate::zobrist::{fingerprint, piece_id, spec_piece_id, updated_fingerprint, ZobristTable};
use vstd::prelude::*;

verus! {

/// The side whose advantage counts as positive.
pub const MAX_SIDE: Side = Side::Light;

/// The side whose advantage counts as negative.
pub const MIN_SIDE: Side = Side::Dark;

/// What a mate is worth.
pub const MATE_SCORE: i32 = 1000;

/// What giving check is worth.
pub const CHECK_SCORE: i32 = 2;

/// 1 for Light, -1 for Dark.
pub open spec fn spec_side_sign(side: Side) -> int {
    match side {
        Side::Light => 1,
        Side::Dark => -1,
    }
}

/// 1 for Light, -1 for Dark.
pub fn side_sign(side: Side) -> (r: i32)
    ensures
        r == spec_side_sign(side),
{
    match side {
        Side::Light => 1,
        Side::Dark => -1,
    }
}

/// What a piece is worth: pawn 1, knight 3, bishop 3, rook 5, queen 9,
/// king 0.
pub open spec fn spec_piece_value(piece: Piece) -> int {
    match piece {
        Piece::Pawn(_) => 1,
        Piece::Knight(_) => 3,
        Piece::Bishop(_) => 3,
        Piece::Rook(_) => 5,
        Piece::Queen(_) => 9,
        Piece::King(_) => 0,
    }
}

/// What a piece is worth: pawn 1, knight 3, bishop 3, rook 5, queen 9,
/// king 0.
pub fn piece_value(piece: &Piece) -> (r: i32)
    ensures
        r == spec_piece_value(*piece),
{
    match piece {
        Piece::Pawn(_) => 1,
        Piece::Knight(_) => 3,
        Piece::Bishop(_) => 3,
        Piece::Rook(_) => 5,
        Piece::Queen(_) => 9,
        Piece::King(_) => 0,  // both sides should have a king
    }
}

/// What the piece on a square adds to the balance: its worth, positive for
/// Light and negative for Dark.
pub open spec fn square_value(content: Option<Piece>) -> int {
    match content {
        Some(p) => spec_piece_value(p) * spec_side_sign(p.side()),
        None => 0,
    }
}

/// The balance of the pieces on the first `n` squares.
pub open spec fn material_upto(squares: Seq<Option<Piece>>, n: int) -> int
    decreases n,
{
    if n <= 0 {
        0
    } else {
        material_upto(squares, n - 1) + square_value(squares[n - 1])
    }
}

/// The balance of the pieces on the board: what Light's are worth less what
/// Dark's are worth.
pub open spec fn material(b: BoardState) -> int {
    material_upto(b.squares, 64)
}

/// The balance of `n` squares is at most nine a square.
pub proof fn material_is_bounded(squares: Seq<Option<Piece>>, n: int)
    requires
        0 <= n,
    ensures
        -9 * n <= material_upto(squares, n) <= 9 * n,
    decreases n,
{
    if n > 0 {
        material_is_bounded(squares, n - 1);
    }
}

/// The worth of a position for Light. Where the side to move is mated, a
/// mate for the other side; where it is stalemated, 0; else the balance of
/// the pieces, and the worth of a check for the other side where the side to
/// move is in check.
pub open spec fn evaluation(b: BoardState) -> int {
    match game_state(b, b.turn) {
        Checkmate::Checkmate => MATE_SCORE * spec_side_sign(b.turn.spec_other()),
        Checkmate::Stalemate => 0,
        Checkmate::Nothing => (if in_check(b, b.turn) {
            CHECK_SCORE * spec_side_sign(b.turn.spec_other())
        } else {
            0
        }) + material(b),
    }
}

/// The worth of a position for the side to move.
#[verifier::opaque]
pub open spec fn leaf_score(b: BoardState) -> int {
    spec_side_sign(b.turn) * evaluation(b)
}

/// The worth of the position for Light: see `evaluation`.
pub fn heuristic_score(chessboard: &Chessboard) -> (r: i32)
    requires
        chessboard@.wf(),
    ensures
        r == evaluation(chessboard@),
        -MATE_SCORE <= r <= MATE_SCORE,
{
    // only the side to move (whose turn it is) can be in checkmate
    match chessboard.is_checkmated(chessboard.turn) {
        Checkmate::Checkmate => {
            // if this move checkmates, just return an incredibly high number
            // for the other side (the winning side)
            return MATE_SCORE * side_sign(chessboard.turn.other());
        },
        Checkmate::Stalemate => {
            return 0;
        },
        Checkmate::Nothing => {},
    }
    let mut score: i32 = 0;
    // only the side to move (chessboard.turn) can be in check
    // because otherwise, they'd have gotton themselves out of check
    if chessboard.is_side_in_check(chessboard.turn) {
        score += CHECK_SCORE * side_sign(chessboard.turn.other());
    }
    let ghost check_part = score;
    let mut sq: usize = 0;
    while sq < 64
        invariant
            sq <= 64,
            chessboard@.squares.len() == 64,
            -2 <= check_part <= 2,
            score == check_part + material_upto(chessboard@.squares, sq as int),
        decreases 64 - sq,
    {
        proof {
            material_is_bounded(chessboard@.squares, sq as int);
            material_is_bounded(chessboard@.squares, sq + 1);
        }
        if let Some(piece) = chessboard.pieces[sq].as_ref() {
            score += piece_value(piece) * side_sign(piece.data().side);
        }
        sq += 1;
    }
    proof {
        material_is_bounded(chessboard@.squares, 64);
    }
    score
}

/// The larger of two scores.
pub open spec fn larger(a: int, b: int) -> int {
    if a >= b {
        a
    } else {
        b
    }
}

/// The smaller of two scores.
pub open spec fn smaller(a: int, b: int) -> int {
    if a <= b {
        a
    } else {
        b
    }
}

/// The larger of two scores.
fn max_score(a: i32, b: i32) -> (r: i32)
    ensures
        r == larger(a as int, b as int),
{
    if a >= b {
        a
    } else {
        b
    }
}

/// The smaller of two scores.
fn min_score(a: i32, b: i32) -> (r: i32)
    ensures
        r == smaller(a as int, b as int),
{
    if a <= b {
        a
    } else {
        b
    }
}

/// A move as the table keeps it.
pub open spec fn spec_tt_move(m: (Piece, [u8; 2])) -> TTMove {
    TTMove {
        piece_id: spec_piece_id(m.0) as usize,
        start_pos: m.0.spec_data().position,
        end_pos: m.1,
    }
}

/// The position that the search looks at after the move `m`: a pawn that
/// reaches the last rank becomes a queen.
#[verifier::opaque]
pub open spec fn child(b: BoardState, m: (Piece, [u8; 2])) -> BoardState {
    after_try(b, m.0.spec_data().position, m.1, Some(PieceKind::Queen))
}

/// The window `(alpha, beta)` as an entry of the table narrows it: a lower
/// bound raises alpha, an upper bound lowers beta.
pub open spec fn narrowed(entry: Option<TTEntry>, alpha: int, beta: int) -> (int, int) {
    match entry {
        Some(e) => match e.flag {
            Flag::Exact => (alpha, beta),
            Flag::Beta => (larger(alpha, e.score as int), beta),
            Flag::Alpha => (alpha, smaller(beta, e.score as int)),
        },
        None => (alpha, beta),
    }
}

/// The score that an entry of the table gives at once: that of an exact
/// entry, or that of a bound which closes the window.
pub open spec fn cached(entry: Option<TTEntry>, alpha: int, beta: int) -> Option<int> {
    match entry {
        Some(e) => if e.flag == Flag::Exact || narrowed(entry, alpha, beta).0 >= narrowed(
            entry,
            alpha,
            beta,
        ).1 {
            Some(e.score as int)
        } else {
            None
        },
        None => None,
    }
}

/// How a score stands to the window that a node was given: at or below
/// alpha it is an upper bound, at or above beta a lower bound, else exact.
pub open spec fn classify(score: int, alpha: int, beta: int) -> Flag {
    if score <= alpha {
        Flag::Alpha
    } else if score >= beta {
        Flag::Beta
    } else {
        Flag::Exact
    }
}

/// The state of a node's search after some of its moves.
pub struct Expansion {
    /// The best score so far.
    pub score: int,
    /// The move that gave it.
    pub best_move: Option<TTMove>,
    /// The lower end of the window, raised to the best score.
    pub alpha: int,
    /// The table as the searches below left it.
    pub table: TableState,
    /// Whether the window has closed, so that no further move is searched.
    pub cut: bool,
}

/// The search of a node after the first `n` of its moves.
pub open spec fn expand(
    keys: Seq<u64>,
    tt: TableState,
    b: BoardState,
    depth: u8,
    alpha: int,
    beta: int,
    moves: Seq<(Piece, [u8; 2])>,
    n: int,
) -> Expansion
    decreases depth, 0int, n,
{
    if n <= 0 {
        Expansion { score: i32::MIN as int, best_move: None, alpha, table: tt, cut: false }
    } else {
        let prev = expand(keys, tt, b, depth, alpha, beta, moves, n - 1);
        if prev.cut || depth == 0 {
            prev
        } else {
            let m = moves[n - 1];
            let below = negamax(
                keys,
                prev.table,
                child(b, m),
                (depth - 1) as u8,
                -beta,
                -prev.alpha,
            );
            let new_score = -below.0;
            let score = larger(prev.score, new_score);
            Expansion {
                score,
                best_move: if new_score > prev.score {
                    Some(spec_tt_move(m))
                } else {
                    prev.best_move
                },
                alpha: larger(prev.alpha, score),
                table: below.1,
                cut: larger(prev.alpha, score) >= beta,
            }
        }
    }
}

/// The score of the position `b` for the side to move, searched `depth`
/// moves deep within the window `(alpha, beta)`, and the table after the
/// search.
///
/// An entry that the table keeps for the position answers at once where it
/// is exact or closes the window. Else a position at depth 0 or without a
/// legal move scores as `leaf_score` says. Else the score is the largest of
/// the negated scores of the positions after the legal moves, each searched
/// one move less deep in the negated window; the moves after one that closes
/// the window are not searched. The result is stored with the depth, the best
/// move and the flag that `classify` gives it for the window that came in.
pub open spec fn negamax(
    keys: Seq<u64>,
    tt: TableState,
    b: BoardState,
    depth: u8,
    alpha: int,
    beta: int,
) -> (int, TableState)
    decreases depth, 1int, 0int,
{
    let hash = fingerprint(keys, b);
    let entry = tt.lookup(hash);
    let moves = possible_moves(b, b.turn);
    match cached(entry, alpha, beta) {
        Some(score) => (score, tt),
        None => if depth == 0 || moves.len() == 0 {
            (leaf_score(b), tt)
        } else {
            let window = narrowed(entry, alpha, beta);
            let done = expand(keys, tt, b, depth, window.0, window.1, moves, moves.len() as int);
            let found = TTEntry {
                hash,
                depth,
                score: done.score as i32,
                flag: classify(done.score, alpha, beta),
                best_move: done.best_move,
                age: match entry {
                    Some(e) => e.age,
                    None => 0,
                },
            };
            (done.score, done.table.store(found))
        },
    }
}

/// Once the window has closed, further moves change nothing.
pub proof fn expand_stays_cut(
    keys: Seq<u64>,
    tt: TableState,
    b: BoardState,
    depth: u8,
    alpha: int,
    beta: int,
    moves: Seq<(Piece, [u8; 2])>,
    n: int,
    later: int,
)
    requires
        0 <= n <= later,
        expand(keys, tt, b, depth, alpha, beta, moves, n).cut,
    ensures
        expand(keys, tt, b, depth, alpha, beta, moves, later) == expand(
            keys,
            tt,
            b,
            depth,
            alpha,
            beta,
            moves,
            n,
        ),
    decreases later - n,
{
    if later > n {
        expand_stays_cut(keys, tt, b, depth, alpha, beta, moves, n, later - 1);
    }
}

/// The worth of the position for the side to move: see `leaf_score`.
pub fn evaluate_for_mover(chessboard: &Chessboard) -> (r: i32)
    requires
        chessboard@.wf(),
    ensures
        r == leaf_score(chessboard@),
        -MATE_SCORE <= r <= MATE_SCORE,
{
    reveal(leaf_score);
    let sign = side_sign(chessboard.turn);
    let worth = heuristic_score(chessboard);
    assert(-MATE_SCORE <= sign * worth <= MATE_SCORE) by (nonlinear_arith)
        requires
            sign == 1 || sign == -1,
            -MATE_SCORE <= worth <= MATE_SCORE,
    ;
    sign * worth
}

/// The position after the `i`-th of the legal moves of the side to move.
fn position_after(chessboard: &Chessboard, moves: &Vec<(Piece, [u8; 2])>, i: usize) -> (r:
    Chessboard)
    requires
        chessboard@.wf(),
        moves@ == possible_moves(chessboard@, chessboard@.turn),
        i < moves@.len(),
    ensures
        r@ == child(chessboard@, moves@[i as int]),
        r@.wf(),
        spec_tt_move(moves@[i as int]).wf(),
{
    reveal(child);
    let m = moves[i];
    proof {
        possible_moves_are_legal(chessboard@, chessboard@.turn, i as int);
    }
    let mut temp = chessboard.clone();
    temp.try_move(&m.0, m.1, Some(PieceKind::Queen));
    temp
}

/// The score of the position for the side to move, searched `depth` moves
/// deep within the window `(alpha, beta)`: see `negamax`. The table answers
/// where it can and takes the result.
pub fn negamax_score(
    chessboard: &Chessboard,
    depth: u8,
    alpha: i32,
    beta: i32,
    table: &ZobristTable,
    tt: &mut TranspositionTable,
) -> (r: i32)
    requires
        chessboard@.wf(),
        table.wf(),
        old(tt)@.wf(),
        old(tt)@.entries_wf(),
        alpha > i32::MIN,
        beta > i32::MIN,
    ensures
        r == negamax(table@, old(tt)@, chessboard@, depth, alpha as int, beta as int).0,
        final(tt)@ == negamax(table@, old(tt)@, chessboard@, depth, alpha as int, beta as int).1,
        final(tt)@.wf(),
        final(tt)@.entries_wf(),
        -SCORE_LIMIT <= r <= SCORE_LIMIT,
    decreases depth,
{
    let init_alpha = alpha;
    let init_beta = beta;
    let mut alpha = alpha;
    let mut beta = beta;
    let ghost b = chessboard@;
    let ghost keys = table@;
    let ghost tt0 = tt@;

    let entry: Option<TTEntry> = match tt.get(chessboard, table) {
        Some(e) => Some(*e),
        None => None,
    };
    assert(entry == tt0.lookup(fingerprint(keys, b)));
    if let Some(entry) = entry {
        proof {
            let hash = fingerprint(keys, b);
            crate::table::find_hash_finds(tt0.bucket_of(hash), hash, 0);
            assert(entry.wf());
        }
        match entry.flag {
            Flag::Exact => {
                return entry.score;
            },
            Flag::Beta => alpha = max_score(alpha, entry.score),
            Flag::Alpha => beta = min_score(beta, entry.score),
        }
        if alpha >= beta {
            return entry.score;
        }
    }
    // Take the entry now: the table is free while the moves are searched.
    let mut entry = match entry {
        Some(e) => e,
        None => TTEntry::new(chessboard, table),
    };

    if depth == 0 {
        let score = evaluate_for_mover(chessboard);
        return score;
    }
    let mut score = i32::MIN;
    let mut best_move: Option<TTMove> = None;
    let possible_moves = chessboard.possible_moves(chessboard.turn);

    if possible_moves.len() == 0 {
        let score = evaluate_for_mover(chessboard);
        return score;
    }
    let ghost moves = possible_moves@;
    let ghost a0 = alpha as int;

    let mut i: usize = 0;
    while i < possible_moves.len()
        invariant_except_break
            i <= moves.len(),
            i == 0 ==> score == i32::MIN,
            i > 0 ==> -SCORE_LIMIT <= score <= SCORE_LIMIT,
            expand(keys, tt0, b, depth, a0, beta as int, moves, i as int) == (Expansion {
                score: score as int,
                best_move,
                alpha: alpha as int,
                table: tt@,
                cut: false,
            }),
        invariant
            chessboard@ == b,
            b.wf(),
            table@ == keys,
            table.wf(),
            depth > 0,
            moves == possible_moves@,
            moves == crate::rules::possible_moves(b, b.turn),
            moves.len() > 0,
            tt@.wf(),
            tt@.entries_wf(),
            alpha > i32::MIN,
            beta > i32::MIN,
            match best_move {
                Some(m) => m.wf(),
                None => true,
            },
        ensures
            -SCORE_LIMIT <= score <= SCORE_LIMIT,
            expand(keys, tt0, b, depth, a0, beta as int, moves, moves.len() as int).score
                == score,
            expand(keys, tt0, b, depth, a0, beta as int, moves, moves.len() as int).best_move
                == best_move,
            expand(keys, tt0, b, depth, a0, beta as int, moves, moves.len() as int).table == tt@,
        decreases possible_moves.len() - i,
    {
        let m = possible_moves[i];
        let temp = position_after(chessboard, &possible_moves, i);

        let new_score = -negamax_score(&temp, depth - 1, -beta, -alpha, table, tt);

        if new_score > score {
            score = new_score;
            best_move = Some(
                TTMove { piece_id: piece_id(&m.0), start_pos: m.0.data().position, end_pos: m.1 },
            );
        }
        alpha = max_score(alpha, score);
        if alpha >= beta {
            proof {
                expand_stays_cut(
                    keys,
                    tt0,
                    b,
                    depth,
                    a0,
                    beta as int,
                    moves,
                    i + 1,
                    moves.len() as int,
                );
            }
            break;
        }
        i += 1;
    }

    entry.score = score;
    entry.best_move = best_move;
    if score <= init_alpha {
        entry.flag = Flag::Alpha;
    } else if score >= init_beta {
        entry.flag = Flag::Beta;
    } else {
        entry.flag = Flag::Exact;
    }
    entry.depth = depth;
    tt.store(entry);

    score
}

/// The scores of the first `n` of the moves `moves` of the side to move on
/// `b`, and the table after their searches: each move scores the negated
/// score of the position after it, searched one move less deep than `depth`
/// in the widest window, in the order of the moves.
pub open spec fn root_scores(
    keys: Seq<u64>,
    tt: TableState,
    b: BoardState,
    depth: u8,
    moves: Seq<(Piece, [u8; 2])>,
    n: int,
) -> (Seq<int>, TableState)
    decreases n,
{
    if n <= 0 {
        (Seq::empty(), tt)
    } else {
        let prev = root_scores(keys, tt, b, depth, moves, n - 1);
        let below = negamax(
            keys,
            prev.1,
            child(b, moves[n - 1]),
            (depth - 1) as u8,
            -SCORE_LIMIT as int,
            SCORE_LIMIT as int,
        );
        (prev.0.push(-below.0), below.1)
    }
}

/// The index of the first of the largest among the first `n` scores.
pub open spec fn first_max(scores: Seq<int>, n: int) -> int
    decreases n,
{
    if n <= 1 {
        0
    } else {
        let before = first_max(scores, n - 1);
        if scores[n - 1] > scores[before] {
            n - 1
        } else {
            before
        }
    }
}

/// `first_max` names a score that none exceeds and that none before it
/// equals.
pub proof fn first_max_is_first_largest(scores: Seq<int>, n: int)
    requires
        1 <= n <= scores.len(),
    ensures
        0 <= first_max(scores, n) < n,
        forall|j: int| 0 <= j < n ==> #[trigger] scores[j] <= scores[first_max(scores, n)],
        forall|j: int|
            0 <= j < first_max(scores, n) ==> #[trigger] scores[j] < scores[first_max(scores, n)],
    decreases n,
{
    if n > 1 {
        first_max_is_first_largest(scores, n - 1);
    }
}

/// The move that the search chooses on `b`: the first of the legal moves of
/// the side to move with the largest score.
pub open spec fn best_move(keys: Seq<u64>, tt: TableState, b: BoardState, depth: u8) -> (
    Piece,
    [u8; 2],
) {
    let moves = possible_moves(b, b.turn);
    let scores = root_scores(keys, tt, b, depth, moves, moves.len() as int).0;
    moves[first_max(scores, scores.len() as int)]
}

/// The score of the `i`-th of the legal moves of the side to move: the
/// negated score of the position after it, searched one move less deep than
/// `depth` in the widest window.
pub fn score_root_move(
    chessboard: &Chessboard,
    moves: &Vec<(Piece, [u8; 2])>,
    i: usize,
    depth: u8,
    table: &ZobristTable,
    tt: &mut TranspositionTable,
) -> (r: i32)
    requires
        chessboard@.wf(),
        table.wf(),
        old(tt)@.wf(),
        old(tt)@.entries_wf(),
        depth >= 1,
        moves@ == possible_moves(chessboard@, chessboard@.turn),
        i < moves@.len(),
    ensures
        r == -negamax(
            table@,
            old(tt)@,
            child(chessboard@, moves@[i as int]),
            (depth - 1) as u8,
            -SCORE_LIMIT as int,
            SCORE_LIMIT as int,
        ).0,
        final(tt)@ == negamax(
            table@,
            old(tt)@,
            child(chessboard@, moves@[i as int]),
            (depth - 1) as u8,
            -SCORE_LIMIT as int,
            SCORE_LIMIT as int,
        ).1,
        final(tt)@.wf(),
        final(tt)@.entries_wf(),
        -SCORE_LIMIT <= r <= SCORE_LIMIT,
{
    let temp = position_after(chessboard, moves, i);
    // the window is 2 billion wide on either side, so that negating cannot overflow
    -negamax_score(&temp, depth - 1, -SCORE_LIMIT, SCORE_LIMIT, table, tt)
}

/// The index of the first of the largest scores.
pub fn select_best(scores: &Vec<i32>) -> (r: usize)
    requires
        scores@.len() > 0,
    ensures
        r == first_max(scores@.map_values(|s: i32| s as int), scores@.len() as int),
        r < scores@.len(),
{
    let ghost ints = scores@.map_values(|s: i32| s as int);
    let mut best: usize = 0;
    let mut i: usize = 1;
    while i < scores.len()
        invariant
            1 <= i <= scores@.len(),
            ints == scores@.map_values(|s: i32| s as int),
            best == first_max(ints, i as int),
            best < i,
        decreases scores@.len() - i,
    {
        if scores[i] > scores[best] {
            best = i;
        }
        i += 1;
    }
    best
}

/// The move that the search chooses for the side to move: the first of its
/// legal moves with the largest score, each move scored as `score_root_move`
/// does, one after the other in the order of `possible_moves`.
pub fn get_best_move(
    chessboard: &Chessboard,
    depth: u8,
    table: &ZobristTable,
    tt: &mut TranspositionTable,
) -> (r: (Piece, [u8; 2]))
    requires
        chessboard@.wf(),
        table.wf(),
        old(tt)@.wf(),
        old(tt)@.entries_wf(),
        depth >= 1,
        possible_moves(chessboard@, chessboard@.turn).len() > 0,
    ensures
        r == best_move(table@, old(tt)@, chessboard@, depth),
        possible_moves(chessboard@, chessboard@.turn).contains(r),
        final(tt)@ == root_scores(
            table@,
            old(tt)@,
            chessboard@,
            depth,
            possible_moves(chessboard@, chessboard@.turn),
            possible_moves(chessboard@, chessboard@.turn).len() as int,
        ).1,
        final(tt)@.wf(),
        final(tt)@.entries_wf(),
{
    let possible_moves = chessboard.possible_moves(chessboard.turn);
    let ghost moves = possible_moves@;
    let ghost tt0 = tt@;
    let ghost b = chessboard@;
    let ghost keys = table@;
    let mut scores: Vec<i32> = Vec::new();
    let mut i: usize = 0;
    while i < possible_moves.len()
        invariant
            i <= moves.len(),
            chessboard@ == b,
            b.wf(),
            table@ == keys,
            table.wf(),
            depth >= 1,
            moves == possible_moves@,
            moves == crate::rules::possible_moves(b, b.turn),
            tt@.wf(),
            tt@.entries_wf(),
            scores@.len() == i,
            scores@.map_values(|s: i32| s as int) == root_scores(
                keys,
                tt0,
                b,
                depth,
                moves,
                i as int,
            ).0,
            tt@ == root_scores(keys, tt0, b, depth, moves, i as int).1,
        decreases moves.len() - i,
    {
        let score = score_root_move(chessboard, &possible_moves, i, depth, table, tt);
        let ghost before = scores@;
        scores.push(score);
        assert(scores@.map_values(|s: i32| s as int) =~= before.map_values(|s: i32| s as int).push(
            score as int,
        ));
        i += 1;
    }
    let best = select_best(&scores);
    possible_moves[best]
}

/// The line of best moves that the table holds from the position with the
/// fingerprint `hash` on, at most `n` moves long: the best move of the entry
/// kept for the fingerprint, then the line from the fingerprint that
/// `update_hash` makes of the two. The line ends where the table keeps no
/// entry or the entry no move.
pub open spec fn spec_principal_variation(
    keys: Seq<u64>,
    tt: TableState,
    hash: u64,
    n: nat,
) -> Seq<TTMove>
    decreases n,
{
    if n == 0 {
        Seq::empty()
    } else {
        match tt.lookup(hash) {
            Some(e) => match e.best_move {
                Some(m) => seq![m] + spec_principal_variation(
                    keys,
                    tt,
                    updated_fingerprint(keys, hash, m),
                    (n - 1) as nat,
                ),
                None => Seq::empty(),
            },
            None => Seq::empty(),
        }
    }
}

/// The line of best moves that the table holds from the position with the
/// fingerprint `hash` on, cut after `max_len` moves.
pub fn principal_variation(
    tt: &TranspositionTable,
    table: &ZobristTable,
    hash: u64,
    max_len: usize,
) -> (r: Vec<TTMove>)
    requires
        tt@.wf(),
        tt@.entries_wf(),
        table.wf(),
    ensures
        r@ == spec_principal_variation(table@, tt@, hash, max_len as nat),
{
    let mut pv: Vec<TTMove> = Vec::new();
    let mut current = hash;
    while pv.len() < max_len
        invariant
            tt@.wf(),
            tt@.entries_wf(),
            table.wf(),
            pv@.len() <= max_len,
            spec_principal_variation(table@, tt@, hash, max_len as nat) == pv@
                + spec_principal_variation(table@, tt@, current, (max_len - pv@.len()) as nat),
        decreases max_len - pv@.len(),
    {
        let ghost before = pv@;
        let ghost rest = (max_len - pv@.len()) as nat;
        match tt.get_for_hash(current) {
            Some(entry) => {
                proof {
                    crate::table::find_hash_finds(tt@.bucket_of(current), current, 0);
                    assert(entry.wf());
                }
                if let Some(best_move) = entry.best_move {
                    pv.push(best_move);
                    current = Chessboard::update_hash(current, &best_move, table);
                    assert(before + (seq![best_move] + spec_principal_variation(
                        table@,
                        tt@,
                        current,
                        (rest - 1) as nat,
                    )) =~= pv@ + spec_principal_variation(table@, tt@, current, (rest - 1) as nat));
                } else {
                    assert(before + Seq::<TTMove>::empty() =~= before);
                    return pv;
                }
            },
            None => {
                assert(before + Seq::<TTMove>::empty() =~= before);
                return pv;
            },
        }
    }
    assert(pv@ + Seq::<TTMove>::empty() =~= pv@);
    pv
}

/// A move as it is shown when the search is watched: the piece and the
/// square it moves to.
#[derive(Clone, Copy, Debug)]
pub struct SimpleMove(pub (Piece, [u8; 2]));

/// The letter that stands for a kind of piece in the short form of a move:
/// none for a pawn.
pub open spec fn kind_letter(kind: PieceKind) -> Seq<char> {
    match kind {
        PieceKind::King => seq!['K'],
        PieceKind::Queen => seq!['Q'],
        PieceKind::Rook => seq!['R'],
        PieceKind::Bishop => seq!['B'],
        PieceKind::Knight => seq!['N'],
        PieceKind::Pawn => Seq::empty(),
    }
}

impl SimpleMove {
    /// The short form of the move: the letter of the piece, then the letter
    /// that counts the first coordinate of the square from `a`, then the
    /// second coordinate counted from 1.
    pub open spec fn spec_notation(&self) -> Seq<char> {
        kind_letter(self.0.0.spec_kind()) + seq![(self.0.1[0] + 97) as char] + decimal(
            (self.0.1[1] + 1) as nat,
        )
    }

    /// The short form of the move, such as `Nc3` or `e4`.
    pub fn notation(&self) -> (r: String)
        requires
            self.0.1[0] + 97 <= u8::MAX,
            self.0.1[1] + 1 <= u8::MAX,
        ensures
            r@ == self.spec_notation(),
    {
        let (rank, file) = (self.0.1[0], self.0.1[1]);
        let mut text = String::new();
        match self.0.0 {
            Piece::King(_) => push_char(&mut text, 'K'),
            Piece::Queen(_) => push_char(&mut text, 'Q'),
            Piece::Rook(_) => push_char(&mut text, 'R'),
            Piece::Bishop(_) => push_char(&mut text, 'B'),
            Piece::Knight(_) => push_char(&mut text, 'N'),
            Piece::Pawn(_) => {},
        }
        assert(text@ =~= kind_letter(self.0.0.spec_kind()));
        push_char(&mut text, (rank + 97) as char);
        push_decimal(&mut text, file + 1);
        assert(text@ =~= self.spec_notation());
        text
    }
}

/// The board `b` with `side` to move.
pub open spec fn with_turn(b: BoardState, side: Side) -> BoardState {
    BoardState { turn: side, ..b }
}

/// Zero sum: on a board on which neither side is in check and both sides
/// have a legal move, the worth of the position for Dark to move is the
/// negated worth of the position for Light to move.
pub proof fn evaluation_is_zero_sum(b: BoardState)
    requires
        !in_check(b, Side::Light),
        !in_check(b, Side::Dark),
        has_move(b, Side::Light),
        has_move(b, Side::Dark),
    ensures
        leaf_score(with_turn(b, Side::Dark)) == -leaf_score(with_turn(b, Side::Light)),
        leaf_score(with_turn(b, Side::Light)) == material(b),
{
    reveal(leaf_score);
    let light = with_turn(b, Side::Light);
    let dark = with_turn(b, Side::Dark);
    crate::rules::has_move_ignores_turn(b, light, Side::Light);
    crate::rules::has_move_ignores_turn(b, dark, Side::Dark);
    crate::rules::in_check_ignores_turn(b, light, Side::Light);
    crate::rules::in_check_ignores_turn(b, dark, Side::Dark);
    assert(evaluation(light) == material(b));
    assert(evaluation(dark) == material(b));
}

/// At depth 1 and with a table that holds nothing, each move of the side to
/// move scores as the position after it is worth to the side that made it,
/// with no deeper search, and the table stays empty.
pub proof fn depth_one_scores_are_leaf_scores(
    keys: Seq<u64>,
    tt: TableState,
    b: BoardState,
    moves: Seq<(Piece, [u8; 2])>,
    n: int,
)
    requires
        tt.wf(),
        tt.is_empty(),
        0 <= n <= moves.len(),
    ensures
        root_scores(keys, tt, b, 1, moves, n).1 == tt,
        root_scores(keys, tt, b, 1, moves, n).0.len() == n,
        forall|i: int|
            0 <= i < n ==> #[trigger] root_scores(keys, tt, b, 1, moves, n).0[i] == -leaf_score(
                child(b, moves[i]),
            ),
    decreases n,
{
    if n > 0 {
        depth_one_scores_are_leaf_scores(keys, tt, b, moves, n - 1);
        let position = child(b, moves[n - 1]);
        let hash = fingerprint(keys, position);
        assert(tt.lookup(hash).is_none()) by {
            let bucket = tt.bucket_of(hash);
            assert(tt.bucket_wf(tt.index_of(hash)));
            crate::table::find_hash_finds(bucket, hash, 0);
            if crate::table::find_hash(bucket, hash, 0).is_some() {
                let _ = tt.buckets[tt.index_of(hash)][crate::table::find_hash(
                    bucket,
                    hash,
                    0,
                ).unwrap()];
            }
        }
    }
}

/// A side to move that has no legal move and is not in check is worth 0 to
/// either side; one that has no legal move and is in check is worth a mate
/// against it.
pub proof fn no_move_scores(b: BoardState)
    requires
        !has_move(b, b.turn),
    ensures
        !in_check(b, b.turn) ==> evaluation(b) == 0 && leaf_score(b) == 0,
        in_check(b, b.turn) ==> leaf_score(b) == -MATE_SCORE,
{
    reveal(leaf_score);
}

/// The position that the search looks at after a legal move of the side to
/// move is well-formed, has the other side to move and leaves the side that
/// moved out of check.
pub proof fn children_are_positions(b: BoardState, idx: int)
    requires
        b.wf(),
        0 <= idx < possible_moves(b, b.turn).len(),
    ensures
        child(b, possible_moves(b, b.turn)[idx]).wf(),
        child(b, possible_moves(b, b.turn)[idx]).turn == b.turn.spec_other(),
        !in_check(child(b, possible_moves(b, b.turn)[idx]), b.turn),
{
    reveal(child);
    let (p, end) = possible_moves(b, b.turn)[idx];
    possible_moves_are_legal(b, b.turn, idx);
    crate::lifting::listed_moves_are_made(b, idx);
    crate::rules::after_move_wf(
        b,
        p,
        crate::rules::legal_move(b, p, end, true, Some(PieceKind::Queen)),
        end,
        Some(PieceKind::Queen),
    );
}

/// The worth of a position lies between a mate against the side to move and
/// a mate for it, and only a mate is worth a mate.
pub proof fn leaf_score_is_bounded(b: BoardState)
    ensures
        -MATE_SCORE <= leaf_score(b) <= MATE_SCORE,
        leaf_score(b) == -MATE_SCORE <==> game_state(b, b.turn) == Checkmate::Checkmate,
{
    reveal(leaf_score);
    material_is_bounded(b.squares, 64);
}

/// A position in which the side to move has no legal move and is not in
/// check searches to 0 at any depth and in any window, and leaves the table
/// as it is, unless the table answers for its fingerprint.
pub proof fn stalemate_searches_to_zero(
    keys: Seq<u64>,
    tt: TableState,
    b: BoardState,
    depth: u8,
    alpha: int,
    beta: int,
)
    requires
        !has_move(b, b.turn),
        !in_check(b, b.turn),
        tt.lookup(fingerprint(keys, b)).is_none(),
    ensures
        negamax(keys, tt, b, depth, alpha, beta) == (0int, tt),
{
    no_move_scores(b);
    crate::rules::has_move_iff_possible(b, b.turn);
}

/// At depth 1 and with a table that holds nothing, the search mates where a
/// legal move mates: the side to move in the position after the move chosen
/// is mated.
pub proof fn depth_one_finds_mate(keys: Seq<u64>, tt: TableState, b: BoardState, mating: int)
    requires
        tt.wf(),
        tt.is_empty(),
        0 <= mating < possible_moves(b, b.turn).len(),
        game_state(
            child(b, possible_moves(b, b.turn)[mating]),
            child(b, possible_moves(b, b.turn)[mating]).turn,
        ) == Checkmate::Checkmate,
    ensures
        possible_moves(b, b.turn).contains(best_move(keys, tt, b, 1)),
        game_state(
            child(b, best_move(keys, tt, b, 1)),
            child(b, best_move(keys, tt, b, 1)).turn,
        ) == Checkmate::Checkmate,
{
    let moves = possible_moves(b, b.turn);
    let n = moves.len() as int;
    let scores = root_scores(keys, tt, b, 1, moves, n).0;
    depth_one_scores_are_leaf_scores(keys, tt, b, moves, n);
    first_max_is_first_largest(scores, n);
    let best = first_max(scores, n);
    leaf_score_is_bounded(child(b, moves[mating]));
    leaf_score_is_bounded(child(b, moves[best]));
    assert(scores[mating] == MATE_SCORE);
    assert(scores[best] == -leaf_score(child(b, moves[best])));
}

} // verus!
