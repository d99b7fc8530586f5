//! Position fingerprints: the exclusive-or of one random key for each piece
//! on its square.

use crate::chessboard::{pos_on_board, square_index, BoardState, Chessboard};
use crate::piece::{MoveType, Piece, PieceKind, Side};
use crate::rules::after_move;
use crate::table::TTMove;
use rand::Rng;
use vstd::prelude::*;

verus! {

/// Number of keys of a table: one for each of 64 squares and 12 pieces.
pub const KEY_COUNT: usize = 768;

/// The number, from 0 to 11, that stands for a piece's kind and side: pawn,
/// rook, knight, bishop, queen, king of Light, then those of Dark.
pub open spec fn spec_piece_id(p: Piece) -> int {
    let kind: int = match p {
        Piece::Pawn(_) => 0,
        Piece::Rook(_) => 1,
        Piece::Knight(_) => 2,
        Piece::Bishop(_) => 3,
        Piece::Queen(_) => 4,
        Piece::King(_) => 5,
    };
    match p.side() {
        Side::Light => kind,
        Side::Dark => kind + 6,
    }
}

/// The number, from 0 to 11, that stands for the piece's kind and side.
pub fn piece_id(p: &Piece) -> (r: usize)
    ensures
        r == spec_piece_id(*p),
        r < 12,
{
    let kind: usize = match p {
        Piece::Pawn(_) => 0,
        Piece::Rook(_) => 1,
        Piece::Knight(_) => 2,
        Piece::Bishop(_) => 3,
        Piece::Queen(_) => 4,
        Piece::King(_) => 5,
    };
    match p.data().side {
        Side::Light => kind,
        Side::Dark => kind + 6,
    }
}

/// The keys from which fingerprints are made. A program makes one table and
/// uses it for every fingerprint it compares.
pub struct ZobristTable {
    /// The key of piece `id` on square `sq` stands at index `sq * 12 + id`.
    pub keys: Vec<u64>,
}

impl View for ZobristTable {
    type V = Seq<u64>;

    open spec fn view(&self) -> Seq<u64> {
        self.keys@
    }
}

/// The key of piece `id` on square `sq`.
pub open spec fn key(keys: Seq<u64>, sq: int, id: int) -> u64 {
    keys[sq * 12 + id]
}

/// What square `sq` adds to a fingerprint: the key of the piece on it, or
/// nothing.
pub open spec fn square_key(keys: Seq<u64>, sq: int, content: Option<Piece>) -> u64 {
    match content {
        Some(p) => key(keys, sq, spec_piece_id(p)),
        None => 0,
    }
}

/// The exclusive-or of the keys of the pieces on the first `n` squares.
pub open spec fn fingerprint_upto(keys: Seq<u64>, squares: Seq<Option<Piece>>, n: int) -> u64
    decreases n,
{
    if n <= 0 {
        0
    } else {
        fingerprint_upto(keys, squares, n - 1) ^ square_key(keys, n - 1, squares[n - 1])
    }
}

/// The fingerprint of a board: the exclusive-or of the keys of its pieces,
/// each on its square.
pub open spec fn fingerprint(keys: Seq<u64>, b: BoardState) -> u64 {
    fingerprint_upto(keys, b.squares, 64)
}

/// The fingerprint `prev` with the keys of piece `m.piece_id` on `m.start_pos`
/// and on `m.end_pos` folded in.
pub open spec fn updated_fingerprint(keys: Seq<u64>, prev: u64, m: TTMove) -> u64 {
    prev ^ key(
        keys,
        square_index(m.start_pos[0] as int, m.start_pos[1] as int),
        m.piece_id as int,
    ) ^ key(keys, square_index(m.end_pos[0] as int, m.end_pos[1] as int), m.piece_id as int)
}

/// One random 64-bit number: `rand::Rng::gen::<u64>` on the generator that
/// `rand::thread_rng` hands out for the current thread. Nothing is claimed of
/// the number, which differs from call to call. The generator panics where
/// the system gives it no entropy to start from.
#[verifier::external_body]
fn random_u64() -> u64 {
    rand::thread_rng().gen::<u64>()
}

impl ZobristTable {
    /// A table holds one key for each square and piece.
    pub open spec fn wf(&self) -> bool {
        self@.len() == KEY_COUNT
    }

    /// A table of random keys.
    pub fn random() -> (r: ZobristTable)
        ensures
            r.wf(),
    {
        let mut keys: Vec<u64> = Vec::new();
        let mut i: usize = 0;
        while i < KEY_COUNT
            invariant
                i <= KEY_COUNT,
                keys@.len() == i,
            decreases KEY_COUNT - i,
        {
            keys.push(random_u64());
            i += 1;
        }
        ZobristTable { keys }
    }
}

impl Chessboard {
    /// The fingerprint of the board under the keys of `table`.
    pub fn zobrist_hash(&self, table: &ZobristTable) -> (r: u64)
        requires
            self@.squares.len() == 64,
            table.wf(),
        ensures
            r == fingerprint(table@, self@),
    {
        let mut result = 0u64;
        let mut sq: usize = 0;
        while sq < 64
            invariant
                sq <= 64,
                self@.squares.len() == 64,
                table.wf(),
                result == fingerprint_upto(table@, self@.squares, sq as int),
            decreases 64 - sq,
        {
            if let Some(piece) = self.pieces[sq].as_ref() {
                result ^= table.keys[sq * 12 + piece_id(piece)];
            } else {
                assert(result ^ 0 == result) by (bit_vector);
            }
            sq += 1;
        }
        result
    }

    /// The fingerprint after the move `m`, made from the fingerprint `prev`
    /// before it. The two agree with `zobrist_hash` for a move that only
    /// takes a piece from one square to an empty one.
    pub fn update_hash(prev: u64, m: &TTMove, table: &ZobristTable) -> (r: u64)
        requires
            table.wf(),
            m.wf(),
        ensures
            r == updated_fingerprint(table@, prev, *m),
    {
        let mut prev = prev;
        prev ^= table.keys[(m.start_pos[0] * 8 + m.start_pos[1]) as usize * 12 + m.piece_id];
        prev ^= table.keys[(m.end_pos[0] * 8 + m.end_pos[1]) as usize * 12 + m.piece_id];
        prev
    }
}

/// Changing what stands on one square changes the exclusive-or over the
/// squares by the key of what stood there and the key of what stands there.
pub proof fn fingerprint_of_update(
    keys: Seq<u64>,
    squares: Seq<Option<Piece>>,
    i: int,
    content: Option<Piece>,
    n: int,
)
    requires
        0 <= i < squares.len(),
        n <= squares.len(),
    ensures
        fingerprint_upto(keys, squares.update(i, content), n) == (if i < n {
            fingerprint_upto(keys, squares, n) ^ square_key(keys, i, squares[i]) ^ square_key(
                keys,
                i,
                content,
            )
        } else {
            fingerprint_upto(keys, squares, n)
        }),
    decreases n,
{
    if n > 0 {
        fingerprint_of_update(keys, squares, i, content, n - 1);
        let a = fingerprint_upto(keys, squares, n - 1);
        let o = square_key(keys, i, squares[i]);
        let c = square_key(keys, i, content);
        let k = square_key(keys, n - 1, squares[n - 1]);
        if i == n - 1 {
            assert(a ^ c == ((a ^ o) ^ o) ^ c) by (bit_vector);
        } else if i < n - 1 {
            assert(((a ^ o) ^ c) ^ k == ((a ^ k) ^ o) ^ c) by (bit_vector);
        }
    }
}

/// The board on which the piece that stands on `from` stands on the empty
/// square `to` instead, and nothing else differs.
pub open spec fn relocated(b: BoardState, from: [u8; 2], to: [u8; 2]) -> BoardState {
    b.put(from[0] as int, from[1] as int, None).put(
        to[0] as int,
        to[1] as int,
        Some(b.at(from[0] as int, from[1] as int).unwrap().moved_to(to)),
    )
}

/// The fingerprint of a board on which one piece stands on another square is
/// the fingerprint before, with the piece's keys on the two squares folded
/// in.
pub proof fn fingerprint_of_relocated(keys: Seq<u64>, b: BoardState, from: [u8; 2], to: [u8; 2])
    requires
        b.squares.len() == 64,
        pos_on_board(from),
        pos_on_board(to),
        b.at(from[0] as int, from[1] as int).is_some(),
        b.at(to[0] as int, to[1] as int).is_none(),
    ensures
        fingerprint(keys, relocated(b, from, to)) == updated_fingerprint(
            keys,
            fingerprint(keys, b),
            TTMove {
                piece_id: spec_piece_id(b.at(from[0] as int, from[1] as int).unwrap()) as usize,
                start_pos: from,
                end_pos: to,
            },
        ),
{
    let piece = b.at(from[0] as int, from[1] as int).unwrap();
    let f = square_index(from[0] as int, from[1] as int);
    let t = square_index(to[0] as int, to[1] as int);
    let lifted = b.squares.update(f, None);
    fingerprint_of_update(keys, b.squares, f, None, 64);
    fingerprint_of_update(keys, lifted, t, Some(piece.moved_to(to)), 64);
    assert(relocated(b, from, to).squares == lifted.update(t, Some(piece.moved_to(to))));
    let a = fingerprint(keys, b);
    let kf = key(keys, f, spec_piece_id(piece));
    let kt = key(keys, t, spec_piece_id(piece));
    assert((((a ^ kf) ^ 0) ^ 0) ^ kt == (a ^ kf) ^ kt) by (bit_vector);
}

/// Incremental update: for a move that takes nothing and is neither
/// castling, en passant nor a promotion, the fingerprint of the board after
/// the move is the one that `update_hash` makes from the fingerprint before.
pub proof fn update_hash_matches_plain_move(
    keys: Seq<u64>,
    b: BoardState,
    piece: Piece,
    t: MoveType,
    end: [u8; 2],
    promotion: Option<PieceKind>,
)
    requires
        b.wf(),
        pos_on_board(piece.spec_data().position),
        pos_on_board(end),
        b.at(piece.file(), piece.rank()) == Some(piece),
        b.at(end[0] as int, end[1] as int).is_none(),
        t == MoveType::Regular || t == MoveType::Doublestep,
    ensures
        fingerprint(keys, after_move(b, piece, t, end, promotion)) == updated_fingerprint(
            keys,
            fingerprint(keys, b),
            TTMove {
                piece_id: spec_piece_id(piece) as usize,
                start_pos: piece.spec_data().position,
                end_pos: end,
            },
        ),
{
    let from = piece.spec_data().position;
    fingerprint_of_relocated(keys, b, from, end);
    assert(after_move(b, piece, t, end, promotion).squares == relocated(b, from, end).squares);
}

/// Sensitivity: two boards that differ in the square of one piece have
/// different fingerprints exactly where the piece's keys on the two squares
/// differ.
pub proof fn relocation_changes_fingerprint(
    keys: Seq<u64>,
    b: BoardState,
    from: [u8; 2],
    to: [u8; 2],
)
    requires
        b.squares.len() == 64,
        pos_on_board(from),
        pos_on_board(to),
        b.at(from[0] as int, from[1] as int).is_some(),
        b.at(to[0] as int, to[1] as int).is_none(),
    ensures
        fingerprint(keys, relocated(b, from, to)) != fingerprint(keys, b) <==> key(
            keys,
            square_index(from[0] as int, from[1] as int),
            spec_piece_id(b.at(from[0] as int, from[1] as int).unwrap()),
        ) != key(
            keys,
            square_index(to[0] as int, to[1] as int),
            spec_piece_id(b.at(from[0] as int, from[1] as int).unwrap()),
        ),
{
    let piece = b.at(from[0] as int, from[1] as int).unwrap();
    fingerprint_of_relocated(keys, b, from, to);
    let a = fingerprint(keys, b);
    let kf = key(keys, square_index(from[0] as int, from[1] as int), spec_piece_id(piece));
    let kt = key(keys, square_index(to[0] as int, to[1] as int), spec_piece_id(piece));
    assert(((a ^ kf) ^ kt != a) <==> (kf != kt)) by (bit_vector);
}

} // verus!
