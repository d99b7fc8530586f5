//! The board: which piece stands on which square, whose turn it is, and the
//! rights that depend on how the game went.

use crate::castle::CastleRights;
use crate::piece::{MoveType, Piece, PieceData, PieceKind, Side};
use crate::rules::{
    after_move, after_move_wf, after_try, applicable, attacked, attacks_from, candidate,
    game_state, in_check, legal_move_applicable, move_result, moves_upto, moves_upto_skips,
    possible_moves, rights_after, rook_final_square, rook_init_square, square_at, tried_move,
    try_promotes,
};
use vstd::prelude::*;
use vstd::string::StrSliceExecFns;

verus! {

/// Whether `pos` names a square of the board.
pub open spec fn pos_on_board(pos: [u8; 2]) -> bool {
    pos[0] < 8 && pos[1] < 8
}

/// Whether `(file, rank)` names a square of the board.
pub open spec fn on_board_at(file: int, rank: int) -> bool {
    0 <= file < 8 && 0 <= rank < 8
}

/// The index of the square `(file, rank)` among the 64 squares.
pub open spec fn square_index(file: int, rank: int) -> int {
    file * 8 + rank
}

/// The mathematical model of a board.
pub struct BoardState {
    /// The 64 squares, the square `(file, rank)` at index `file * 8 + rank`.
    pub squares: Seq<Option<Piece>>,
    /// The square of the pawn that has just advanced two ranks, if one has.
    pub en_passant: Option<[u8; 2]>,
    /// The side to move.
    pub turn: Side,
    pub light_castle: CastleRights,
    pub dark_castle: CastleRights,
}

impl BoardState {
    /// There are 64 squares, and every piece records the square it stands on.
    pub open spec fn wf(self) -> bool {
        &&& self.squares.len() == 64
        &&& forall|i: int|
            0 <= i < 64 ==> match #[trigger] self.squares[i] {
                Some(p) => p.file() == i / 8 && p.rank() == i % 8,
                None => true,
            }
    }

    /// The piece on `(file, rank)`; none off the board.
    pub open spec fn at(self, file: int, rank: int) -> Option<Piece> {
        if on_board_at(file, rank) {
            self.squares[square_index(file, rank)]
        } else {
            None
        }
    }

    /// The board with `(file, rank)` holding `content`; the board itself
    /// where that is no square of it.
    pub open spec fn put(self, file: int, rank: int, content: Option<Piece>) -> BoardState {
        if on_board_at(file, rank) {
            BoardState { squares: self.squares.update(square_index(file, rank), content), ..self }
        } else {
            self
        }
    }

    /// The castling rights of `side`.
    pub open spec fn castle_rights(self, side: Side) -> CastleRights {
        match side {
            Side::Light => self.light_castle,
            Side::Dark => self.dark_castle,
        }
    }

    /// The board with the rights of `side` set to `rights`.
    pub open spec fn with_castle_rights(self, side: Side, rights: CastleRights) -> BoardState {
        match side {
            Side::Light => BoardState { light_castle: rights, ..self },
            Side::Dark => BoardState { dark_castle: rights, ..self },
        }
    }

    /// The first king of `side` among the squares from index `from` on.
    pub open spec fn king_from(self, side: Side, from: int) -> Option<Piece>
        decreases 64 - from,
    {
        if from < 0 || from >= 64 {
            None
        } else {
            match self.squares[from] {
                Some(Piece::King(data)) if data.side == side => Some(Piece::King(data)),
                _ => self.king_from(side, from + 1),
            }
        }
    }

    /// The king of `side`: the first one in the order of the squares.
    pub open spec fn king(self, side: Side) -> Option<Piece> {
        self.king_from(side, 0)
    }

    /// The pieces among the first `n` squares, in the order of the squares.
    pub open spec fn pieces_upto(self, n: int) -> Seq<Piece>
        decreases n,
    {
        if n <= 0 {
            Seq::empty()
        } else {
            match self.squares[n - 1] {
                Some(p) => self.pieces_upto(n - 1).push(p),
                None => self.pieces_upto(n - 1),
            }
        }
    }

    /// All pieces on the board, in the order of the squares.
    pub open spec fn pieces(self) -> Seq<Piece> {
        self.pieces_upto(64)
    }
}

/// What a move did: the piece that moved, as it stands after the move, and
/// what it took or moved along.
#[derive(PartialEq, Debug, Clone, Copy)]
pub enum MoveResult {
    Invalid,
    Regular(Piece),
    Capture { moved: Piece, captured: Piece },
    Castle { king: Piece, rook: Piece, rook_init_pos: [u8; 2] },
    EnPassant { moved: Piece, captured: Piece },
    PawnPromotion(Piece),
    PawnPromotionCapture { moved: Piece, captured: Piece },
}

/// A board. The square `[file, rank]` is held at index `file * 8 + rank`.
pub struct Chessboard {
    pub pieces: Vec<Option<Piece>>,
    pub en_passant: Option<[u8; 2]>,
    pub turn: Side,
    pub light_castle: CastleRights,
    pub dark_castle: CastleRights,
}

impl View for Chessboard {
    type V = BoardState;

    open spec fn view(&self) -> BoardState {
        BoardState {
            squares: self.pieces@,
            en_passant: self.en_passant,
            turn: self.turn,
            light_castle: self.light_castle,
            dark_castle: self.dark_castle,
        }
    }
}

/// Whether the game is over for a side, and how.
#[derive(Debug, PartialEq, Eq, Structural, Clone, Copy)]
pub enum Checkmate {
    Nothing,
    Checkmate,
    Stalemate,
}

impl Chessboard {
    /// A board without pieces, castling rights or en-passant square.
    pub fn empty(turn: Side) -> (r: Chessboard)
        ensures
            r@.wf(),
            forall|i: int| 0 <= i < 64 ==> r@.squares[i].is_none(),
            r@.en_passant.is_none(),
            r@.turn == turn,
            r@.light_castle == CastleRights::NoRights,
            r@.dark_castle == CastleRights::NoRights,
    {
        let mut pieces: Vec<Option<Piece>> = Vec::new();
        let mut i: usize = 0;
        while i < 64
            invariant
                i <= 64,
                pieces@.len() == i,
                forall|k: int| 0 <= k < i ==> pieces@[k].is_none(),
            decreases 64 - i,
        {
            pieces.push(None);
            i += 1;
        }
        Chessboard {
            pieces,
            en_passant: None,
            turn,
            light_castle: CastleRights::NoRights,
            dark_castle: CastleRights::NoRights,
        }
    }

    /// The castling rights of `side`.
    pub fn castle_rights(&self, side: Side) -> (r: CastleRights)
        ensures
            r == self@.castle_rights(side),
    {
        match side {
            Side::Light => self.light_castle,
            Side::Dark => self.dark_castle,
        }
    }

    /// The square that `pos` names, if it names one of the board.
    pub fn on_board(pos: [i8; 2]) -> (r: Option<[u8; 2]>)
        ensures
            match r {
                Some(p) => on_board_at(pos[0] as int, pos[1] as int) && p[0] == pos[0] && p[1]
                    == pos[1],
                None => !on_board_at(pos[0] as int, pos[1] as int),
            },
    {
        if pos[0] >= 0 && pos[1] >= 0 && pos[0] < crate::BOARD_SIZE as i8 && pos[1]
            < crate::BOARD_SIZE as i8 {
            return Some([pos[0] as u8, pos[1] as u8]);
        }
        None
    }

    /// The piece on the square `pos`; none off the board.
    #[inline(always)]
    pub fn piece_at(&self, pos: [u8; 2]) -> (r: Option<&Piece>)
        requires
            self@.squares.len() == 64,
        ensures
            match r {
                Some(p) => self@.at(pos[0] as int, pos[1] as int) == Some(*p),
                None => self@.at(pos[0] as int, pos[1] as int).is_none(),
            },
    {
        if pos[0] < 8 && pos[1] < 8 {
            self.pieces[(pos[0] as usize) * 8 + (pos[1] as usize)].as_ref()
        } else {
            None
        }
    }

    /// Puts the piece on the square `pos`, without any checks, and returns
    /// the piece it might have replaced.
    pub fn insert(&mut self, pos: [u8; 2], piece: Piece) -> (r: Option<Piece>)
        requires
            old(self)@.squares.len() == 64,
            pos_on_board(pos),
        ensures
            final(self)@ == old(self)@.put(pos[0] as int, pos[1] as int, Some(piece)),
            r == old(self)@.at(pos[0] as int, pos[1] as int),
    {
        let idx = (pos[0] as usize) * 8 + (pos[1] as usize);
        let previous = self.pieces[idx];
        self.pieces[idx] = Some(piece);
        previous
    }

    /// Takes away whatever stands on the square `pos`, and returns it.
    pub fn remove(&mut self, pos: [u8; 2]) -> (r: Option<Piece>)
        requires
            old(self)@.squares.len() == 64,
        ensures
            final(self)@ == old(self)@.put(pos[0] as int, pos[1] as int, None),
            r == old(self)@.at(pos[0] as int, pos[1] as int),
    {
        if pos[0] < 8 && pos[1] < 8 {
            let idx = (pos[0] as usize) * 8 + (pos[1] as usize);
            let previous = self.pieces[idx];
            self.pieces[idx] = None;
            previous
        } else {
            None
        }
    }

    /// Takes both castling rights from `side`.
    pub(crate) fn remove_all_castle_rights(&mut self, side: Side)
        ensures
            final(self)@ == old(self)@.with_castle_rights(side, CastleRights::NoRights),
    {
        match side {
            Side::Light => self.light_castle = self.light_castle.remove_rights(CastleRights::Both),
            Side::Dark => self.dark_castle = self.dark_castle.remove_rights(CastleRights::Both),
        }
    }

    /// Sets the castling rights of `side`.
    pub(crate) fn set_castle_rights(&mut self, side: Side, rights: CastleRights)
        ensures
            final(self)@ == old(self)@.with_castle_rights(side, rights),
    {
        match side {
            Side::Light => self.light_castle = rights,
            Side::Dark => self.dark_castle = rights,
        }
    }
}

impl Clone for Chessboard {
    fn clone(&self) -> (r: Chessboard)
        ensures
            r@ == self@,
    {
        let mut pieces: Vec<Option<Piece>> = Vec::new();
        let mut i: usize = 0;
        while i < self.pieces.len()
            invariant
                i <= self.pieces@.len(),
                pieces@ == self.pieces@.take(i as int),
            decreases self.pieces@.len() - i,
        {
            pieces.push(self.pieces[i]);
            i += 1;
        }
        assert(pieces@ == self.pieces@);
        Chessboard {
            pieces,
            en_passant: self.en_passant,
            turn: self.turn,
            light_castle: self.light_castle,
            dark_castle: self.dark_castle,
        }
    }
}

impl Chessboard {
    /// The pieces on the board, in the order of the squares.
    pub fn pieces(&self) -> (r: Vec<Piece>)
        requires
            self@.squares.len() == 64,
        ensures
            r@ == self@.pieces(),
    {
        let mut found: Vec<Piece> = Vec::new();
        let mut i: usize = 0;
        while i < 64
            invariant
                i <= 64,
                self@.squares.len() == 64,
                found@ == self@.pieces_upto(i as int),
            decreases 64 - i,
        {
            if let Some(piece) = self.pieces[i] {
                found.push(piece);
            }
            i += 1;
        }
        found
    }

    /// The king of `side`: the first one in the order of the squares.
    pub fn king(&self, side: Side) -> (r: Option<&Piece>)
        requires
            self@.squares.len() == 64,
        ensures
            match r {
                Some(k) => self@.king(side) == Some(*k),
                None => self@.king(side).is_none(),
            },
    {
        let mut i: usize = 0;
        while i < 64
            invariant
                i <= 64,
                self@.squares.len() == 64,
                self@.king(side) == self@.king_from(side, i as int),
            decreases 64 - i,
        {
            if let Some(piece) = self.pieces[i].as_ref() {
                if let Piece::King(data) = piece {
                    if data.side == side {
                        return Some(piece);
                    }
                }
            }
            i += 1;
        }
        None
    }

    /// Whether some piece of the other side could take `king` where it
    /// stands.
    pub fn is_king_in_check(&self, king: &Piece) -> (r: bool)
        requires
            self@.wf(),
            pos_on_board(king.spec_data().position),
        ensures
            r == attacked(self@, king.side(), king.file(), king.rank()),
    {
        let target = king.data().position;
        let side = king.data().side;
        let mut i: usize = 0;
        while i < 64
            invariant
                i <= 64,
                self@.wf(),
                pos_on_board(target),
                target == king.spec_data().position,
                side == king.side(),
                forall|k: int|
                    0 <= k < i ==> !attacks_from(
                        self@,
                        k,
                        side,
                        target[0] as int,
                        target[1] as int,
                    ),
            decreases 64 - i,
        {
            if let Some(piece) = self.pieces[i].as_ref() {
                assert(self@.squares[i as int] == Some(*piece));
                if piece.data().side != side {
                    let move_type = piece.shape_of_move(self, target);
                    if let MoveType::Capture | MoveType::PawnPromotionCapture = move_type {
                        assert(attacks_from(
                            self@,
                            i as int,
                            side,
                            target[0] as int,
                            target[1] as int,
                        ));
                        return true;
                    }
                }
            }
            i += 1;
        }
        false
    }

    /// Whether the king of `side` could be taken. A side without a king is
    /// not in check.
    pub fn is_side_in_check(&self, side: Side) -> (r: bool)
        requires
            self@.wf(),
        ensures
            r == in_check(self@, side),
    {
        match self.king(side) {
            Some(king) => {
                proof {
                    self@.king_is_on_board(side);
                }
                self.is_king_in_check(king)
            },
            None => false,
        }
    }
}

impl BoardState {
    /// On a well-formed board the king that `king_from` finds is a king of
    /// `side` that stands on a square of the board.
    pub proof fn king_from_is_on_board(self, side: Side, from: int)
        requires
            self.wf(),
            0 <= from,
        ensures
            match self.king_from(side, from) {
                Some(k) => k is King && k.side() == side && on_board_at(k.file(), k.rank())
                    && self.at(k.file(), k.rank()) == Some(k),
                None => true,
            },
        decreases 64 - from,
    {
        if from < 64 {
            match self.squares[from] {
                Some(Piece::King(data)) if data.side == side => {
                    assert(square_index(from / 8, from % 8) == from);
                },
                _ => {
                    self.king_from_is_on_board(side, from + 1);
                },
            }
        }
    }

    /// On a well-formed board the king of a side is a king of that side and
    /// stands where it says.
    pub proof fn king_is_on_board(self, side: Side)
        requires
            self.wf(),
        ensures
            match self.king(side) {
                Some(k) => k is King && k.side() == side && on_board_at(k.file(), k.rank())
                    && self.at(k.file(), k.rank()) == Some(k),
                None => true,
            },
    {
        self.king_from_is_on_board(side, 0);
    }
}

impl Chessboard {
    /// Takes from the mover's side the castling rights that a plain move or
    /// a capture by `piece` gives up.
    fn give_up_rights(&mut self, piece: &Piece)
        ensures
            final(self)@ == old(self)@.with_castle_rights(
                piece.side(),
                rights_after(old(self)@, *piece),
            ),
    {
        match piece {
            Piece::King(data) => self.remove_all_castle_rights(data.side),
            Piece::Rook(data) => {
                let to_remove = CastleRights::castle_rights_for_rook(piece);
                // if it returned an error, don't worry about it.
                // it probably means that it's already been dealt with earlier.
                if let Ok(rights) = to_remove {
                    let left = self.castle_rights(data.side).remove_rights(rights);
                    self.set_castle_rights(data.side, left);
                }
            },
            _ => {},
        };
        assert(final(self)@ =~= old(self)@.with_castle_rights(
            piece.side(),
            rights_after(old(self)@, *piece),
        ));
    }

    /// Carries out a move of type `move_type` of `piece` to `end_pos`,
    /// whatever stands on the piece's own square, and reports what it did. An
    /// invalid move puts the piece back and changes nothing else.
    pub fn apply_move(
        &mut self,
        piece: Piece,
        move_type: MoveType,
        end_pos: [u8; 2],
        promotion: Option<PieceKind>,
    ) -> (r: MoveResult)
        requires
            old(self)@.squares.len() == 64,
            pos_on_board(piece.spec_data().position),
            pos_on_board(end_pos),
            applicable(old(self)@, piece, move_type, end_pos, promotion),
        ensures
            final(self)@ == after_move(old(self)@, piece, move_type, end_pos, promotion),
            r == move_result(old(self)@, piece, move_type, end_pos, promotion),
            old(self)@.wf() ==> final(self)@.wf(),
    {
        let mut piece = piece;
        let ghost b = self@;
        let ghost given = piece;
        proof {
            if b.wf() {
                after_move_wf(b, piece, move_type, end_pos, promotion);
            }
        }
        self.remove(piece.data().position);
        match move_type {
            MoveType::Invalid => {
                self.insert(piece.data().position, piece);
                MoveResult::Invalid
            },
            MoveType::Capture => {
                self.give_up_rights(&piece);
                piece.data_mut().position = end_pos;
                let captured = self.insert(end_pos, piece).unwrap();
                self.en_passant = None;
                self.turn = self.turn.other();
                assert(self@ =~= after_move(b, given, move_type, end_pos, promotion));
                MoveResult::Capture { moved: piece, captured }
            },
            MoveType::Regular => {
                self.give_up_rights(&piece);
                piece.data_mut().position = end_pos;
                self.en_passant = None;
                self.turn = self.turn.other();
                self.insert(end_pos, piece);
                assert(self@ =~= after_move(b, given, move_type, end_pos, promotion));
                MoveResult::Regular(piece)
            },
            MoveType::Doublestep => {
                piece.data_mut().position = end_pos;
                self.en_passant = Some(piece.data().position);
                self.turn = self.turn.other();
                self.insert(end_pos, piece);
                assert(self@ =~= after_move(b, given, move_type, end_pos, promotion));
                MoveResult::Regular(piece)
            },
            MoveType::EnPassant => {
                piece.data_mut().position = end_pos;
                self.insert(end_pos, piece);  // this should not return anything
                let captured = self.remove(self.en_passant.unwrap()).unwrap();
                self.en_passant = None;
                self.turn = self.turn.other();
                assert(self@ =~= after_move(b, given, move_type, end_pos, promotion));
                MoveResult::EnPassant { moved: piece, captured }
            },
            MoveType::Castle => {
                let side = piece.data().side;
                let castle_type = self.castle_rights(side).check_end_pos(end_pos, side);
                let rook_pos = castle_type.rook_init_pos(side).unwrap();
                // move the king
                piece.data_mut().position = end_pos;
                let mut rook = self.remove(rook_pos).unwrap();
                let rook_end_pos = castle_type.rook_final_pos(side).unwrap();
                assert(rook_end_pos =~= rook_final_square(castle_type, side));
                assert(rook_pos =~= rook_init_square(castle_type, side));
                rook.data_mut().position = rook_end_pos;
                self.en_passant = None;
                // we can only castle once
                self.remove_all_castle_rights(side);
                self.insert(rook_end_pos, rook);
                self.insert(end_pos, piece);
                self.turn = self.turn.other();
                assert(self@ =~= after_move(b, given, move_type, end_pos, promotion));
                MoveResult::Castle { king: piece, rook, rook_init_pos: rook_pos }
            },
            MoveType::PawnPromotion => {
                if let Piece::Pawn(data) = piece {
                    piece = Piece::of_kind(promotion.unwrap(), data);
                }
                piece.data_mut().position = end_pos;
                self.en_passant = None;
                self.insert(end_pos, piece);
                self.turn = self.turn.other();
                assert(self@ =~= after_move(b, given, move_type, end_pos, promotion));
                MoveResult::PawnPromotion(piece)
            },
            MoveType::PawnPromotionCapture => {
                if let Piece::Pawn(data) = piece {
                    piece = Piece::of_kind(promotion.unwrap(), data);
                }
                piece.data_mut().position = end_pos;
                let captured = self.insert(end_pos, piece).unwrap();
                self.en_passant = None;
                self.turn = self.turn.other();
                assert(self@ =~= after_move(b, given, move_type, end_pos, promotion));
                MoveResult::PawnPromotionCapture { moved: piece, captured }
            },
        }
    }
}

impl Chessboard {
    /// Moves the piece that stands where `piece_ref` stands to `end_pos`, if
    /// it is its side's turn and the rules allow the move, and reports what
    /// the move did. Otherwise the board stays as it is and the result is
    /// `Invalid`.
    pub fn try_move(
        &mut self,
        piece_ref: &Piece,
        end_pos: [u8; 2],
        promotion: Option<PieceKind>,
    ) -> (r: MoveResult)
        requires
            old(self)@.wf(),
            pos_on_board(end_pos),
            old(self)@.at(piece_ref.file(), piece_ref.rank()).is_some(),
            try_promotes(old(self)@, piece_ref.spec_data().position, end_pos)
                ==> promotion.is_some(),
        ensures
            final(self)@ == after_try(
                old(self)@,
                piece_ref.spec_data().position,
                end_pos,
                promotion,
            ),
            r == move_result(
                old(self)@.put(piece_ref.file(), piece_ref.rank(), None),
                old(self)@.at(piece_ref.file(), piece_ref.rank()).unwrap(),
                tried_move(old(self)@, piece_ref.spec_data().position, end_pos, promotion),
                end_pos,
                promotion,
            ),
            final(self)@.wf(),
    {
        // get the copy on the board. We can't be certain that piece_ref is that copy.
        let piece = self.remove(piece_ref.data().position).unwrap();
        assert(piece.file() == piece_ref.file() && piece.rank() == piece_ref.rank()) by {
            assert(square_index(piece_ref.file(), piece_ref.rank()) / 8 == piece_ref.file());
            assert(square_index(piece_ref.file(), piece_ref.rank()) % 8 == piece_ref.rank());
        }
        let move_type = if piece.data().side != self.turn {
            // if it's not your turn, it doesn't matter, it's already invalid.
            MoveType::Invalid
        } else {
            proof {
                legal_move_applicable(self@, piece, end_pos, true, promotion);
            }
            piece.can_move(self, end_pos, true, promotion)
        };
        self.apply_move(piece, move_type, end_pos, promotion)
    }

    /// Whether the piece on square `s` may move to `[i, j]`.
    fn may_move(&self, piece: &Piece, s: usize, i: u8, j: u8) -> (r: bool)
        requires
            self@.wf(),
            s < 64,
            i < 8,
            j < 8,
            self@.squares[s as int] == Some(*piece),
        ensures
            candidate(self@, piece.side(), s * 64 + i * 8 + j) == (if r {
                Some((*piece, [i, j]))
            } else {
                None
            }),
    {
        let ghost k = s * 64 + i * 8 + j;
        assert(k / 64 == s && k % 64 == i * 8 + j);
        assert([i, j] =~= square_at(k % 64));
        assert(square_index(s as int / 8, s as int % 8) == s);
        reveal(candidate);
        let move_type = piece.can_move(self, [i, j], true, Some(PieceKind::Queen));
        move_type != MoveType::Invalid
    }

    /// The legal moves of `side`, each as the piece and the square it moves
    /// to: by the square moved from, then by the square moved to.
    pub fn possible_moves(&self, side: Side) -> (r: Vec<(Piece, [u8; 2])>)
        requires
            self@.wf(),
        ensures
            r@ == possible_moves(self@, side),
    {
        let mut moves: Vec<(Piece, [u8; 2])> = Vec::new();
        let mut s: usize = 0;
        while s < 64
            invariant
                s <= 64,
                self@.wf(),
                moves@ == moves_upto(self@, side, s * 64),
            decreases 64 - s,
        {
            match self.pieces[s] {
                Some(piece) if piece.data().side == side => {
                    let mut i: u8 = 0;
                    while i < 8
                        invariant
                            i <= 8,
                            s < 64,
                            self@.wf(),
                            self@.squares[s as int] == Some(piece),
                            piece.side() == side,
                            moves@ == moves_upto(self@, side, s * 64 + i * 8),
                        decreases 8 - i,
                    {
                        let mut j: u8 = 0;
                        while j < 8
                            invariant
                                j <= 8,
                                i < 8,
                                s < 64,
                                self@.wf(),
                                self@.squares[s as int] == Some(piece),
                                piece.side() == side,
                                moves@ == moves_upto(self@, side, s * 64 + i * 8 + j),
                            decreases 8 - j,
                        {
                            if self.may_move(&piece, s, i, j) {
                                moves.push((piece, [i, j]));
                            }
                            j += 1;
                        }
                        i += 1;
                    }
                },
                _ => {
                    proof {
                        moves_upto_skips(self@, side, s as int, s * 64 + 64);
                    }
                },
            }
            s += 1;
        }
        moves
    }

    /// The state of the game for `side` when it is to move: `Nothing` where
    /// it has a legal move, else `Checkmate` where it is in check and
    /// `Stalemate` where it is not.
    pub fn is_checkmated(&self, side: Side) -> (r: Checkmate)
        requires
            self@.wf(),
        ensures
            r == game_state(self@, side),
    {
        let mut s: usize = 0;
        while s < 64
            invariant
                s <= 64,
                self@.wf(),
                forall|k: int| 0 <= k < s * 64 ==> (#[trigger] candidate(self@, side, k)).is_none(),
            decreases 64 - s,
        {
            match self.pieces[s] {
                Some(piece) if piece.data().side == side => {
                    let mut i: u8 = 0;
                    while i < 8
                        invariant
                            i <= 8,
                            s < 64,
                            self@.wf(),
                            self@.squares[s as int] == Some(piece),
                            piece.side() == side,
                            forall|k: int|
                                0 <= k < s * 64 + i * 8 ==> (#[trigger] candidate(
                                    self@,
                                    side,
                                    k,
                                )).is_none(),
                        decreases 8 - i,
                    {
                        let mut j: u8 = 0;
                        while j < 8
                            invariant
                                j <= 8,
                                i < 8,
                                s < 64,
                                self@.wf(),
                                self@.squares[s as int] == Some(piece),
                                piece.side() == side,
                                forall|k: int|
                                    0 <= k < s * 64 + i * 8 + j ==> (#[trigger] candidate(
                                        self@,
                                        side,
                                        k,
                                    )).is_none(),
                            decreases 8 - j,
                        {
                            // It does not matter what a pawn is promoted to: if the move gets
                            // the side out of check, it does so by taking or by blocking.
                            if self.may_move(&piece, s, i, j) {
                                return Checkmate::Nothing;
                            }
                            j += 1;
                        }
                        i += 1;
                    }
                },
                _ => {
                    assert forall|k: int| s * 64 <= k < s * 64 + 64 implies (#[trigger] candidate(
                        self@,
                        side,
                        k,
                    )).is_none() by {
                        assert(k / 64 == s);
                        reveal(candidate);
                    }
                },
            }
            s += 1;
        }
        if self.is_side_in_check(side) {
            Checkmate::Checkmate
        } else {
            Checkmate::Stalemate
        }
    }
}

/// Puts a new piece of kind `piece_type` and of `side` on the square `pos`
/// of the 64 squares `pieces`.
pub fn create_piece(
    pieces: &mut Vec<Option<Piece>>,
    pos: [u8; 2],
    side: Side,
    piece_type: PieceKind,
)
    requires
        old(pieces)@.len() == 64,
        pos_on_board(pos),
    ensures
        final(pieces)@ == old(pieces)@.update(
            square_index(pos[0] as int, pos[1] as int),
            Some(Piece::spec_of_kind(piece_type, PieceData { position: pos, side })),
        ),
{
    let data = PieceData::new(pos, side);
    let idx = (pos[0] as usize) * 8 + (pos[1] as usize);
    pieces[idx] = Some(Piece::of_kind(piece_type, data));
}

/// The upper-case form of an ASCII letter; any other character itself.
pub open spec fn ascii_upper(c: char) -> char {
    if 'a' <= c <= 'z' {
        ((c as u8) - 32) as char
    } else {
        c
    }
}

/// The square that a name such as `"e4"` stands for: the file from its
/// letter, in either case, and the rank from its digit.
pub fn str_to_pos(s: &str) -> (r: [u8; 2])
    requires
        s@.len() >= 2,
        'A' <= ascii_upper(s@[0]) && s@[0] <= '\x7f',
        '1' <= s@[1] <= '\x7f',
    ensures
        r[0] == ascii_upper(s@[0]) as u8 - 'A' as u8,
        r[1] == s@[1] as u8 - '1' as u8,
{
    let first = s.get_char(0);
    let second = s.get_char(1);
    let letter: u8 = if 'a' <= first && first <= 'z' {
        first as u8 - 32
    } else {
        first as u8
    };
    [letter - 65, second as u8 - 49]
}

/// The kind of the piece that starts on `file` of a back rank.
pub open spec fn back_rank_kind(file: int) -> PieceKind {
    if file == 0 || file == 7 {
        PieceKind::Rook
    } else if file == 1 || file == 6 {
        PieceKind::Knight
    } else if file == 2 || file == 5 {
        PieceKind::Bishop
    } else if file == 3 {
        PieceKind::Queen
    } else {
        PieceKind::King
    }
}

/// What stands on square `i` when a game starts.
pub open spec fn standard_square(i: int) -> Option<Piece> {
    let position = square_at(i);
    let rank = i % 8;
    if rank == 0 {
        Some(Piece::spec_of_kind(back_rank_kind(i / 8), PieceData { position, side: Side::Light }))
    } else if rank == 1 {
        Some(Piece::Pawn(PieceData { position, side: Side::Light }))
    } else if rank == 6 {
        Some(Piece::Pawn(PieceData { position, side: Side::Dark }))
    } else if rank == 7 {
        Some(Piece::spec_of_kind(back_rank_kind(i / 8), PieceData { position, side: Side::Dark }))
    } else {
        None
    }
}

/// The board on which a game starts: Light to move, every castling right,
/// no en-passant square.
pub open spec fn standard_board() -> BoardState {
    BoardState {
        squares: Seq::new(64, |i: int| standard_square(i)),
        en_passant: None,
        turn: Side::Light,
        light_castle: CastleRights::Both,
        dark_castle: CastleRights::Both,
    }
}

/// Puts a new piece on the square that `name` stands for.
fn place(pieces: &mut Vec<Option<Piece>>, name: &str, side: Side, piece_type: PieceKind)
    requires
        old(pieces)@.len() == 64,
        name@.len() >= 2,
        'a' <= name@[0] <= 'h',
        '1' <= name@[1] <= '8',
    ensures
        final(pieces)@ == old(pieces)@.update(
            square_index(name@[0] as int - 97, name@[1] as int - 49),
            Some(
                Piece::spec_of_kind(
                    piece_type,
                    PieceData {
                        position: square_at(
                            square_index(name@[0] as int - 97, name@[1] as int - 49),
                        ),
                        side,
                    },
                ),
            ),
        ),
{
    let pos = str_to_pos(name);
    assert(pos =~= square_at(square_index(name@[0] as int - 97, name@[1] as int - 49)));
    create_piece(pieces, pos, side, piece_type);
}

impl Chessboard {
    /// Creates a new chessboard with the standard arrangement of pieces
    pub fn standard() -> (r: Chessboard)
        ensures
            r@ == standard_board(),
            r@.wf(),
    {
        let mut pieces = Chessboard::empty(Side::Light).pieces;
        proof {
            reveal_strlit("a1");
            reveal_strlit("b1");
            reveal_strlit("c1");
            reveal_strlit("d1");
            reveal_strlit("e1");
            reveal_strlit("f1");
            reveal_strlit("g1");
            reveal_strlit("h1");
            reveal_strlit("a8");
            reveal_strlit("b8");
            reveal_strlit("c8");
            reveal_strlit("d8");
            reveal_strlit("e8");
            reveal_strlit("f8");
            reveal_strlit("g8");
            reveal_strlit("h8");
        }
        place(&mut pieces, "a1", Side::Light, PieceKind::Rook);
        place(&mut pieces, "b1", Side::Light, PieceKind::Knight);
        place(&mut pieces, "c1", Side::Light, PieceKind::Bishop);
        place(&mut pieces, "d1", Side::Light, PieceKind::Queen);
        place(&mut pieces, "e1", Side::Light, PieceKind::King);
        place(&mut pieces, "f1", Side::Light, PieceKind::Bishop);
        place(&mut pieces, "g1", Side::Light, PieceKind::Knight);
        place(&mut pieces, "h1", Side::Light, PieceKind::Rook);

        place(&mut pieces, "a8", Side::Dark, PieceKind::Rook);
        place(&mut pieces, "b8", Side::Dark, PieceKind::Knight);
        place(&mut pieces, "c8", Side::Dark, PieceKind::Bishop);
        place(&mut pieces, "d8", Side::Dark, PieceKind::Queen);
        place(&mut pieces, "e8", Side::Dark, PieceKind::King);
        place(&mut pieces, "f8", Side::Dark, PieceKind::Bishop);
        place(&mut pieces, "g8", Side::Dark, PieceKind::Knight);
        place(&mut pieces, "h8", Side::Dark, PieceKind::Rook);

        let ghost before = pieces@;
        assert forall|i: int| 0 <= i < 64 implies #[trigger] before[i] == (if i % 8 == 0 || i % 8
            == 7 {
            standard_square(i)
        } else {
            None
        }) by {}

        // Create pawns
        let mut file: u8 = 0;
        while file < 8
            invariant
                file <= 8,
                pieces@.len() == 64,
                forall|i: int|
                    0 <= i < 64 ==> #[trigger] pieces@[i] == (if i % 8 == 0 || i % 8 == 7 || ((i % 8
                        == 1 || i % 8 == 6) && i / 8 < file) {
                        standard_square(i)
                    } else {
                        None
                    }),
            decreases 8 - file,
        {
            assert([file, 1u8] =~= square_at(square_index(file as int, 1)));
            assert([file, 6u8] =~= square_at(square_index(file as int, 6)));
            create_piece(&mut pieces, [file, 1], Side::Light, PieceKind::Pawn);
            create_piece(&mut pieces, [file, 6], Side::Dark, PieceKind::Pawn);
            file += 1;
        }
        let board = Chessboard {
            pieces,
            en_passant: None,
            turn: Side::Light,
            light_castle: CastleRights::Both,
            dark_castle: CastleRights::Both,
        };
        assert(board@.squares =~= standard_board().squares);
        board
    }
}

impl Chessboard {
    /// Whether the board has its 64 squares and every piece records the
    /// square it stands on.
    pub fn is_well_formed(&self) -> (r: bool)
        ensures
            r == self@.wf(),
    {
        if self.pieces.len() != 64 {
            return false;
        }
        let mut i: usize = 0;
        while i < 64
            invariant
                i <= 64,
                self@.squares.len() == 64,
                forall|k: int|
                    0 <= k < i ==> match #[trigger] self@.squares[k] {
                        Some(p) => p.file() == k / 8 && p.rank() == k % 8,
                        None => true,
                    },
            decreases 64 - i,
        {
            if let Some(piece) = self.pieces[i].as_ref() {
                let pos = piece.data().position;
                if pos[0] as usize != i / 8 || pos[1] as usize != i % 8 {
                    assert(self@.squares[i as int] == Some(*piece));
                    return false;
                }
            }
            i += 1;
        }
        true
    }
}

} // verus!
