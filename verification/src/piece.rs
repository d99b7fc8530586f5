//! Sides, pieces and the kinds of move a piece can make.

use crate::castle::CastleRights;
use crate::chessboard::{pos_on_board, Chessboard};
use crate::rules::{
    abs, castle_move, castle_path_clear, landing, legal_move, move_shape, path_clear, pawn_move,
    promotes, raw_move, sign, slide, walk_len,
};
use vstd::prelude::*;

verus! {

/// One of the two players.
#[derive(PartialEq, Eq, Structural, Hash, Debug, Clone, Copy)]
pub enum Side {
    Light,
    Dark,
}

impl Side {
    /// The rank on which the side's pieces start: 0 for Light, 7 for Dark.
    pub open spec fn spec_back_rank(self) -> u8 {
        match self {
            Side::Light => 0,
            Side::Dark => 7,
        }
    }

    /// The opponent.
    pub open spec fn spec_other(self) -> Side {
        match self {
            Side::Light => Side::Dark,
            Side::Dark => Side::Light,
        }
    }

    /// The rank on which the side's pieces start: 0 for Light, 7 for Dark.
    #[inline(always)]
    #[verifier::when_used_as_spec(spec_back_rank)]
    pub fn back_rank(self) -> (r: u8)
        ensures
            r == self.spec_back_rank(),
    {
        match self {
            Side::Light => 0,
            Side::Dark => crate::BOARD_SIZE - 1,
        }
    }

    /// The opponent.
    #[verifier::when_used_as_spec(spec_other)]
    pub fn other(self) -> (r: Side)
        ensures
            r == self.spec_other(),
    {
        match self {
            Side::Light => Side::Dark,
            Side::Dark => Side::Light,
        }
    }
}

/// The six kinds of piece. A promotion is chosen by naming the kind that the
/// pawn becomes.
#[derive(PartialEq, Eq, Structural, Hash, Debug, Clone, Copy)]
pub enum PieceKind {
    Pawn,
    Rook,
    Knight,
    Bishop,
    Queen,
    King,
}

/// Where a piece stands, as `[file, rank]`, and whose it is.
#[derive(Debug, Clone, Copy)]
pub struct PieceData {
    pub position: [u8; 2],
    pub side: Side,
}

impl PieceData {
    /// The data of a piece of `side` on `position`.
    pub fn new(position: [u8; 2], side: Side) -> (r: PieceData)
        ensures
            r.position == position,
            r.side == side,
    {
        PieceData { position, side }
    }
}

/// The rank from which a side's pawns start: 1 for Light, 6 for Dark.
pub open spec fn spec_start_rank(side: Side) -> u8 {
    match side {
        Side::Light => 1,
        Side::Dark => 6,
    }
}

/// The direction in which a side's pawns advance along the ranks.
pub open spec fn spec_direction(side: Side) -> i8 {
    match side {
        Side::Light => 1i8,
        Side::Dark => -1i8,
    }
}

/// The rank from which a side's pawns start: 1 for Light, 6 for Dark.
#[inline(always)]
#[verifier::when_used_as_spec(spec_start_rank)]
pub fn start_rank(side: Side) -> (r: u8)
    ensures
        r == spec_start_rank(side),
{
    match side {
        Side::Light => 1,
        Side::Dark => crate::BOARD_SIZE - 2,
    }
}

/// The direction in which a side's pawns advance along the ranks: 1 for
/// Light, -1 for Dark.
#[inline(always)]
#[verifier::when_used_as_spec(spec_direction)]
pub fn direction(side: Side) -> (r: i8)
    ensures
        r == spec_direction(side),
{
    match side {
        Side::Light => 1,
        Side::Dark => -1,
    }
}

/// What a move does, as far as the rules tell moves apart.
#[derive(PartialEq, Eq, Structural, Clone, Copy, Debug)]
pub enum MoveType {
    Invalid,
    Regular,
    Capture,
    Doublestep,
    EnPassant,
    Castle,
    PawnPromotion,
    PawnPromotionCapture,
}

/// A piece: its kind, with its position and side.
#[derive(Debug, Clone, Copy)]
pub enum Piece {
    Pawn(PieceData),
    Rook(PieceData),
    Knight(PieceData),
    Bishop(PieceData),
    Queen(PieceData),
    King(PieceData),
}

impl Piece {
    /// The piece of kind `kind` that `data` describes.
    pub open spec fn spec_of_kind(kind: PieceKind, data: PieceData) -> Piece {
        match kind {
            PieceKind::Pawn => Piece::Pawn(data),
            PieceKind::Rook => Piece::Rook(data),
            PieceKind::Knight => Piece::Knight(data),
            PieceKind::Bishop => Piece::Bishop(data),
            PieceKind::Queen => Piece::Queen(data),
            PieceKind::King => Piece::King(data),
        }
    }

    /// The kind of the piece.
    pub open spec fn spec_kind(&self) -> PieceKind {
        match self {
            Piece::Pawn(_) => PieceKind::Pawn,
            Piece::Rook(_) => PieceKind::Rook,
            Piece::Knight(_) => PieceKind::Knight,
            Piece::Bishop(_) => PieceKind::Bishop,
            Piece::Queen(_) => PieceKind::Queen,
            Piece::King(_) => PieceKind::King,
        }
    }

    /// The position and side of the piece.
    pub open spec fn spec_data(&self) -> PieceData {
        match *self {
            Piece::Pawn(data)
            | Piece::Rook(data)
            | Piece::Knight(data)
            | Piece::Bishop(data)
            | Piece::Queen(data)
            | Piece::King(data) => data,
        }
    }

    /// The side that owns the piece.
    pub open spec fn side(self) -> Side {
        self.spec_data().side
    }

    /// The file on which the piece stands.
    pub open spec fn file(self) -> int {
        self.spec_data().position[0] as int
    }

    /// The rank on which the piece stands.
    pub open spec fn rank(self) -> int {
        self.spec_data().position[1] as int
    }

    /// The same piece standing on `position`.
    pub open spec fn moved_to(self, position: [u8; 2]) -> Piece {
        Piece::spec_of_kind(self.spec_kind(), PieceData { position, side: self.side() })
    }

    /// Builds the piece of the given kind.
    #[verifier::when_used_as_spec(spec_of_kind)]
    pub fn of_kind(kind: PieceKind, data: PieceData) -> (r: Piece)
        ensures
            r == Piece::spec_of_kind(kind, data),
    {
        match kind {
            PieceKind::Pawn => Piece::Pawn(data),
            PieceKind::Rook => Piece::Rook(data),
            PieceKind::Knight => Piece::Knight(data),
            PieceKind::Bishop => Piece::Bishop(data),
            PieceKind::Queen => Piece::Queen(data),
            PieceKind::King => Piece::King(data),
        }
    }

    /// The kind of the piece.
    #[verifier::when_used_as_spec(spec_kind)]
    pub fn kind(&self) -> (r: PieceKind)
        ensures
            r == self.spec_kind(),
    {
        match self {
            Piece::Pawn(_) => PieceKind::Pawn,
            Piece::Rook(_) => PieceKind::Rook,
            Piece::Knight(_) => PieceKind::Knight,
            Piece::Bishop(_) => PieceKind::Bishop,
            Piece::Queen(_) => PieceKind::Queen,
            Piece::King(_) => PieceKind::King,
        }
    }

    /// The position and side of the piece.
    #[inline(always)]
    pub fn data(&self) -> (r: &PieceData)
        ensures
            *r == self.spec_data(),
    {
        match &self {
            Piece::Pawn(data)
            | Piece::Rook(data)
            | Piece::Knight(data)
            | Piece::Bishop(data)
            | Piece::Queen(data)
            | Piece::King(data) => &data,
        }
    }

    /// The position and side of the piece, to be changed; the kind stays.
    #[inline(always)]
    pub fn data_mut(&mut self) -> (r: &mut PieceData)
        ensures
            *r == old(self).spec_data(),
            *final(self) == Piece::spec_of_kind(old(self).spec_kind(), *final(r)),
    {
        match self {
            Piece::Pawn(data) => data,
            Piece::Rook(data) => data,
            Piece::Knight(data) => data,
            Piece::Bishop(data) => data,
            Piece::Queen(data) => data,
            Piece::King(data) => data,
        }
    }

    /// The steps along the files and along the ranks that lead from `start`
    /// to `end`.
    pub open spec fn spec_dx_dy(start: [u8; 2], end: [u8; 2]) -> (int, int) {
        (end[0] - start[0], end[1] - start[1])
    }

    /// The steps along the files and along the ranks that lead from `start`
    /// to `end`.
    #[inline(always)]
    pub fn dx_dy(start: [u8; 2], end: [u8; 2]) -> (r: (i8, i8))
        requires
            start[0] <= i8::MAX,
            start[1] <= i8::MAX,
            end[0] <= i8::MAX,
            end[1] <= i8::MAX,
        ensures
            (r.0 as int, r.1 as int) == Piece::spec_dx_dy(start, end),
    {
        ((end[0] as i8) - (start[0] as i8), (end[1] as i8) - (start[1] as i8))
    }
}

/// The sign of `d`: -1, 0 or 1.
fn signum(d: i8) -> (r: i8)
    ensures
        r == sign(d as int),
{
    if d < 0 {
        -1
    } else if d > 0 {
        1
    } else {
        0
    }
}

/// The absolute value of `d`.
fn magnitude(d: i8) -> (r: i8)
    requires
        d > i8::MIN,
    ensures
        r == abs(d as int),
{
    if d < 0 {
        -d
    } else {
        d
    }
}

impl Piece {
    /// What stepping on `end_pos` does: see `landing`.
    fn land_on(&self, chessboard: &Chessboard, end_pos: [u8; 2]) -> (r: MoveType)
        requires
            chessboard@.squares.len() == 64,
        ensures
            r == landing(chessboard@, self.side(), end_pos[0] as int, end_pos[1] as int),
    {
        if let Some(other_piece) = chessboard.piece_at(end_pos) {
            if other_piece.data().side == self.data().side {
                MoveType::Invalid
            } else {
                MoveType::Capture
            }
        } else {
            MoveType::Regular
        }
    }

    /// A move along a rank, a file or a diagonal: invalid where a piece stands
    /// in the way or the mover's own side stands on `end_pos`, else a capture
    /// or a plain move.
    fn step_through_positions(
        &self,
        chessboard: &Chessboard,
        end_pos: [u8; 2],
        dx: i8,
        dy: i8,
    ) -> (r: MoveType)
        requires
            chessboard@.squares.len() == 64,
            pos_on_board(self.spec_data().position),
            pos_on_board(end_pos),
            dx == end_pos[0] - self.file(),
            dy == end_pos[1] - self.rank(),
            dx == 0 || dy == 0 || abs(dx as int) == abs(dy as int),
        ensures
            r == slide(chessboard@, *self, end_pos[0] as int, end_pos[1] as int),
    {
        let sx = signum(dx);
        let sy = signum(dy);
        let ghost n = walk_len(dx as int, dy as int);
        let ghost b = chessboard@;
        let mut current: [i8; 2] = [
            self.data().position[0] as i8 + sx,
            self.data().position[1] as i8 + sy,
        ];
        let mut k: Ghost<int> = Ghost(1);
        loop
            invariant
                chessboard@ == b,
                b.squares.len() == 64,
                pos_on_board(self.spec_data().position),
                pos_on_board(end_pos),
                dx == end_pos[0] - self.file(),
                dy == end_pos[1] - self.rank(),
                dx == 0 || dy == 0 || abs(dx as int) == abs(dy as int),
                sx == sign(dx as int),
                sy == sign(dy as int),
                n == walk_len(dx as int, dy as int),
                1 <= k@,
                k@ <= n || n == 0,
                current[0] == self.file() + k@ * sx,
                current[1] == self.rank() + k@ * sy,
                forall|j: int|
                    1 <= j < k@ ==> (#[trigger] b.at(
                        self.file() + j * sx,
                        self.rank() + j * sy,
                    )).is_none(),
            decreases n - k@,
        {
            proof {
                if n > 0 {
                    assert(0 <= self.file() + k@ * sx < 8 && 0 <= self.rank() + k@ * sy < 8)
                        by (nonlinear_arith)
                        requires
                            1 <= k@ <= n,
                            n == walk_len(dx as int, dy as int),
                            sx == sign(dx as int),
                            sy == sign(dy as int),
                            dx == 0 || dy == 0 || abs(dx as int) == abs(dy as int),
                            0 <= self.file() < 8,
                            0 <= self.rank() < 8,
                            0 <= self.file() + dx < 8,
                            0 <= self.rank() + dy < 8,
                    ;
                }
            }
            let cur: [u8; 2] = [current[0] as u8, current[1] as u8];
            let at_end = cur[0] == end_pos[0] && cur[1] == end_pos[1];
            proof {
                assert(at_end <==> (k@ == n || n == 0)) by (nonlinear_arith)
                    requires
                        at_end <==> (self.file() + k@ * sx == self.file() + dx && self.rank() + k@
                            * sy == self.rank() + dy),
                        1 <= k@,
                        k@ <= n || n == 0,
                        n == walk_len(dx as int, dy as int),
                        sx == sign(dx as int),
                        sy == sign(dy as int),
                        dx == 0 || dy == 0 || abs(dx as int) == abs(dy as int),
                ;
            }
            // if there is another piece of the same color in this spot, invalid
            // this includes end_pos
            if let Some(other_piece) = chessboard.piece_at(cur) {
                proof {
                    if !at_end {
                        assert(b.at(self.file() + k@ * sx, self.rank() + k@ * sy).is_some());
                        assert(!path_clear(b, self.file(), self.rank(), dx as int, dy as int));
                    }
                }
                // if they're on the same side, it's always invalid
                if other_piece.data().side == self.data().side {
                    return MoveType::Invalid;
                } else if at_end {
                    // if they're on opposite sides, it's only valid if this is the end_pos
                    // (i.e capture)
                    return MoveType::Capture;
                } else {
                    // oppsoite sides, blocking
                    return MoveType::Invalid;
                }
            }
            // if we got here, the move is valid
            if at_end {
                return MoveType::Regular;
            }
            current = [current[0] + sx, current[1] + sy];
            proof {
                assert((k@ + 1) * sx == k@ * sx + sx) by (nonlinear_arith);
                assert((k@ + 1) * sy == k@ * sy + sy) by (nonlinear_arith);
                k@ = k@ + 1;
            }
        }
    }
}

impl Piece {
    /// The move of a pawn to `end_pos`.
    fn pawn_step(&self, chessboard: &Chessboard, end_pos: [u8; 2]) -> (r: MoveType)
        requires
            chessboard@.squares.len() == 64,
            pos_on_board(self.spec_data().position),
            pos_on_board(end_pos),
        ensures
            r == pawn_move(chessboard@, *self, end_pos[0] as int, end_pos[1] as int),
    {
        let data = self.data();
        let (dx, dy) = Piece::dx_dy(data.position, end_pos);
        let dir = direction(data.side);
        if dx == 0 && dy == dir && chessboard.piece_at(end_pos).is_none() {
            // regular move forward
            if end_pos[1] == data.side.other().back_rank() {
                MoveType::PawnPromotion
            } else {
                MoveType::Regular
            }
        } else if data.position[1] == start_rank(data.side) && dx == 0 && magnitude(dy) == 2
            && chessboard.piece_at(
            [data.position[0], (data.position[1] as i8 + dir) as u8],
        ).is_none()
            && chessboard.piece_at(end_pos).is_none() {
            // doublestep at beginning
            MoveType::Doublestep
        } else if magnitude(dx) == 1 && dy == dir {
            // capturing diagonally
            let capture = chessboard.piece_at(end_pos);
            if let Some(capture) = capture {
                if capture.data().side != data.side {
                    if end_pos[1] == data.side.other().back_rank() {
                        MoveType::PawnPromotionCapture
                    } else {
                        MoveType::Capture
                    }
                } else {
                    MoveType::Invalid
                }
            } else if let Some(en_passant) = chessboard.en_passant {
                if en_passant[0] == end_pos[0] && en_passant[1] < crate::BOARD_SIZE
                    && en_passant[1] as i8 + dir == end_pos[1] as i8 && chessboard.piece_at(
                    en_passant,
                ).is_some() {
                    MoveType::EnPassant
                } else {
                    MoveType::Invalid
                }
            } else {
                MoveType::Invalid
            }
        } else {
            MoveType::Invalid
        }
    }

    /// The move of the piece to `end_pos` as its kind moves, castling apart
    /// and whether or not the move leaves the mover's king in check.
    pub fn shape_of_move(&self, chessboard: &Chessboard, end_pos: [u8; 2]) -> (r: MoveType)
        requires
            chessboard@.squares.len() == 64,
            pos_on_board(self.spec_data().position),
            pos_on_board(end_pos),
        ensures
            r == move_shape(chessboard@, *self, end_pos[0] as int, end_pos[1] as int),
    {
        match self {
            Piece::Bishop(data) => {
                let (dx, dy) = Piece::dx_dy(data.position, end_pos);
                if magnitude(dx) != magnitude(dy) {
                    return MoveType::Invalid;
                }
                self.step_through_positions(chessboard, end_pos, dx, dy)
            },
            Piece::Rook(data) => {
                let (dx, dy) = Piece::dx_dy(data.position, end_pos);
                if dx != 0 && dy != 0 {
                    return MoveType::Invalid;
                }
                self.step_through_positions(chessboard, end_pos, dx, dy)
            },
            Piece::Queen(data) => {
                let (dx, dy) = Piece::dx_dy(data.position, end_pos);
                if magnitude(dx) != magnitude(dy) && dx != 0 && dy != 0 {
                    return MoveType::Invalid;
                }
                self.step_through_positions(chessboard, end_pos, dx, dy)
            },
            Piece::Knight(data) => {
                let (dx, dy) = Piece::dx_dy(data.position, end_pos);
                if (magnitude(dx) == 1 && magnitude(dy) == 2) || (magnitude(dx) == 2 && magnitude(
                    dy,
                ) == 1) {
                    self.land_on(chessboard, end_pos)
                } else {
                    MoveType::Invalid
                }
            },
            Piece::Pawn(_) => self.pawn_step(chessboard, end_pos),
            Piece::King(data) => {
                let (dx, dy) = Piece::dx_dy(data.position, end_pos);
                if magnitude(dx) <= 1 && magnitude(dy) <= 1 {
                    self.land_on(chessboard, end_pos)
                } else {
                    MoveType::Invalid
                }
            },
        }
    }
}

impl Piece {
    /// Whether the squares of the back rank between the king and the rook of
    /// `wing` are empty.
    fn castle_path_is_clear(&self, chessboard: &Chessboard, wing: CastleRights) -> (r: bool)
        requires
            chessboard@.squares.len() == 64,
            pos_on_board(self.spec_data().position),
            wing.is_wing(),
        ensures
            r == castle_path_clear(chessboard@, *self, wing),
    {
        let file = self.data().position[0];
        let rank = self.data().side.back_rank();
        let (from, to): (u8, u8) = if wing == CastleRights::KingSide {
            (file + 1, crate::BOARD_SIZE - 1)
        } else {
            (1, file)
        };
        let mut x: u8 = from;
        while x < to
            invariant
                chessboard@.squares.len() == 64,
                rank == self.side().spec_back_rank(),
                to <= 8,
                from <= x,
                wing == CastleRights::KingSide ==> from == self.file() + 1 && to == 7,
                wing != CastleRights::KingSide ==> from == 1 && to == self.file(),
                forall|j: int|
                    from <= j < x ==> (#[trigger] chessboard@.at(j, rank as int)).is_none(),
            decreases to - x,
        {
            if let Some(_p) = chessboard.piece_at([x, rank]) {
                assert(chessboard@.at(x as int, rank as int).is_some());
                return false;
            }
            x += 1;
        }
        true
    }

    /// The move of a king to a square that is more than one step away.
    fn castle(&self, chessboard: &Chessboard, end_pos: [u8; 2]) -> (r: MoveType)
        requires
            chessboard@.wf(),
            pos_on_board(self.spec_data().position),
            pos_on_board(end_pos),
        ensures
            r == castle_move(chessboard@, *self, end_pos[0] as int, end_pos[1] as int),
    {
        let data = self.data();
        let castle_type = chessboard.castle_rights(data.side).check_end_pos(end_pos, data.side);
        if castle_type == CastleRights::NoRights {
            return MoveType::Invalid;
        }
        let rook = castle_type.rook_init_pos(data.side).unwrap();
        //There are no pieces between the king and the chosen rook.
        if !self.castle_path_is_clear(chessboard, castle_type) {
            return MoveType::Invalid;
        }
        // The king is not currently in check.
        {
            let mut temp_chessboard = chessboard.clone();
            temp_chessboard.insert(data.position, *self);
            if temp_chessboard.is_king_in_check(self) {
                return MoveType::Invalid;
            }
        }
        {
            // check if the king will move through check.
            let mut temp_chessboard = chessboard.clone();
            let (dx, _dy) = Piece::dx_dy(data.position, end_pos);
            let mut temp_king = *self;
            let temp_pos = [(data.position[0] as i8 + signum(dx)) as u8, data.position[1]];
            temp_king.data_mut().position = temp_pos;
            temp_chessboard.insert(temp_pos, temp_king);
            if temp_chessboard.is_king_in_check(&temp_king) {
                return MoveType::Invalid;
            }
        }
        // Something other than the king stands where the rook is taken from.
        if (rook[0] == data.position[0] && rook[1] == data.position[1]) || chessboard.piece_at(
            rook,
        ).is_none() {
            return MoveType::Invalid;
        }
        MoveType::Castle
    }

    /// The move of the piece to `end_pos`. With `check_check`, a move after
    /// which the mover's own king could be taken is invalid. `promotion`
    /// names what a pawn that reaches the last rank becomes.
    pub fn can_move(
        &self,
        chessboard: &Chessboard,
        end_pos: [u8; 2],
        check_check: bool,
        promotion: Option<PieceKind>,
    ) -> (r: MoveType)
        requires
            chessboard@.wf(),
            pos_on_board(self.spec_data().position),
            pos_on_board(end_pos),
            chessboard@.at(self.file(), self.rank()).is_none() || chessboard@.at(
                self.file(),
                self.rank(),
            ) == Some(*self),
            check_check && promotes(
                raw_move(chessboard@, *self, end_pos[0] as int, end_pos[1] as int),
            ) ==> promotion.is_some(),
        ensures
            r == legal_move(chessboard@, *self, end_pos, check_check, promotion),
    {
        let (dx, dy) = Piece::dx_dy(self.data().position, end_pos);
        let is_king = match self {
            Piece::King(_) => true,
            _ => false,
        };
        let found = if is_king && !(magnitude(dx) <= 1 && magnitude(dy) <= 1) {
            self.castle(chessboard, end_pos)
        } else {
            self.shape_of_move(chessboard, end_pos)
        };
        if check_check && found != MoveType::Invalid {
            // clone the chessboard, pretend to apply this move, and check if the king
            // is in check
            let mut temp_board = chessboard.clone();
            temp_board.apply_move(*self, found, end_pos, promotion);
            if temp_board.is_side_in_check(self.data().side) {
                MoveType::Invalid
            } else {
                found
            }
        } else {
            found
        }
    }
}

} // verus!
