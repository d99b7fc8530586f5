//! A game in progress: the board, what each side has lost, who is in check
//! and how the game ended.

use crate::captures::CaptureCount;
use crate::chessboard::{pos_on_board, Checkmate, Chessboard, MoveResult};
use crate::piece::{Piece, PieceKind, Side};
use crate::rules::{after_try, game_state, in_check, move_result, tried_move, try_promotes};
use vstd::prelude::*;

verus! {

/// How many moves deep the machine searches.
pub const AI_LEVEL: u8 = 3;

/// The side that the machine plays.
pub const AI_SIDE: Side = Side::Dark;

/// Whether the machine plays at all.
pub const AI: bool = true;

/// A game in progress.
pub struct Game {
    pub chessboard: Chessboard,
    /// What Light has lost.
    pub light_capture: CaptureCount,
    /// What Dark has lost.
    pub dark_capture: CaptureCount,
    // logically, it's not possible for both of these to be true at the same time
    pub light_check: bool,
    pub dark_check: bool,
    /// How the game stands for the side that did not move last, and the side
    /// that moved last.
    pub game_result: (Checkmate, Side),
}

/// The piece that a move took, if it took one.
pub open spec fn captured_by(result: MoveResult) -> Option<Piece> {
    match result {
        MoveResult::Capture { moved, captured } => Some(captured),
        MoveResult::EnPassant { moved, captured } => Some(captured),
        MoveResult::PawnPromotionCapture { moved, captured } => Some(captured),
        _ => None,
    }
}

impl Game {
    /// What `side` has lost.
    pub open spec fn spec_captures(&self, side: Side) -> CaptureCount {
        match side {
            Side::Light => self.light_capture,
            Side::Dark => self.dark_capture,
        }
    }

    /// Whether `side` was found in check.
    pub open spec fn spec_check(&self, side: Side) -> bool {
        match side {
            Side::Light => self.light_check,
            Side::Dark => self.dark_check,
        }
    }

    /// A game that starts from `chessboard`: nothing captured, no check, no
    /// result.
    pub fn new(chessboard: Chessboard) -> (r: Game)
        ensures
            r.chessboard == chessboard,
            forall|side: Side, kind: PieceKind| r.spec_captures(side).count(kind) == 0,
            !r.light_check,
            !r.dark_check,
            r.game_result == (Checkmate::Nothing, Side::Light),
    {
        Game {
            chessboard,
            light_capture: CaptureCount::new(),
            dark_capture: CaptureCount::new(),
            light_check: false,
            dark_check: false,
            game_result: (Checkmate::Nothing, Side::Light),
        }
    }

    /// The side to move.
    pub fn turn(&self) -> (r: Side)
        ensures
            r == self.chessboard@.turn,
    {
        self.chessboard.turn
    }

    /// What `side` has lost.
    #[inline(always)]
    pub fn captures(&self, side: Side) -> (r: &CaptureCount)
        ensures
            *r == self.spec_captures(side),
    {
        match side {
            Side::Light => &self.light_capture,
            Side::Dark => &self.dark_capture,
        }
    }

    /// Whether `side` was found in check after the last move.
    #[inline(always)]
    pub fn check(&self, side: Side) -> (r: bool)
        ensures
            r == self.spec_check(side),
    {
        match side {
            Side::Light => self.light_check,
            Side::Dark => self.dark_check,
        }
    }

    /// What `side` has lost, to be changed.
    #[inline(always)]
    pub fn captures_mut(&mut self, side: Side) -> (r: &mut CaptureCount)
        ensures
            *r == old(self).spec_captures(side),
            *final(self) == (match side {
                Side::Light => Game { light_capture: *final(r), ..*old(self) },
                Side::Dark => Game { dark_capture: *final(r), ..*old(self) },
            }),
    {
        match side {
            Side::Light => &mut self.light_capture,
            Side::Dark => &mut self.dark_capture,
        }
    }

    /// Whether a move of `piece` to `pos` waits for the player to choose what
    /// the pawn becomes: it does where a pawn moves to the last rank.
    pub fn awaits_promotion(piece: &Piece, pos: [u8; 2]) -> (r: bool)
        ensures
            r == (piece is Pawn && pos[1] == piece.side().spec_other().spec_back_rank()),
    {
        match piece {
            Piece::Pawn(data) => pos[1] == data.side.other().back_rank(),
            _ => false,
        }
    }

    /// Whether the machine is to move: it plays, the game is not over and it
    /// is its side's turn.
    pub fn ai_to_move(&self) -> (r: bool)
        ensures
            r == (AI && self.game_result.0 == Checkmate::Nothing && self.chessboard@.turn
                == AI_SIDE),
    {
        AI && self.game_result.0 == Checkmate::Nothing && self.chessboard.turn == AI_SIDE
    }

    /// The type of the move that `try_move` makes with `piece`.
    pub open spec fn move_tried(
        &self,
        piece: Piece,
        pos: [u8; 2],
        promotion: Option<PieceKind>,
    ) -> MoveResult {
        move_result(
            self.chessboard@.put(piece.file(), piece.rank(), None),
            self.chessboard@.at(piece.file(), piece.rank()).unwrap(),
            tried_move(self.chessboard@, piece.spec_data().position, pos, promotion),
            pos,
            promotion,
        )
    }

    /// Moves the piece that stands where `piece` stands to `pos`, if the
    /// rules allow it, and reports what the move did. A piece that the move
    /// took is counted for its side. The result of the game is taken anew
    /// for the side that did not move; while the game is not over, so is
    /// which side is in check.
    pub fn try_move(&mut self, piece: &Piece, pos: [u8; 2], promotion: Option<PieceKind>) -> (r:
        MoveResult)
        requires
            old(self).chessboard@.wf(),
            pos_on_board(pos),
            old(self).chessboard@.at(piece.file(), piece.rank()).is_some(),
            try_promotes(old(self).chessboard@, piece.spec_data().position, pos)
                ==> promotion.is_some(),
            match captured_by(old(self).move_tried(*piece, pos, promotion)) {
                Some(c) => !(c is King) && old(self).spec_captures(c.side()).count(c.spec_kind())
                    < u8::MAX,
                None => true,
            },
        ensures
            r == old(self).move_tried(*piece, pos, promotion),
            final(self).chessboard@ == after_try(
                old(self).chessboard@,
                piece.spec_data().position,
                pos,
                promotion,
            ),
            final(self).chessboard@.wf(),
            forall|side: Side, kind: PieceKind|
                final(self).spec_captures(side).count(kind) == old(self).spec_captures(side).count(
                    kind,
                ) + (match captured_by(r) {
                    Some(c) => if c.side() == side && c.spec_kind() == kind {
                        1int
                    } else {
                        0int
                    },
                    None => 0int,
                }),
            final(self).game_result == (
                game_state(final(self).chessboard@, piece.side().spec_other()),
                piece.side(),
            ),
            final(self).game_result.0 == Checkmate::Nothing ==> final(self).light_check
                == in_check(final(self).chessboard@, Side::Light) && final(self).dark_check
                == in_check(final(self).chessboard@, Side::Dark),
            final(self).game_result.0 != Checkmate::Nothing ==> final(self).light_check == old(
                self,
            ).light_check && final(self).dark_check == old(self).dark_check,
    {
        let side = piece.data().side;
        // get the chessboard, tell it to try the move.
        let move_result = self.chessboard.try_move(piece, pos, promotion);
        match move_result {
            MoveResult::Capture { moved: _, captured }
            | MoveResult::EnPassant { moved: _, captured }
            | MoveResult::PawnPromotionCapture { moved: _, captured } => {
                // add it to captured list
                match captured.data().side {
                    Side::Light => self.light_capture.add_piece(&captured),
                    Side::Dark => self.dark_capture.add_piece(&captured),
                }
            },
            _ => {},
        }
        self.game_result = (self.chessboard.is_checkmated(side.other()), side);
        match self.game_result.0 {
            Checkmate::Checkmate => {
                return move_result;
            },
            Checkmate::Stalemate => {
                return move_result;
            },
            _ => {},
        }
        self.light_check = self.chessboard.is_side_in_check(Side::Light);
        self.dark_check = self.chessboard.is_side_in_check(Side::Dark);
        move_result
    }
}

/// The words that tell a side how it stands.
#[derive(Clone, Copy, Debug, PartialEq, Eq, Structural)]
pub enum Standing {
    /// Nothing to tell.
    Quiet,
    Check,
    Checkmate,
}

/// How a game ended.
#[derive(Clone, Copy, Debug, PartialEq, Eq, Structural)]
pub enum Outcome {
    LightWins,
    DarkWins,
    Draw,
}

impl Standing {
    /// The word shown for the standing; none where there is nothing to tell.
    pub fn label(self) -> (r: &'static str)
        ensures
            r@ == (match self {
                Standing::Quiet => ""@,
                Standing::Check => "Check"@,
                Standing::Checkmate => "Checkmate"@,
            }),
    {
        match self {
            Standing::Quiet => "",
            Standing::Check => "Check",
            Standing::Checkmate => "Checkmate",
        }
    }
}

impl Outcome {
    /// The words shown under "GAME OVER!".
    pub fn label(self) -> (r: &'static str)
        ensures
            r@ == (match self {
                Outcome::LightWins => "WHITE WINS"@,
                Outcome::DarkWins => "BLACK WINS"@,
                Outcome::Draw => "DRAW"@,
            }),
    {
        match self {
            Outcome::LightWins => "WHITE WINS",
            Outcome::DarkWins => "BLACK WINS",
            Outcome::Draw => "DRAW",
        }
    }
}

impl Game {
    /// How `side` stands: mated where the other side moved last and mated
    /// it, else in check where it was found in check.
    pub fn standing(&self, side: Side) -> (r: Standing)
        ensures
            r == (if self.game_result.0 == Checkmate::Checkmate && self.game_result.1
                == side.spec_other() {
                Standing::Checkmate
            } else if self.spec_check(side) {
                Standing::Check
            } else {
                Standing::Quiet
            }),
    {
        if self.game_result.0 == Checkmate::Checkmate && self.game_result.1 == side.other() {
            Standing::Checkmate
        } else if self.check(side) {
            Standing::Check
        } else {
            Standing::Quiet
        }
    }

    /// How the game ended, if it has: the side that moved last wins by a
    /// mate; a stalemate is a draw.
    pub fn outcome(&self) -> (r: Option<Outcome>)
        ensures
            r == (match self.game_result.0 {
                Checkmate::Nothing => None,
                Checkmate::Checkmate => Some(
                    match self.game_result.1 {
                        Side::Light => Outcome::LightWins,
                        Side::Dark => Outcome::DarkWins,
                    },
                ),
                Checkmate::Stalemate => Some(Outcome::Draw),
            }),
    {
        match self.game_result.0 {
            Checkmate::Nothing => None,
            Checkmate::Checkmate => Some(
                match self.game_result.1 {
                    Side::Light => Outcome::LightWins,
                    Side::Dark => Outcome::DarkWins,
                },
            ),
            Checkmate::Stalemate => Some(Outcome::Draw),
        }
    }
}

} // verus!
