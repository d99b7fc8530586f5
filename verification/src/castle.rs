//! Castling rights and the squares that castling moves a rook between.

use crate::piece::{Piece, Side};
use vstd::prelude::*;
use vstd::string::StringExecFns;

verus! {

/// The wings on which a side may still castle.
#[derive(Copy, Clone, PartialEq, Eq, Structural, Debug)]
pub enum CastleRights {
    NoRights,
    KingSide,
    QueenSide,
    Both,
}

impl CastleRights {
    /// Whether the rights allow castling on the king's wing.
    pub open spec fn has_king_side(self) -> bool {
        self == CastleRights::KingSide || self == CastleRights::Both
    }

    /// Whether the rights allow castling on the queen's wing.
    pub open spec fn has_queen_side(self) -> bool {
        self == CastleRights::QueenSide || self == CastleRights::Both
    }

    /// The rights that allow exactly the given wings.
    pub open spec fn from_wings(king_side: bool, queen_side: bool) -> CastleRights {
        if king_side && queen_side {
            CastleRights::Both
        } else if king_side {
            CastleRights::KingSide
        } else if queen_side {
            CastleRights::QueenSide
        } else {
            CastleRights::NoRights
        }
    }

    /// The wing on which a king of `side` castles when it moves to
    /// `(file, rank)` and holds these rights; `NoRights` when that is no
    /// castling square or the wing is not allowed.
    pub open spec fn wing_for(self, file: int, rank: int, side: Side) -> CastleRights {
        if rank != side.spec_back_rank() {
            CastleRights::NoRights
        } else if file == 6 && self.has_king_side() {
            CastleRights::KingSide
        } else if file == 2 && self.has_queen_side() {
            CastleRights::QueenSide
        } else {
            CastleRights::NoRights
        }
    }

    /// The rights that are left once the wings of `to_remove` are taken away.
    pub open spec fn without(self, to_remove: CastleRights) -> CastleRights {
        CastleRights::from_wings(
            self.has_king_side() && !to_remove.has_king_side(),
            self.has_queen_side() && !to_remove.has_queen_side(),
        )
    }

    /// Whether the value names a single wing.
    pub open spec fn is_wing(self) -> bool {
        self == CastleRights::KingSide || self == CastleRights::QueenSide
    }

    /// The file on which the rook of this wing starts.
    pub open spec fn rook_init_file(self) -> int {
        if self == CastleRights::KingSide {
            7
        } else {
            0
        }
    }

    /// The file on which the rook of this wing stands after castling.
    pub open spec fn rook_final_file(self) -> int {
        if self == CastleRights::KingSide {
            5
        } else {
            3
        }
    }

    /// The name of the value, as it appears in messages.
    pub open spec fn name(self) -> Seq<char> {
        match self {
            CastleRights::NoRights => "NoRights"@,
            CastleRights::KingSide => "KingSide"@,
            CastleRights::QueenSide => "QueenSide"@,
            CastleRights::Both => "Both"@,
        }
    }

    /// Returns NoRights if the castle is invalid,
    /// or KingSide or Queenside if if the castle is valid.
    /// Will not return Both
    pub fn check_end_pos(self, end_pos: [u8; 2], side: Side) -> (r: CastleRights)
        ensures
            r == self.wing_for(end_pos[0] as int, end_pos[1] as int, side),
    {
        if side.back_rank() != end_pos[1] {
            CastleRights::NoRights
        } else {
            match self {
                CastleRights::NoRights => CastleRights::NoRights,
                CastleRights::KingSide => {
                    if end_pos[0] == 6u8 {
                        CastleRights::KingSide
                    } else {
                        CastleRights::NoRights
                    }
                },
                CastleRights::QueenSide => {
                    if end_pos[0] == 2u8 {
                        CastleRights::QueenSide
                    } else {
                        CastleRights::NoRights
                    }
                },
                CastleRights::Both => {
                    if end_pos[0] == 6u8 {
                        CastleRights::KingSide
                    } else if end_pos[0] == 2u8 {
                        CastleRights::QueenSide
                    } else {
                        CastleRights::NoRights
                    }
                },
            }
        }
    }

    /// The rights that are left once the wings of `to_remove` are taken away.
    pub fn remove_rights(self, to_remove: CastleRights) -> (r: CastleRights)
        ensures
            r == self.without(to_remove),
    {
        if self == CastleRights::NoRights || to_remove == CastleRights::NoRights {
            return self;  // nothing changes
        }
        if to_remove == CastleRights::Both || self == to_remove {
            // if both are removed, or what we remove is all we had, nothing is left.
            return CastleRights::NoRights;
        }
        if self == CastleRights::Both {
            match to_remove {
                CastleRights::QueenSide => return CastleRights::KingSide,
                CastleRights::KingSide => return CastleRights::QueenSide,
                _ => {},
            }
        }
        self  // only if self and to_remove are mutually exclusive, so nothing changes.
    }

    /// The text of the error that a function named `function` gives for a
    /// value that names no single wing.
    pub open spec fn invalid_input_message(self, function: Seq<char>) -> Seq<char> {
        "CastleRights::"@ + function + " -- "@ + self.name() + " is not a valid input."@
    }

    /// The text of the error for a value that names no single wing.
    fn invalid_input(self, function: &str) -> (r: String)
        ensures
            r@ == self.invalid_input_message(function@),
    {
        let mut message = String::from_str("CastleRights::");
        message.append(function);
        message.append(" -- ");
        match self {
            CastleRights::NoRights => message.append("NoRights"),
            CastleRights::KingSide => message.append("KingSide"),
            CastleRights::QueenSide => message.append("QueenSide"),
            CastleRights::Both => message.append("Both"),
        }
        message.append(" is not a valid input.");
        message
    }

    /// The square on which the rook of this wing stands after castling; an
    /// error for a value that names no single wing.
    pub fn rook_final_pos(self, side: Side) -> (r: Result<[u8; 2], String>)
        ensures
            match r {
                Ok(pos) => self.is_wing() && pos[0] == self.rook_final_file() && pos[1]
                    == side.spec_back_rank(),
                Err(message) => !self.is_wing() && message@ == self.invalid_input_message(
                    "rook_final_pos"@,
                ),
            },
    {
        match self {
            CastleRights::NoRights | CastleRights::Both => Err(
                self.invalid_input("rook_final_pos"),
            ),
            CastleRights::KingSide => Ok([crate::BOARD_SIZE - 3, side.back_rank()]),
            CastleRights::QueenSide => Ok([3, side.back_rank()]),
        }
    }

    /// The square on which the rook of this wing starts; an error for a value
    /// that names no single wing.
    pub fn rook_init_pos(self, side: Side) -> (r: Result<[u8; 2], String>)
        ensures
            match r {
                Ok(pos) => self.is_wing() && pos[0] == self.rook_init_file() && pos[1]
                    == side.spec_back_rank(),
                Err(message) => !self.is_wing() && message@ == self.invalid_input_message(
                    "rook_init_pos"@,
                ),
            },
    {
        match self {
            CastleRights::NoRights | CastleRights::Both => Err(self.invalid_input("rook_init_pos")),
            CastleRights::KingSide => Ok([crate::BOARD_SIZE - 1, side.back_rank()]),
            CastleRights::QueenSide => Ok([0, side.back_rank()]),
        }
    }

    /// The wing whose rights a piece standing where `piece` stands gives up
    /// by leaving: the wing of the corner of its own back rank on which it
    /// stands, if it stands on one.
    pub open spec fn wing_of_corner(piece: Piece) -> Option<CastleRights> {
        if piece.rank() != piece.side().spec_back_rank() {
            None
        } else if piece.file() == 0 {
            Some(CastleRights::QueenSide)
        } else if piece.file() == 7 {
            Some(CastleRights::KingSide)
        } else {
            None
        }
    }

    /// The wing of the corner of its own back rank on which `piece` stands; an
    /// error where it stands on no such corner.
    pub fn castle_rights_for_rook(piece: &Piece) -> (r: Result<CastleRights, &'static str>)
        ensures
            match r {
                Ok(wing) => CastleRights::wing_of_corner(*piece) == Some(wing),
                Err(message) => CastleRights::wing_of_corner(*piece).is_none() && message@ == (if
                    piece.rank() != piece.side().spec_back_rank() {
                    "Rook not on back rank."@
                } else {
                    "Rook not where expected."@
                }),
            },
    {
        let pos = piece.data().position;
        if pos[1] != piece.data().side.back_rank() {
            Err("Rook not on back rank.")
        } else if pos[0] == 0 {
            Ok(CastleRights::QueenSide)
        } else if pos[0] == crate::BOARD_SIZE - 1 {
            Ok(CastleRights::KingSide)
        } else {
            Err("Rook not where expected.")
        }
    }
}

} // verus!
