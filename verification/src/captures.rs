//! The count of the pieces that a side has lost, and the choice of what a
//! pawn becomes.

use crate::piece::{Piece, PieceKind};
use crate::text::{decimal, push_decimal};
use vstd::prelude::*;
use vstd::string::StringExecFns;

verus! {

/// How many pieces of each kind have been captured.
pub struct CaptureCount {
    queen_count: u8,
    rook_count: u8,
    bishop_count: u8,
    knight_count: u8,
    pawn_count: u8,
}

/// The text that shows a count of `n` pieces with the sign `sign`: nothing
/// for none.
pub open spec fn count_text(n: int, sign: Seq<char>) -> Seq<char> {
    if n > 0 {
        decimal(n as nat) + sign
    } else {
        Seq::empty()
    }
}

impl CaptureCount {
    /// The number of captured pieces of `kind`; no king is ever counted.
    pub closed spec fn count(&self, kind: PieceKind) -> int {
        match kind {
            PieceKind::Queen => self.queen_count as int,
            PieceKind::Rook => self.rook_count as int,
            PieceKind::Bishop => self.bishop_count as int,
            PieceKind::Knight => self.knight_count as int,
            PieceKind::Pawn => self.pawn_count as int,
            PieceKind::King => 0,
        }
    }

    /// The number of captured pieces of `kind`.
    pub fn captured(&self, kind: PieceKind) -> (r: u8)
        ensures
            r == self.count(kind),
    {
        match kind {
            PieceKind::Queen => self.queen_count,
            PieceKind::Rook => self.rook_count,
            PieceKind::Bishop => self.bishop_count,
            PieceKind::Knight => self.knight_count,
            PieceKind::Pawn => self.pawn_count,
            PieceKind::King => 0,
        }
    }

    /// A count of nothing.
    pub fn new() -> (r: CaptureCount)
        ensures
            forall|kind: PieceKind| r.count(kind) == 0,
    {
        CaptureCount {
            queen_count: 0,
            rook_count: 0,
            bishop_count: 0,
            knight_count: 0,
            pawn_count: 0,
        }
    }

    /// Counts one more piece of the kind of `piece`.
    pub fn add_piece(&mut self, piece: &Piece)
        requires
            !(piece is King),
            old(self).count(piece.spec_kind()) < u8::MAX,
        ensures
            forall|kind: PieceKind|
                final(self).count(kind) == old(self).count(kind) + (if kind == piece.spec_kind() {
                    1int
                } else {
                    0int
                }),
    {
        match piece {
            Piece::Queen(_) => {
                self.queen_count += 1;
            },
            Piece::Rook(_) => {
                self.rook_count += 1;
            },
            Piece::Bishop(_) => {
                self.bishop_count += 1;
            },
            Piece::Knight(_) => {
                self.knight_count += 1;
            },
            Piece::Pawn(_) => {
                self.pawn_count += 1;
            },
            Piece::King(_) => {},
        }
    }

    /// The text that shows the counts: for each kind of which a piece was
    /// captured, the number, a space, the sign of the kind and two spaces;
    /// queens first, then rooks, bishops, knights and pawns.
    pub open spec fn spec_display(&self) -> Seq<char> {
        count_text(self.count(PieceKind::Queen), " \u{265b}  "@) + count_text(
            self.count(PieceKind::Rook),
            " \u{265c}  "@,
        ) + count_text(self.count(PieceKind::Bishop), " \u{265d}  "@) + count_text(
            self.count(PieceKind::Knight),
            " \u{265e}  "@,
        ) + count_text(self.count(PieceKind::Pawn), " \u{265f}  "@)
    }

    /// The text that shows the counts: see `spec_display`.
    pub fn display(&self) -> (r: String)
        ensures
            r@ == self.spec_display(),
    {
        let mut result = String::new();
        push_count(&mut result, self.queen_count, " \u{265b}  ");
        push_count(&mut result, self.rook_count, " \u{265c}  ");
        push_count(&mut result, self.bishop_count, " \u{265d}  ");
        push_count(&mut result, self.knight_count, " \u{265e}  ");
        push_count(&mut result, self.pawn_count, " \u{265f}  ");
        assert(result@ =~= self.spec_display());
        result
    }
}

/// Appends the text that shows a count of `n` pieces with the sign `sign`.
fn push_count(text: &mut String, n: u8, sign: &str)
    ensures
        final(text)@ == old(text)@ + count_text(n as int, sign@),
{
    if n > 0 {
        push_decimal(text, n);
        text.append(sign);
        assert(text@ =~= old(text)@ + count_text(n as int, sign@));
    } else {
        assert(text@ =~= old(text)@ + count_text(n as int, sign@));
    }
}

/// The buttons with which a player chooses what a pawn becomes.
#[derive(Copy, Clone, PartialEq, Eq, Structural, Hash, Debug)]
pub enum ButtonIds {
    RookButton,
    BishopButton,
    KnightButon,
    QueenButton,
}

impl ButtonIds {
    /// The kind of piece that the button stands for.
    pub open spec fn spec_promotion(self) -> PieceKind {
        match self {
            ButtonIds::QueenButton => PieceKind::Queen,
            ButtonIds::KnightButon => PieceKind::Knight,
            ButtonIds::BishopButton => PieceKind::Bishop,
            ButtonIds::RookButton => PieceKind::Rook,
        }
    }

    /// The kind of piece that a pawn becomes when the button is clicked.
    #[verifier::when_used_as_spec(spec_promotion)]
    pub fn promotion(self) -> (r: PieceKind)
        ensures
            r == self.spec_promotion(),
    {
        match self {
            ButtonIds::QueenButton => PieceKind::Queen,
            ButtonIds::KnightButon => PieceKind::Knight,
            ButtonIds::BishopButton => PieceKind::Bishop,
            ButtonIds::RookButton => PieceKind::Rook,
        }
    }
}

} // verus!
