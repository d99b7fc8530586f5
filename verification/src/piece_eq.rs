//! Equality of pieces: two pieces are equal where they stand on the same
//! square and belong to the same side, whatever their kinds.

use crate::piece::{Piece, PieceData};
use vstd::prelude::*;
use vstd::std_specs::cmp::PartialEqSpecImpl;

verus! {

impl PartialEq for PieceData {
    fn eq(&self, other: &PieceData) -> (r: bool) {
        self.position[0] == other.position[0] && self.position[1] == other.position[1]
            && self.side == other.side
    }
}

impl PartialEqSpecImpl for PieceData {
    open spec fn obeys_eq_spec() -> bool {
        true
    }

    open spec fn eq_spec(&self, other: &PieceData) -> bool {
        self.position[0] == other.position[0] && self.position[1] == other.position[1]
            && self.side == other.side
    }
}

impl Eq for Piece {

}

impl PartialEq for Piece {
    fn eq(&self, other: &Piece) -> (r: bool) {
        let mine = self.data();
        let theirs = other.data();
        mine.position[0] == theirs.position[0] && mine.position[1] == theirs.position[1]
            && mine.side == theirs.side
    }
}

impl PartialEqSpecImpl for Piece {
    open spec fn obeys_eq_spec() -> bool {
        true
    }

    open spec fn eq_spec(&self, other: &Piece) -> bool {
        self.spec_data().position[0] == other.spec_data().position[0]
            && self.spec_data().position[1] == other.spec_data().position[1]
            && self.spec_data().side == other.spec_data().side
    }
}

} // verus!
