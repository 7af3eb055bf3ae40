//! Uniform random sampling of piece kinds. The draw itself is delegated to
//! the `rand` crate; the mapping from a drawn index to a kind is verified.

use vstd::prelude::*;

use crate::piece::{Orientation, Piece, PieceType};

verus! {

/// Relies on `rand::thread_rng` and `rand::Rng::gen_range`: a uniform,
/// unbiased draw from the half-open integer range `0..7`, so the result is
/// always below 7. The range is not empty, so the call cannot panic.
#[verifier::external_body]
fn random_below_seven() -> (r: u8)
    ensures
        r < 7,
{
    rand::Rng::gen_range(&mut rand::thread_rng(), 0..7)
}

/// The piece kind at a given index, in the fixed order of the seven kinds.
pub open spec fn kind_at(i: int) -> PieceType {
    if i == 0 {
        PieceType::I
    } else if i == 1 {
        PieceType::O
    } else if i == 2 {
        PieceType::T
    } else if i == 3 {
        PieceType::J
    } else if i == 4 {
        PieceType::L
    } else if i == 5 {
        PieceType::S
    } else {
        PieceType::Z
    }
}

/// The piece kind at a drawn index.
pub fn kind_from_index(i: u8) -> (r: PieceType)
    requires
        i < 7,
    ensures
        r == kind_at(i as int),
{
    if i == 0 {
        PieceType::I
    } else if i == 1 {
        PieceType::O
    } else if i == 2 {
        PieceType::T
    } else if i == 3 {
        PieceType::J
    } else if i == 4 {
        PieceType::L
    } else if i == 5 {
        PieceType::S
    } else {
        PieceType::Z
    }
}

/// A piece kind sampled uniformly from the seven kinds, each with
/// probability 1/7. Nothing can be promised about which kind comes back.
pub fn random_kind() -> PieceType {
    kind_from_index(random_below_seven())
}

/// A freshly spawned piece: a random kind at the given anchor, orientation 0.
pub fn random_piece_at(x: usize, y: usize) -> (r: Piece)
    requires
        x <= 100000,
        y <= 100000,
    ensures
        r.position.0 == x,
        r.position.1 == y,
        r.orientation == Orientation::Deg0,
{
    Piece { position: (x as i32, y as i32), piece_type: random_kind(), orientation: Orientation::Deg0 }
}

} // verus!
