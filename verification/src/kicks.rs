//! The wall-kick table: for each piece kind, pre-rotation orientation, and
//! rotation direction, an ordered list of five trial translation offsets.
//! A rotation commits at the first offset whose cells are all legal.
//! The values are a compatibility contract: they decide which wall and floor
//! escapes a rotation may use and in what priority.

use vstd::prelude::*;

use crate::piece::{cells_match, Orientation, PieceType};

verus! {

/// The ordered kick offsets tried when a piece of kind `k` at orientation `o`
/// is rotated in direction `clockwise`. The first entry is always (0, 0).
/// The O kind never needs a kick; the I kind has its own table; the other
/// five kinds share one, indexed by the pre-rotation orientation and the
/// rotation direction.
pub open spec fn spec_kicks(k: PieceType, o: Orientation, clockwise: bool) -> Seq<(int, int)> {
    match k {
        PieceType::O => seq![
            (0int, 0int),
            (0int, 0int),
            (0int, 0int),
            (0int, 0int),
            (0int, 0int),
        ],
        PieceType::I => match (o, clockwise) {
            (Orientation::Deg0, true) => seq![
                (0int, 0int),
                (-2int, 0int),
                (1int, 0int),
                (-2int, -1int),
                (1int, 2int),
            ],
            (Orientation::Deg90, false) => seq![
                (0int, 0int),
                (2int, 0int),
                (-1int, 0int),
                (2int, 1int),
                (-1int, -2int),
            ],
            (Orientation::Deg90, true) => seq![
                (0int, 0int),
                (-1int, 0int),
                (2int, 0int),
                (-1int, 2int),
                (2int, -1int),
            ],
            (Orientation::Deg180, false) => seq![
                (0int, 0int),
                (1int, 0int),
                (-2int, 0int),
                (1int, -2int),
                (-2int, 1int),
            ],
            (Orientation::Deg180, true) => seq![
                (0int, 0int),
                (2int, 0int),
                (-1int, 0int),
                (2int, 1int),
                (-1int, -2int),
            ],
            (Orientation::Deg270, false) => seq![
                (0int, 0int),
                (-2int, 0int),
                (1int, 0int),
                (-2int, -1int),
                (1int, 2int),
            ],
            (Orientation::Deg270, true) => seq![
                (0int, 0int),
                (1int, 0int),
                (-2int, 0int),
                (1int, -2int),
                (-2int, 1int),
            ],
            (Orientation::Deg0, false) => seq![
                (0int, 0int),
                (-1int, 0int),
                (2int, 0int),
                (-1int, 2int),
                (2int, -1int),
            ],
        },
        _ => match (o, clockwise) {
            (Orientation::Deg0, true) => seq![
                (0int, 0int),
                (-1int, 0int),
                (-1int, 1int),
                (0int, -2int),
                (-1int, -2int),
            ],
            (Orientation::Deg90, false) => seq![
                (0int, 0int),
                (1int, 0int),
                (1int, -1int),
                (0int, 2int),
                (1int, 2int),
            ],
            (Orientation::Deg90, true) => seq![
                (0int, 0int),
                (1int, 0int),
                (1int, -1int),
                (0int, 2int),
                (1int, 2int),
            ],
            (Orientation::Deg180, false) => seq![
                (0int, 0int),
                (-1int, 0int),
                (-1int, 1int),
                (0int, -2int),
                (-1int, -2int),
            ],
            (Orientation::Deg180, true) => seq![
                (0int, 0int),
                (1int, 0int),
                (1int, 1int),
                (0int, -2int),
                (1int, -2int),
            ],
            (Orientation::Deg270, false) => seq![
                (0int, 0int),
                (-1int, 0int),
                (-1int, -1int),
                (0int, 2int),
                (-1int, 2int),
            ],
            (Orientation::Deg270, true) => seq![
                (0int, 0int),
                (-1int, 0int),
                (-1int, -1int),
                (0int, 2int),
                (-1int, 2int),
            ],
            (Orientation::Deg0, false) => seq![
                (0int, 0int),
                (1int, 0int),
                (1int, 1int),
                (0int, -2int),
                (1int, -2int),
            ],
        },
    }
}

/// The kick offsets as executable values, in trial order.
pub fn kicks_for(k: PieceType, o: Orientation, clockwise: bool) -> (r: Vec<(i32, i32)>)
    ensures
        cells_match(r@, spec_kicks(k, o, clockwise)),
        r@.len() == 5,
        forall|i: int| 0 <= i < r@.len() ==> -2 <= #[trigger] r@[i].0 <= 2 && -2 <= r@[i].1 <= 2,
{
    match k {
        PieceType::O => five((0, 0), (0, 0), (0, 0), (0, 0), (0, 0)),
        PieceType::I => match (o, clockwise) {
            (Orientation::Deg0, true) => five((0, 0), (-2, 0), (1, 0), (-2, -1), (1, 2)),
            (Orientation::Deg90, false) => five((0, 0), (2, 0), (-1, 0), (2, 1), (-1, -2)),
            (Orientation::Deg90, true) => five((0, 0), (-1, 0), (2, 0), (-1, 2), (2, -1)),
            (Orientation::Deg180, false) => five((0, 0), (1, 0), (-2, 0), (1, -2), (-2, 1)),
            (Orientation::Deg180, true) => five((0, 0), (2, 0), (-1, 0), (2, 1), (-1, -2)),
            (Orientation::Deg270, false) => five((0, 0), (-2, 0), (1, 0), (-2, -1), (1, 2)),
            (Orientation::Deg270, true) => five((0, 0), (1, 0), (-2, 0), (1, -2), (-2, 1)),
            (Orientation::Deg0, false) => five((0, 0), (-1, 0), (2, 0), (-1, 2), (2, -1)),
        },
        _ => match (o, clockwise) {
            (Orientation::Deg0, true) => five((0, 0), (-1, 0), (-1, 1), (0, -2), (-1, -2)),
            (Orientation::Deg90, false) => five((0, 0), (1, 0), (1, -1), (0, 2), (1, 2)),
            (Orientation::Deg90, true) => five((0, 0), (1, 0), (1, -1), (0, 2), (1, 2)),
            (Orientation::Deg180, false) => five((0, 0), (-1, 0), (-1, 1), (0, -2), (-1, -2)),
            (Orientation::Deg180, true) => five((0, 0), (1, 0), (1, 1), (0, -2), (1, -2)),
            (Orientation::Deg270, false) => five((0, 0), (-1, 0), (-1, -1), (0, 2), (-1, 2)),
            (Orientation::Deg270, true) => five((0, 0), (-1, 0), (-1, -1), (0, 2), (-1, 2)),
            (Orientation::Deg0, false) => five((0, 0), (1, 0), (1, 1), (0, -2), (1, -2)),
        },
    }
}

/// Builds a five-element offset list.
fn five(a: (i32, i32), b: (i32, i32), c: (i32, i32), d: (i32, i32), e: (i32, i32)) -> (r: Vec<
    (i32, i32),
>)
    ensures
        r@.len() == 5,
        r@[0] == a,
        r@[1] == b,
        r@[2] == c,
        r@[3] == d,
        r@[4] == e,
{
    let mut v: Vec<(i32, i32)> = Vec::new();
    v.push(a);
    v.push(b);
    v.push(c);
    v.push(d);
    v.push(e);
    v
}

} // verus!
