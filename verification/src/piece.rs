//! Piece kinds, orientations, and the geometry of a falling piece:
//! local cell offsets, 90-degree rotation, translation, and absolute cells.

use vstd::prelude::*;

verus! {

/// One of the seven tetromino kinds.
#[derive(Clone, Copy, Debug, PartialEq, Eq, Structural)]
pub enum PieceType {
    I,
    O,
    T,
    J,
    L,
    S,
    Z,
}

/// One of the four rotational states of a piece.
#[derive(Clone, Copy, Debug, PartialEq, Eq, Structural)]
pub enum Orientation {
    Deg0,
    Deg90,
    Deg180,
    Deg270,
}

impl Orientation {
    /// The next orientation one quarter turn clockwise.
    pub open spec fn spec_clockwise(self) -> Orientation {
        match self {
            Orientation::Deg0 => Orientation::Deg90,
            Orientation::Deg90 => Orientation::Deg180,
            Orientation::Deg180 => Orientation::Deg270,
            Orientation::Deg270 => Orientation::Deg0,
        }
    }

    /// The next orientation one quarter turn counterclockwise.
    pub open spec fn spec_counterclockwise(self) -> Orientation {
        match self {
            Orientation::Deg0 => Orientation::Deg270,
            Orientation::Deg90 => Orientation::Deg0,
            Orientation::Deg180 => Orientation::Deg90,
            Orientation::Deg270 => Orientation::Deg180,
        }
    }

    /// The next orientation one quarter turn in the given direction.
    pub open spec fn spec_rotated(self, clockwise: bool) -> Orientation {
        if clockwise {
            self.spec_clockwise()
        } else {
            self.spec_counterclockwise()
        }
    }

    pub fn rotate_clockwise(&self) -> (r: Self)
        ensures
            r == self.spec_clockwise(),
    {
        match self {
            Self::Deg0 => Self::Deg90,
            Self::Deg90 => Self::Deg180,
            Self::Deg180 => Self::Deg270,
            Self::Deg270 => Self::Deg0,
        }
    }

    pub fn rotate_counterclockwise(&self) -> (r: Self)
        ensures
            r == self.spec_counterclockwise(),
    {
        match self {
            Self::Deg0 => Self::Deg270,
            Self::Deg90 => Self::Deg0,
            Self::Deg180 => Self::Deg90,
            Self::Deg270 => Self::Deg180,
        }
    }
}

/// A unit move request for the active piece.
#[derive(Clone, Copy, Debug, PartialEq, Eq, Structural)]
pub enum Direction {
    Up,
    Down,
    Left,
    Right,
}

/// The unit translation vector of a move direction; rows grow upward.
pub open spec fn dir_delta(d: Direction) -> (int, int) {
    match d {
        Direction::Up => (0, 1),
        Direction::Down => (0, -1),
        Direction::Left => (-1, 0),
        Direction::Right => (1, 0),
    }
}

/// The four local cell offsets of a piece kind, given at orientation 0.
pub open spec fn kind_offsets(k: PieceType) -> Seq<(int, int)> {
    match k {
        PieceType::I => seq![(-1int, 0int), (0int, 0int), (1int, 0int), (2int, 0int)],
        PieceType::O => seq![(0int, 0int), (1int, 0int), (0int, -1int), (1int, -1int)],
        PieceType::T => seq![(0int, 0int), (1int, 0int), (-1int, 0int), (0int, 1int)],
        PieceType::J => seq![(0int, 0int), (-1int, 0int), (1int, 0int), (-1int, -1int)],
        PieceType::L => seq![(0int, 0int), (-1int, 0int), (1int, 0int), (1int, -1int)],
        PieceType::S => seq![(0int, 0int), (-1int, 0int), (0int, -1int), (1int, -1int)],
        PieceType::Z => seq![(0int, 0int), (1int, 0int), (0int, -1int), (-1int, -1int)],
    }
}

/// The display hue of a piece kind, in degrees on the color wheel.
pub open spec fn spec_hue(k: PieceType) -> u32 {
    match k {
        PieceType::I => 303,
        PieceType::O => 59,
        PieceType::T => 28,
        PieceType::J => 128,
        PieceType::L => 245,
        PieceType::S => 183,
        PieceType::Z => 0,
    }
}

/// A local offset rotated by an orientation, in 90-degree steps:
/// 0 keeps (dx, dy); 90 maps it to (dy, -dx); 180 to (-dx, -dy); 270 to (-dy, dx).
pub open spec fn spec_rotate_offset(o: Orientation, d: (int, int)) -> (int, int) {
    match o {
        Orientation::Deg0 => (d.0, d.1),
        Orientation::Deg90 => (d.1, -d.0),
        Orientation::Deg180 => (-d.0, -d.1),
        Orientation::Deg270 => (-d.1, d.0),
    }
}

/// The absolute cells a piece of kind `k` occupies when anchored at `pos`
/// with orientation `o`: each local offset is rotated, then translated.
pub open spec fn spec_cells_of(k: PieceType, o: Orientation, pos: (int, int)) -> Seq<(int, int)> {
    kind_offsets(k).map_values(
        |d: (int, int)|
            {
                let r = spec_rotate_offset(o, d);
                (pos.0 + r.0, pos.1 + r.1)
            },
    )
}

/// True when an executable cell list agrees pointwise with a mathematical one.
pub open spec fn cells_match(v: Seq<(i32, i32)>, s: Seq<(int, int)>) -> bool {
    &&& v.len() == s.len()
    &&& forall|i: int| 0 <= i < v.len() ==> v[i].0 == s[i].0 && v[i].1 == s[i].1
}

/// Anchor coordinates far enough from the i32 limits that cell arithmetic
/// (offsets, kicks, and unit moves are all of magnitude at most 2) cannot overflow.
pub open spec fn anchor_arith_ok(pos: (i32, i32)) -> bool {
    &&& -8 <= pos.0 <= 100000
    &&& -8 <= pos.1 <= 100000
}

impl PieceType {
    /// The four local cell offsets of this kind at orientation 0.
    pub fn to_squares(&self) -> (r: Vec<(i32, i32)>)
        ensures
            cells_match(r@, kind_offsets(*self)),
            forall|i: int| 0 <= i < r@.len() ==> -2 <= #[trigger] r@[i].0 <= 2 && -2 <= r@[i].1 <= 2,
    {
        match self {
            PieceType::I => four((-1, 0), (0, 0), (1, 0), (2, 0)),
            PieceType::O => four((0, 0), (1, 0), (0, -1), (1, -1)),
            PieceType::T => four((0, 0), (1, 0), (-1, 0), (0, 1)),
            PieceType::J => four((0, 0), (-1, 0), (1, 0), (-1, -1)),
            PieceType::L => four((0, 0), (-1, 0), (1, 0), (1, -1)),
            PieceType::S => four((0, 0), (-1, 0), (0, -1), (1, -1)),
            PieceType::Z => four((0, 0), (1, 0), (0, -1), (-1, -1)),
        }
    }

    /// The sum of the four local offsets of this kind, for preview layout
    /// (divide by 4 outside to get the centroid).
    pub fn offset_sum(&self) -> (r: (i32, i32))
        ensures
            r.0 == kind_offsets(*self)[0].0 + kind_offsets(*self)[1].0 + kind_offsets(*self)[2].0
                + kind_offsets(*self)[3].0,
            r.1 == kind_offsets(*self)[0].1 + kind_offsets(*self)[1].1 + kind_offsets(*self)[2].1
                + kind_offsets(*self)[3].1,
    {
        match self {
            PieceType::I => (2, 0),
            PieceType::O => (2, -2),
            PieceType::T => (0, 1),
            PieceType::J => (-1, -1),
            PieceType::L => (1, -1),
            PieceType::S => (0, -2),
            PieceType::Z => (0, -2),
        }
    }

    /// The display hue of this kind.
    pub fn to_hue(&self) -> (r: u32)
        ensures
            r == spec_hue(*self),
    {
        match self {
            PieceType::I => 303,
            PieceType::O => 59,
            PieceType::T => 28,
            PieceType::J => 128,
            PieceType::L => 245,
            PieceType::S => 183,
            PieceType::Z => 0,
        }
    }
}

/// Builds a four-element cell list.
fn four(a: (i32, i32), b: (i32, i32), c: (i32, i32), d: (i32, i32)) -> (r: Vec<(i32, i32)>)
    ensures
        r@.len() == 4,
        r@[0] == a,
        r@[1] == b,
        r@[2] == c,
        r@[3] == d,
{
    let mut v: Vec<(i32, i32)> = Vec::new();
    v.push(a);
    v.push(b);
    v.push(c);
    v.push(d);
    v
}

/// A local offset rotated by an orientation.
fn rotate_offset(o: Orientation, d: (i32, i32)) -> (r: (i32, i32))
    requires
        -2 <= d.0 <= 2,
        -2 <= d.1 <= 2,
    ensures
        r.0 == spec_rotate_offset(o, (d.0 as int, d.1 as int)).0,
        r.1 == spec_rotate_offset(o, (d.0 as int, d.1 as int)).1,
{
    match o {
        Orientation::Deg0 => (d.0, d.1),
        Orientation::Deg90 => (d.1, -d.0),
        Orientation::Deg180 => (-d.0, -d.1),
        Orientation::Deg270 => (-d.1, d.0),
    }
}

/// A falling piece: a board anchor, a kind, and an orientation.
/// The anchor may leave the grid transiently while a rotation kick
/// or a drop candidate is being tested.
#[derive(Clone, Copy, Debug, PartialEq, Eq)]
pub struct Piece {
    pub position: (i32, i32),
    pub piece_type: PieceType,
    pub orientation: Orientation,
}

impl Piece {
    /// The absolute cells this piece occupies.
    pub open spec fn spec_cells(self) -> Seq<(int, int)> {
        spec_cells_of(self.piece_type, self.orientation, (self.position.0 as int, self.position.1 as int))
    }

    /// Shifts the anchor one cell in the given direction.
    pub fn move_in_direction(&mut self, direction: Direction)
        requires
            anchor_arith_ok(old(self).position),
        ensures
            final(self).position.0 == old(self).position.0 + dir_delta(direction).0,
            final(self).position.1 == old(self).position.1 + dir_delta(direction).1,
            final(self).piece_type == old(self).piece_type,
            final(self).orientation == old(self).orientation,
    {
        match direction {
            Direction::Up => self.position.1 = self.position.1 + 1,
            Direction::Down => self.position.1 = self.position.1 - 1,
            Direction::Left => self.position.0 = self.position.0 - 1,
            Direction::Right => self.position.0 = self.position.0 + 1,
        }
    }

    /// Shifts the anchor by the given offset.
    pub fn translate(&mut self, d: (i32, i32))
        requires
            anchor_arith_ok(old(self).position),
            -2 <= d.0 <= 2,
            -2 <= d.1 <= 2,
        ensures
            final(self).position.0 == old(self).position.0 + d.0,
            final(self).position.1 == old(self).position.1 + d.1,
            final(self).piece_type == old(self).piece_type,
            final(self).orientation == old(self).orientation,
    {
        self.position = (self.position.0 + d.0, self.position.1 + d.1);
    }

    /// Advances the orientation one quarter turn in the given direction.
    pub fn rotate(&mut self, clockwise: bool)
        ensures
            final(self).orientation == old(self).orientation.spec_rotated(clockwise),
            final(self).piece_type == old(self).piece_type,
            final(self).position == old(self).position,
    {
        self.orientation = if clockwise {
            self.orientation.rotate_clockwise()
        } else {
            self.orientation.rotate_counterclockwise()
        };
    }

    /// The absolute cells this piece occupies.
    pub fn squares(&self) -> (r: Vec<(i32, i32)>)
        requires
            anchor_arith_ok(self.position),
        ensures
            cells_match(r@, self.spec_cells()),
    {
        squares_of(self.piece_type, self.orientation, self.position)
    }

    /// The absolute cells after a unit move in the given direction,
    /// without mutating the piece.
    pub fn squares_after_move(&self, direction: Direction) -> (r: Vec<(i32, i32)>)
        requires
            anchor_arith_ok(self.position),
        ensures
            cells_match(
                r@,
                spec_cells_of(
                    self.piece_type,
                    self.orientation,
                    (
                        self.position.0 + dir_delta(direction).0,
                        self.position.1 + dir_delta(direction).1,
                    ),
                ),
            ),
    {
        let (dx, dy): (i32, i32) = match direction {
            Direction::Up => (0, 1),
            Direction::Down => (0, -1),
            Direction::Left => (-1, 0),
            Direction::Right => (1, 0),
        };
        squares_of(
            self.piece_type,
            self.orientation,
            (self.position.0 + dx, self.position.1 + dy),
        )
    }

    /// The ordered kick offsets to try when rotating this piece in the given
    /// direction, from its current kind and orientation.
    pub fn jump_table(&self, clockwise: bool) -> (r: Vec<(i32, i32)>)
        ensures
            cells_match(r@, crate::kicks::spec_kicks(self.piece_type, self.orientation, clockwise)),
            r@.len() == 5,
            forall|i: int| 0 <= i < r@.len() ==> -2 <= #[trigger] r@[i].0 <= 2 && -2 <= r@[i].1 <= 2,
    {
        crate::kicks::kicks_for(self.piece_type, self.orientation, clockwise)
    }

    /// The absolute cells after translating the anchor by `translation` and
    /// advancing the orientation one quarter turn, without mutating the piece.
    /// Rotation resolution tests candidate placements this way.
    pub fn squares_after_translation_rotation(
        &self,
        translation: (i32, i32),
        clockwise: bool,
    ) -> (r: Vec<(i32, i32)>)
        requires
            anchor_arith_ok(self.position),
            -2 <= translation.0 <= 2,
            -2 <= translation.1 <= 2,
        ensures
            cells_match(
                r@,
                spec_cells_of(
                    self.piece_type,
                    self.orientation.spec_rotated(clockwise),
                    (self.position.0 + translation.0, self.position.1 + translation.1),
                ),
            ),
    {
        let o = if clockwise {
            self.orientation.rotate_clockwise()
        } else {
            self.orientation.rotate_counterclockwise()
        };
        squares_of(
            self.piece_type,
            o,
            (self.position.0 + translation.0, self.position.1 + translation.1),
        )
    }
}

/// The absolute cells of a piece of kind `k`, orientation `o`, anchored at `pos`.
fn squares_of(k: PieceType, o: Orientation, pos: (i32, i32)) -> (r: Vec<(i32, i32)>)
    requires
        -16 <= pos.0 <= 100004,
        -16 <= pos.1 <= 100004,
    ensures
        cells_match(r@, spec_cells_of(k, o, (pos.0 as int, pos.1 as int))),
{
    let offs = k.to_squares();
    let mut r: Vec<(i32, i32)> = Vec::new();
    let mut i: usize = 0;
    while i < 4
        invariant
            -16 <= pos.0 <= 100004,
            -16 <= pos.1 <= 100004,
            i <= 4,
            cells_match(offs@, kind_offsets(k)),
            forall|j: int|
                0 <= j < offs@.len() ==> -2 <= #[trigger] offs@[j].0 <= 2 && -2 <= offs@[j].1 <= 2,
            r@.len() == i,
            forall|j: int|
                0 <= j < i ==> #[trigger] r@[j].0 == spec_cells_of(
                    k,
                    o,
                    (pos.0 as int, pos.1 as int),
                )[j].0 && r@[j].1 == spec_cells_of(k, o, (pos.0 as int, pos.1 as int))[j].1,
        decreases 4 - i,
    {
        let d = offs[i];
        let rd = rotate_offset(o, d);
        r.push((pos.0 + rd.0, pos.1 + rd.1));
        proof {
            let ii = i as int;
            let s = spec_cells_of(k, o, (pos.0 as int, pos.1 as int));
            assert((d.0 as int, d.1 as int) == kind_offsets(k)[ii]);
            assert(s[ii].0 == pos.0 + spec_rotate_offset(o, kind_offsets(k)[ii]).0);
            assert(s[ii].1 == pos.1 + spec_rotate_offset(o, kind_offsets(k)[ii]).1);
            assert(r@[ii].0 == s[ii].0 && r@[ii].1 == s[ii].1);
        }
        i = i + 1;
    }
    r
}

/// Every kind's local offsets lie in the box -1..=2 horizontally
/// and -1..=1 vertically at orientation 0.
pub proof fn lemma_offsets_in_box(k: PieceType)
    ensures
        kind_offsets(k).len() == 4,
        forall|i: int|
            0 <= i < 4 ==> -1 <= (#[trigger] kind_offsets(k)[i]).0 <= 2 && -1 <= kind_offsets(
                k,
            )[i].1 <= 1,
{
    assert forall|i: int| 0 <= i < 4 implies -1 <= (#[trigger] kind_offsets(k)[i]).0 <= 2 && -1
        <= kind_offsets(k)[i].1 <= 1 by {
        match k {
            PieceType::I => assert(kind_offsets(k) =~= seq![(-1int, 0int), (0int, 0int), (1int, 0int), (2int, 0int)]),
            PieceType::O => assert(kind_offsets(k) =~= seq![(0int, 0int), (1int, 0int), (0int, -1int), (1int, -1int)]),
            PieceType::T => assert(kind_offsets(k) =~= seq![(0int, 0int), (1int, 0int), (-1int, 0int), (0int, 1int)]),
            PieceType::J => assert(kind_offsets(k) =~= seq![(0int, 0int), (-1int, 0int), (1int, 0int), (-1int, -1int)]),
            PieceType::L => assert(kind_offsets(k) =~= seq![(0int, 0int), (-1int, 0int), (1int, 0int), (1int, -1int)]),
            PieceType::S => assert(kind_offsets(k) =~= seq![(0int, 0int), (-1int, 0int), (0int, -1int), (1int, -1int)]),
            PieceType::Z => assert(kind_offsets(k) =~= seq![(0int, 0int), (1int, 0int), (0int, -1int), (-1int, -1int)]),
        }
    }
}

/// Every kind's offsets include (0, 0), and (0, 0) is fixed by every rotation,
/// so a piece always occupies its own anchor cell.
pub proof fn lemma_anchor_is_cell(k: PieceType, o: Orientation, pos: (int, int))
    ensures
        exists|i: int| 0 <= i < 4 && #[trigger] spec_cells_of(k, o, pos)[i] == pos,
{
    assert(spec_rotate_offset(o, (0int, 0int)) == (0int, 0int));
    match k {
        PieceType::I => {
            assert(kind_offsets(k)[1] == (0int, 0int));
            assert(spec_cells_of(k, o, pos)[1] == pos);
        },
        _ => {
            assert(kind_offsets(k)[0] == (0int, 0int));
            assert(spec_cells_of(k, o, pos)[0] == pos);
        },
    }
}

/// Four quarter turns in one direction return an orientation to itself:
/// clockwise and counterclockwise rotation each generate a cycle of length 4.
pub proof fn lemma_rotation_cycle(o: Orientation, clockwise: bool)
    ensures
        o.spec_rotated(clockwise).spec_rotated(clockwise).spec_rotated(clockwise).spec_rotated(
            clockwise,
        ) == o,
{
}

/// Clockwise and counterclockwise rotation are mutual inverses.
pub proof fn lemma_rotation_inverse(o: Orientation)
    ensures
        o.spec_clockwise().spec_counterclockwise() == o,
        o.spec_counterclockwise().spec_clockwise() == o,
{
}

} // verus!
