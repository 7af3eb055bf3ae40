//! The board: the grid of locked cells, the active piece, the held piece
//! kind, the score, and the terminal flag. All game rules live here:
//! movement, rotation with kick resolution, locking, row clearing, scoring,
//! hold swapping, instant drop, and game-over detection.

use vstd::prelude::*;

use crate::piece::{
    anchor_arith_ok, cells_match, dir_delta, kind_offsets, lemma_anchor_is_cell,
    lemma_offsets_in_box, spec_cells_of, spec_hue, spec_rotate_offset, Direction, Orientation,
    Piece, PieceType,
};
use crate::rng::{random_kind, random_piece_at};

verus! {

/// The playing field and all game state. Rows grow upward: row 0 is the
/// floor, row `height - 1` the top. A `Some` cell is locked with that hue.
pub struct Board {
    pub board: Vec<Vec<Option<u32>>>,
    pub width: usize,
    pub height: usize,
    pub active_piece: Piece,
    pub stored_piece: PieceType,
    pub done: bool,
    pub score: u32,
}

/// The rows of locked cells as a mathematical sequence of rows.
pub open spec fn grid_of(rows: Seq<Vec<Option<u32>>>) -> Seq<Seq<Option<u32>>> {
    rows.map_values(|r: Vec<Option<u32>>| r@)
}

/// Appending a row to the board appends its view to the grid.
pub proof fn lemma_grid_of_push(rows: Seq<Vec<Option<u32>>>, row: Vec<Option<u32>>)
    ensures
        grid_of(rows.push(row)) == grid_of(rows).push(row@),
{
    assert(grid_of(rows.push(row)) =~= grid_of(rows).push(row@));
}

impl Board {
    /// The grid of locked cells as a mathematical sequence of rows.
    pub open spec fn grid(self) -> Seq<Seq<Option<u32>>> {
        grid_of(self.board@)
    }

    /// The grid has the stated dimensions, and they are large enough for a
    /// spawn footprint and small enough for cell arithmetic never to overflow.
    pub open spec fn grid_wf(self) -> bool {
        &&& 5 <= self.width <= 10000
        &&& 5 <= self.height <= 10000
        &&& self.grid().len() == self.height
        &&& forall|y: int| 0 <= y < self.height ==> (#[trigger] self.grid()[y]).len() == self.width
    }

    /// The coordinate lies on the grid.
    pub open spec fn spec_in_range(self, c: (int, int)) -> bool {
        &&& 0 <= c.0 < self.width
        &&& 0 <= c.1 < self.height
    }

    /// The locked content of a cell.
    pub open spec fn spec_cell(self, c: (int, int)) -> Option<u32> {
        self.grid()[c.1][c.0]
    }

    /// The coordinate lies on the grid and is not locked.
    pub open spec fn spec_open(self, c: (int, int)) -> bool {
        &&& self.spec_in_range(c)
        &&& self.spec_cell(c) is None
    }

    /// A piece of kind `k` at orientation `o` anchored at `pos` would occupy
    /// only open cells.
    pub open spec fn fits_at(self, k: PieceType, o: Orientation, pos: (int, int)) -> bool {
        forall|i: int| 0 <= i < 4 ==> self.spec_open(#[trigger] spec_cells_of(k, o, pos)[i])
    }

    /// The piece occupies only open cells at its own anchor and orientation.
    pub open spec fn fits(self, p: Piece) -> bool {
        self.fits_at(p.piece_type, p.orientation, (p.position.0 as int, p.position.1 as int))
    }

    /// All four cells of the piece lie on the grid.
    pub open spec fn piece_in_grid(self, p: Piece) -> bool {
        forall|i: int|
            0 <= i < 4 ==> self.spec_in_range(
                #[trigger] spec_cells_of(
                    p.piece_type,
                    p.orientation,
                    (p.position.0 as int, p.position.1 as int),
                )[i],
            )
    }

    /// Structural well-formedness: the grid has its stated shape and the
    /// active piece lies on the grid, anchor included. Every operation
    /// preserves this unconditionally.
    pub open spec fn wf(self) -> bool {
        &&& self.grid_wf()
        &&& self.piece_in_grid(self.active_piece)
        &&& 0 <= self.active_piece.position.0 < self.width
        &&& 0 <= self.active_piece.position.1 < self.height
    }

    /// In a live game the active piece overlaps no locked cell.
    pub open spec fn active_ok(self) -> bool {
        !self.done ==> self.fits(self.active_piece)
    }

    /// The game invariant: well-formed, and in a live game every cell of the
    /// active piece is in range and open.
    pub open spec fn inv(self) -> bool {
        &&& self.wf()
        &&& self.active_ok()
    }

    /// Locks one cell with the given hue.
    pub fn set_square(&mut self, x: usize, y: usize, hue: u32)
        requires
            old(self).grid_wf(),
            x < old(self).width,
            y < old(self).height,
        ensures
            final(self).grid() == old(self).grid().update(
                y as int,
                old(self).grid()[y as int].update(x as int, Some(hue)),
            ),
            final(self).grid_wf(),
            final(self).width == old(self).width,
            final(self).height == old(self).height,
            final(self).active_piece == old(self).active_piece,
            final(self).stored_piece == old(self).stored_piece,
            final(self).done == old(self).done,
            final(self).score == old(self).score,
    {
        proof {
            assert(self.board@.len() == self.grid().len());
            assert(self.grid()[y as int] == self.board@[y as int]@);
        }
        self.board[y][x] = Some(hue);
        proof {
            assert(final(self).grid() =~= old(self).grid().update(
                y as int,
                old(self).grid()[y as int].update(x as int, Some(hue)),
            ));
            assert forall|r: int| 0 <= r < self.height implies (#[trigger] self.grid()[r]).len()
                == self.width by {}
        }
    }

    /// The locked content of a cell.
    pub fn get_square_hue(&self, x: usize, y: usize) -> (r: Option<u32>)
        requires
            self.grid_wf(),
            x < self.width,
            y < self.height,
        ensures
            r == self.spec_cell((x as int, y as int)),
    {
        self.board[y][x]
    }

    /// Whether a cell is locked.
    pub fn square_filled(&self, x: usize, y: usize) -> (r: bool)
        requires
            self.grid_wf(),
            x < self.width,
            y < self.height,
        ensures
            r == (self.spec_cell((x as int, y as int)) is Some),
    {
        self.board[y][x].is_some()
    }

    /// Whether a coordinate lies on the grid.
    pub fn in_range(&self, c: (i32, i32)) -> (r: bool)
        requires
            self.grid_wf(),
        ensures
            r == self.spec_in_range((c.0 as int, c.1 as int)),
    {
        c.0 >= 0 && c.0 < self.width as i32 && c.1 >= 0 && c.1 < self.height as i32
    }

    /// Whether a coordinate lies on the grid and is not locked; the safe
    /// test preceding every cell access.
    pub fn open_square(&self, c: (i32, i32)) -> (r: bool)
        requires
            self.grid_wf(),
        ensures
            r == self.spec_open((c.0 as int, c.1 as int)),
    {
        if !self.in_range(c) {
            return false;
        }
        !self.square_filled(c.0 as usize, c.1 as usize)
    }

    /// Whether the piece would occupy only open cells where it stands.
    pub fn check_valid_piece_position(&self, piece: &Piece) -> (r: bool)
        requires
            self.grid_wf(),
            anchor_arith_ok(piece.position),
        ensures
            r == self.fits(*piece),
    {
        let sq = piece.squares();
        let ghost cells = piece.spec_cells();
        let mut i: usize = 0;
        while i < 4
            invariant
                self.grid_wf(),
                sq@.len() == 4,
                cells_match(sq@, cells),
                cells == piece.spec_cells(),
                i <= 4,
                forall|j: int| 0 <= j < i ==> self.spec_open(#[trigger] cells[j]),
            decreases 4 - i,
        {
            if !self.open_square(sq[i]) {
                proof {
                    assert(!self.spec_open(cells[i as int]));
                }
                return false;
            }
            i = i + 1;
        }
        true
    }
}

/// The first anchor, in kick order, at which the rotated piece fits:
/// each kick offset is added to `pos` and the first candidate anchor whose
/// four cells are all open wins; `None` when all five trials fail.
pub open spec fn spec_kick_result(
    b: Board,
    k: PieceType,
    o: Orientation,
    pos: (int, int),
    kicks: Seq<(int, int)>,
) -> Option<(int, int)>
    decreases kicks.len(),
{
    if kicks.len() == 0 {
        None
    } else {
        let c = (pos.0 + kicks[0].0, pos.1 + kicks[0].1);
        if b.fits_at(k, o, c) {
            Some(c)
        } else {
            spec_kick_result(b, k, o, pos, kicks.drop_first())
        }
    }
}

impl Board {
    /// A fresh game: an empty grid of the given dimensions, a random active
    /// piece anchored near the top center, a random held kind, score 0.
    pub fn new(width: usize, height: usize) -> (r: Board)
        requires
            5 <= width <= 10000,
            5 <= height <= 10000,
        ensures
            r.width == width,
            r.height == height,
            r.done == false,
            r.score == 0,
            forall|y: int, x: int|
                0 <= y < height && 0 <= x < width ==> r.spec_cell((x, y)) is None,
            r.active_piece.position.0 == width as int / 2,
            r.active_piece.position.1 == height - 4,
            r.active_piece.orientation == Orientation::Deg0,
            r.inv(),
    {
        let mut grid: Vec<Vec<Option<u32>>> = Vec::new();
        let mut y: usize = 0;
        while y < height
            invariant
                y <= height,
                grid@.len() == y,
                forall|j: int|
                    0 <= j < y ==> (#[trigger] grid@[j])@.len() == width && forall|x: int|
                        0 <= x < width ==> grid@[j]@[x] is None,
            decreases height - y,
        {
            grid.push(empty_row(width));
            y = y + 1;
        }
        let r = Board {
            board: grid,
            width,
            height,
            active_piece: random_piece_at(width / 2, height - 4),
            stored_piece: random_kind(),
            done: false,
            score: 0,
        };
        proof {
            let p = r.active_piece;
            let pos = (p.position.0 as int, p.position.1 as int);
            lemma_offsets_in_box(p.piece_type);
            assert forall|i: int| 0 <= i < 4 implies r.spec_open(
                #[trigger] spec_cells_of(p.piece_type, p.orientation, pos)[i],
            ) by {
                let d = kind_offsets(p.piece_type)[i];
                assert(spec_rotate_offset(Orientation::Deg0, d) == d);
                assert(spec_cells_of(p.piece_type, p.orientation, pos)[i] == (
                    pos.0 + d.0,
                    pos.1 + d.1,
                ));
            }
            assert(r.fits(p));
        }
        r
    }

    /// Tries to move the active piece one cell in the given direction.
    /// The move commits exactly when every resulting cell is in range and
    /// open; otherwise the board is left unchanged. Rejected requests and
    /// requests on a terminal board return false.
    pub fn move_piece(&mut self, direction: Direction) -> (moved: bool)
        requires
            old(self).wf(),
        ensures
            final(self).wf(),
            old(self).done ==> *final(self) == *old(self) && moved == false,
            !old(self).done ==> {
                let np = (
                    old(self).active_piece.position.0 + dir_delta(direction).0,
                    old(self).active_piece.position.1 + dir_delta(direction).1,
                );
                &&& moved == old(self).fits_at(
                    old(self).active_piece.piece_type,
                    old(self).active_piece.orientation,
                    np,
                )
                &&& (moved ==> {
                    &&& final(self).active_piece.position.0 == np.0
                    &&& final(self).active_piece.position.1 == np.1
                    &&& final(self).active_piece.piece_type == old(self).active_piece.piece_type
                    &&& final(self).active_piece.orientation == old(self).active_piece.orientation
                    &&& final(self).board == old(self).board
                    &&& final(self).width == old(self).width
                    &&& final(self).height == old(self).height
                    &&& final(self).stored_piece == old(self).stored_piece
                    &&& final(self).done == old(self).done
                    &&& final(self).score == old(self).score
                })
                &&& (!moved ==> *final(self) == *old(self))
            },
            old(self).inv() ==> final(self).inv(),
    {
        if self.done {
            return false;
        }
        let mut cand = self.active_piece;
        cand.move_in_direction(direction);
        if self.check_valid_piece_position(&cand) {
            proof {
                lemma_fits_anchor(
                    *self,
                    cand.piece_type,
                    cand.orientation,
                    (cand.position.0 as int, cand.position.1 as int),
                );
            }
            self.active_piece = cand;
            true
        } else {
            false
        }
    }

    /// Exchanges the active piece's kind with the held kind, keeping the
    /// anchor and orientation, but only when the held kind's piece would
    /// occupy only open cells there; otherwise, and on a terminal board,
    /// nothing changes.
    pub fn swap_stored(&mut self)
        requires
            old(self).wf(),
        ensures
            final(self).wf(),
            old(self).done ==> *final(self) == *old(self),
            !old(self).done ==> {
                let swapped = old(self).fits_at(
                    old(self).stored_piece,
                    old(self).active_piece.orientation,
                    (
                        old(self).active_piece.position.0 as int,
                        old(self).active_piece.position.1 as int,
                    ),
                );
                &&& (swapped ==> {
                    &&& final(self).active_piece.piece_type == old(self).stored_piece
                    &&& final(self).stored_piece == old(self).active_piece.piece_type
                    &&& final(self).active_piece.position == old(self).active_piece.position
                    &&& final(self).active_piece.orientation == old(self).active_piece.orientation
                    &&& final(self).board == old(self).board
                    &&& final(self).width == old(self).width
                    &&& final(self).height == old(self).height
                    &&& final(self).done == old(self).done
                    &&& final(self).score == old(self).score
                })
                &&& (!swapped ==> *final(self) == *old(self))
            },
            old(self).inv() ==> final(self).inv(),
    {
        if self.done {
            return ;
        }
        let mut cand = self.active_piece;
        cand.piece_type = self.stored_piece;
        if self.check_valid_piece_position(&cand) {
            let old_kind = self.active_piece.piece_type;
            self.active_piece = cand;
            self.stored_piece = old_kind;
        }
    }

    /// Rotates the active piece one quarter turn in the given direction,
    /// resolving obstructions through the kick table: the five kick offsets
    /// are tried in order and the first legal placement commits, with the
    /// advanced orientation. When no trial fits, or the board is terminal,
    /// nothing changes.
    pub fn rotate_piece(&mut self, clockwise: bool)
        requires
            old(self).wf(),
        ensures
            final(self).wf(),
            old(self).done ==> *final(self) == *old(self),
            !old(self).done ==> {
                let k = old(self).active_piece.piece_type;
                let no = old(self).active_piece.orientation.spec_rotated(clockwise);
                let pos = (
                    old(self).active_piece.position.0 as int,
                    old(self).active_piece.position.1 as int,
                );
                let kicks = crate::kicks::spec_kicks(
                    k,
                    old(self).active_piece.orientation,
                    clockwise,
                );
                match spec_kick_result(*old(self), k, no, pos, kicks) {
                    Some(c) => {
                        &&& final(self).active_piece.position.0 == c.0
                        &&& final(self).active_piece.position.1 == c.1
                        &&& final(self).active_piece.piece_type == k
                        &&& final(self).active_piece.orientation == no
                        &&& final(self).board == old(self).board
                        &&& final(self).width == old(self).width
                        &&& final(self).height == old(self).height
                        &&& final(self).stored_piece == old(self).stored_piece
                        &&& final(self).done == old(self).done
                        &&& final(self).score == old(self).score
                    },
                    None => *final(self) == *old(self),
                }
            },
            old(self).inv() ==> final(self).inv(),
    {
        if self.done {
            return ;
        }
        let jumps = self.active_piece.jump_table(clockwise);
        let mut rotated = self.active_piece;
        rotated.rotate(clockwise);
        let ghost orig: Board = *self;
        let ghost k = rotated.piece_type;
        let ghost no = rotated.orientation;
        let ghost pos = (
            self.active_piece.position.0 as int,
            self.active_piece.position.1 as int,
        );
        let ghost kicks = crate::kicks::spec_kicks(
            k,
            self.active_piece.orientation,
            clockwise,
        );
        proof {
            assert(kicks.skip(0) =~= kicks);
        }
        let mut i: usize = 0;
        while i < 5
            invariant
                *self == orig,
                orig == *old(self),
                orig.wf(),
                !orig.done,
                i <= 5,
                jumps@.len() == 5,
                cells_match(jumps@, kicks),
                forall|j: int|
                    0 <= j < jumps@.len() ==> -2 <= (#[trigger] jumps@[j]).0 <= 2 && -2
                        <= jumps@[j].1 <= 2,
                rotated.piece_type == k,
                rotated.orientation == no,
                k == orig.active_piece.piece_type,
                no == orig.active_piece.orientation.spec_rotated(clockwise),
                kicks == crate::kicks::spec_kicks(k, orig.active_piece.orientation, clockwise),
                rotated.position.0 == orig.active_piece.position.0,
                rotated.position.1 == orig.active_piece.position.1,
                pos == (orig.active_piece.position.0 as int, orig.active_piece.position.1 as int),
                0 <= pos.0 < orig.width <= 10000,
                0 <= pos.1 < orig.height <= 10000,
                spec_kick_result(orig, k, no, pos, kicks) == spec_kick_result(
                    orig,
                    k,
                    no,
                    pos,
                    kicks.skip(i as int),
                ),
            decreases 5 - i,
        {
            let jump = jumps[i];
            let mut cand = rotated;
            cand.translate(jump);
            if self.check_valid_piece_position(&cand) {
                proof {
                    let c = (pos.0 + kicks[i as int].0, pos.1 + kicks[i as int].1);
                    assert(kicks.skip(i as int)[0] == kicks[i as int]);
                    assert((cand.position.0 as int, cand.position.1 as int) == c);
                    assert(orig.fits_at(k, no, c));
                    assert(spec_kick_result(orig, k, no, pos, kicks.skip(i as int)) == Some(c));
                    lemma_fits_anchor(orig, k, no, c);
                }
                self.active_piece = cand;
                return ;
            }
            proof {
                let c = (pos.0 + kicks[i as int].0, pos.1 + kicks[i as int].1);
                assert(kicks.skip(i as int)[0] == kicks[i as int]);
                assert((cand.position.0 as int, cand.position.1 as int) == c);
                assert(!orig.fits_at(k, no, c));
                assert(kicks.skip(i as int).drop_first() =~= kicks.skip(i as int + 1));
                assert(spec_kick_result(orig, k, no, pos, kicks.skip(i as int))
                    == spec_kick_result(orig, k, no, pos, kicks.skip(i as int + 1)));
            }
            i = i + 1;
        }
        proof {
            assert(kicks.skip(5) =~= Seq::<(int, int)>::empty());
            assert(spec_kick_result(orig, k, no, pos, kicks) is None);
        }
    }
}

/// The resting row for a piece of kind `k`, orientation `o`, column anchor
/// `x`, scanned downward from anchor row `y`: the lowest row reachable
/// through consecutive legal placements; the scan stops at the first row
/// whose next row down does not fit.
pub open spec fn spec_drop_y(b: Board, k: PieceType, o: Orientation, x: int, y: int) -> int
    decreases y,
{
    if y <= 0 {
        y
    } else if !b.fits_at(k, o, (x, y - 1)) {
        y
    } else {
        spec_drop_y(b, k, o, x, y - 1)
    }
}

/// A row every cell of which is locked.
pub open spec fn spec_row_full(row: Seq<Option<u32>>) -> bool {
    forall|x: int| 0 <= x < row.len() ==> (#[trigger] row[x]) is Some
}

/// The rows of a grid that are not full, in order.
pub open spec fn spec_kept_rows(g: Seq<Seq<Option<u32>>>) -> Seq<Seq<Option<u32>>> {
    g.filter(|r: Seq<Option<u32>>| !spec_row_full(r))
}

/// How many rows of a grid are full.
pub open spec fn spec_cleared_count(g: Seq<Seq<Option<u32>>>) -> int {
    g.len() - spec_kept_rows(g).len()
}

/// A row of `w` open cells.
pub open spec fn spec_empty_row(w: int) -> Seq<Option<u32>> {
    Seq::new(w as nat, |i: int| None::<u32>)
}

/// A grid after clearing: the full rows are removed, the rows above them
/// shift down, and as many empty rows are appended at the top.
pub open spec fn spec_clear_grid(g: Seq<Seq<Option<u32>>>, w: int) -> Seq<Seq<Option<u32>>> {
    spec_kept_rows(g) + Seq::new(spec_cleared_count(g) as nat, |i: int| spec_empty_row(w))
}

/// The score awarded for clearing `n` rows at once: 0, 100, 300, 500, and
/// 800 from a quadruple clear up.
pub open spec fn spec_points(n: int) -> u32 {
    if n <= 0 {
        0
    } else if n == 1 {
        100
    } else if n == 2 {
        300
    } else if n == 3 {
        500
    } else {
        800
    }
}

/// A score increased by points, capped at the integer limit.
pub open spec fn spec_add_points(score: u32, points: u32) -> u32 {
    if score + points <= u32::MAX {
        (score + points) as u32
    } else {
        u32::MAX
    }
}

/// A grid with one more cell locked at `c` with the given hue.
pub open spec fn spec_lock_cell(
    g: Seq<Seq<Option<u32>>>,
    c: (int, int),
    hue: u32,
) -> Seq<Seq<Option<u32>>> {
    g.update(c.1, g[c.1].update(c.0, Some(hue)))
}

/// A grid with the first `n` of the given cells locked with the given hue.
pub open spec fn spec_lock_cells(
    g: Seq<Seq<Option<u32>>>,
    cells: Seq<(int, int)>,
    hue: u32,
    n: int,
) -> Seq<Seq<Option<u32>>>
    decreases n,
{
    if n <= 0 {
        g
    } else {
        spec_lock_cell(spec_lock_cells(g, cells, hue, n - 1), cells[n - 1], hue)
    }
}

/// The grid after the active piece's four cells are locked with its hue.
pub open spec fn spec_locked_grid(b: Board) -> Seq<Seq<Option<u32>>> {
    spec_lock_cells(
        b.grid(),
        b.active_piece.spec_cells(),
        spec_hue(b.active_piece.piece_type),
        4,
    )
}

/// The cells of a freshly spawned piece of kind `k` on a `w` by `h` grid:
/// anchored at the board-center column, two rows below the top, orientation 0.
pub open spec fn spec_spawn_cells_of(k: PieceType, w: int, h: int) -> Seq<(int, int)> {
    spec_cells_of(k, Orientation::Deg0, (w / 2, h - 2))
}

/// Whether any of the four cells is locked in the grid.
pub open spec fn spec_collides(g: Seq<Seq<Option<u32>>>, cells: Seq<(int, int)>) -> bool {
    exists|i: int| 0 <= i < 4 && g[(#[trigger] cells[i]).1][cells[i].0] is Some
}

/// On any well-shaped grid the spawn footprint lies entirely on the grid:
/// the dimensions admit the widest kind and the tallest kind at the spawn
/// anchor.
pub proof fn lemma_spawn_cells_in_range(b: Board, k: PieceType)
    requires
        b.grid_wf(),
    ensures
        forall|i: int|
            0 <= i < 4 ==> b.spec_in_range(
                #[trigger] spec_spawn_cells_of(k, b.width as int, b.height as int)[i],
            ),
{
    let w = b.width as int;
    let h = b.height as int;
    lemma_offsets_in_box(k);
    assert forall|i: int| 0 <= i < 4 implies b.spec_in_range(
        #[trigger] spec_spawn_cells_of(k, w, h)[i],
    ) by {
        let d = kind_offsets(k)[i];
        assert(spec_rotate_offset(Orientation::Deg0, d) == d);
        assert(spec_spawn_cells_of(k, w, h)[i] == (w / 2 + d.0, h - 2 + d.1));
        assert(w / 2 + 2 <= w - 1);
        assert(w / 2 - 1 >= 0);
    }
}

/// No rows are kept from an empty grid.
pub proof fn lemma_kept_empty()
    ensures
        spec_kept_rows(Seq::<Seq<Option<u32>>>::empty()) == Seq::<Seq<Option<u32>>>::empty(),
{
    reveal_with_fuel(Seq::filter, 1);
}

/// The kept rows are never more numerous than the grid's rows.
pub proof fn lemma_kept_len(g: Seq<Seq<Option<u32>>>)
    ensures
        spec_kept_rows(g).len() <= g.len(),
    decreases g.len(),
{
    reveal_with_fuel(Seq::filter, 1);
    if g.len() > 0 {
        lemma_kept_len(g.drop_last());
    }
}

/// Appending a row keeps it exactly when it is not full.
pub proof fn lemma_kept_step(g: Seq<Seq<Option<u32>>>, row: Seq<Option<u32>>)
    ensures
        !spec_row_full(row) ==> spec_kept_rows(g.push(row)) == spec_kept_rows(g).push(row),
        spec_row_full(row) ==> spec_kept_rows(g.push(row)) == spec_kept_rows(g),
{
    reveal_with_fuel(Seq::filter, 1);
    assert(g.push(row).drop_last() =~= g);
    assert(g.push(row).last() == row);
}

/// A grid with no full rows clears to itself.
pub proof fn lemma_clear_noop(g: Seq<Seq<Option<u32>>>, w: int)
    requires
        spec_cleared_count(g) == 0,
    ensures
        spec_clear_grid(g, w) == g,
{
    lemma_full_filter(g);
    assert(spec_clear_grid(g, w) =~= g);
}

/// When no row is dropped, the kept rows are the grid itself.
proof fn lemma_full_filter(g: Seq<Seq<Option<u32>>>)
    requires
        spec_kept_rows(g).len() == g.len(),
    ensures
        spec_kept_rows(g) == g,
    decreases g.len(),
{
    reveal_with_fuel(Seq::filter, 1);
    if g.len() > 0 {
        lemma_kept_len(g.drop_last());
        if !spec_row_full(g.last()) {
            lemma_full_filter(g.drop_last());
            assert(spec_kept_rows(g) =~= g);
        } else {
            assert(spec_kept_rows(g) == spec_kept_rows(g.drop_last()));
            assert(false);
        }
    } else {
        assert(spec_kept_rows(g) =~= g);
    }
}

impl Board {
    /// The deepest legal downward placement of the active piece, without
    /// mutating the board: the piece slides straight down and comes to rest
    /// on the last row it can legally occupy.
    pub fn instant_drop_piece(&self) -> (r: Piece)
        requires
            self.wf(),
        ensures
            r.piece_type == self.active_piece.piece_type,
            r.orientation == self.active_piece.orientation,
            r.position.0 == self.active_piece.position.0,
            r.position.1 == spec_drop_y(
                *self,
                self.active_piece.piece_type,
                self.active_piece.orientation,
                self.active_piece.position.0 as int,
                self.active_piece.position.1 as int,
            ),
            0 <= r.position.1 <= self.active_piece.position.1,
            forall|t: int|
                r.position.1 <= t < self.active_piece.position.1 ==> self.fits_at(
                    self.active_piece.piece_type,
                    self.active_piece.orientation,
                    (self.active_piece.position.0 as int, t),
                ),
            !self.fits_at(
                self.active_piece.piece_type,
                self.active_piece.orientation,
                (self.active_piece.position.0 as int, r.position.1 - 1),
            ),
            self.fits(self.active_piece) ==> self.fits(r),
    {
        let ghost k = self.active_piece.piece_type;
        let ghost o = self.active_piece.orientation;
        let ghost x0 = self.active_piece.position.0 as int;
        let ghost y0 = self.active_piece.position.1 as int;
        let mut cand = self.active_piece;
        loop
            invariant
                self.wf(),
                cand.piece_type == k,
                cand.orientation == o,
                cand.position.0 == self.active_piece.position.0,
                k == self.active_piece.piece_type,
                o == self.active_piece.orientation,
                x0 == self.active_piece.position.0 as int,
                y0 == self.active_piece.position.1 as int,
                0 <= cand.position.1 <= y0,
                forall|t: int| cand.position.1 <= t < y0 ==> self.fits_at(k, o, (x0, t)),
                spec_drop_y(*self, k, o, x0, y0) == spec_drop_y(
                    *self,
                    k,
                    o,
                    x0,
                    cand.position.1 as int,
                ),
            ensures
                cand.piece_type == k,
                cand.orientation == o,
                cand.position.0 == self.active_piece.position.0,
                0 <= cand.position.1 <= y0,
                forall|t: int| cand.position.1 <= t < y0 ==> self.fits_at(k, o, (x0, t)),
                spec_drop_y(*self, k, o, x0, y0) == spec_drop_y(
                    *self,
                    k,
                    o,
                    x0,
                    cand.position.1 as int,
                ),
                !self.fits_at(k, o, (x0, cand.position.1 - 1)),
            decreases cand.position.1,
        {
            let below = Piece {
                position: (cand.position.0, cand.position.1 - 1),
                piece_type: cand.piece_type,
                orientation: cand.orientation,
            };
            if !self.check_valid_piece_position(&below) {
                break ;
            }
            proof {
                lemma_fits_anchor(*self, k, o, (x0, cand.position.1 - 1));
            }
            cand = below;
        }
        proof {
            if cand.position.1 > 0 {
                assert(spec_drop_y(*self, k, o, x0, cand.position.1 as int) == cand.position.1
                    as int);
            }
        }
        cand
    }

    /// Removes every full row, shifts the rows above each down by one,
    /// appends as many open rows at the top, and adds the score for the
    /// number of rows cleared in this single call (capped at the integer
    /// limit).
    pub fn clear_full_rows(&mut self)
        requires
            old(self).wf(),
        ensures
            final(self).wf(),
            final(self).grid() == spec_clear_grid(old(self).grid(), old(self).width as int),
            final(self).score == spec_add_points(
                old(self).score,
                spec_points(spec_cleared_count(old(self).grid())),
            ),
            final(self).width == old(self).width,
            final(self).height == old(self).height,
            final(self).active_piece == old(self).active_piece,
            final(self).stored_piece == old(self).stored_piece,
            final(self).done == old(self).done,
            final(self).score >= old(self).score,
            forall|y: int|
                0 <= y < final(self).height ==> !spec_row_full(#[trigger] final(self).grid()[y]),
            forall|y: int|
                old(self).height - spec_cleared_count(old(self).grid()) <= y < old(self).height
                    ==> final(self).grid()[y] == spec_empty_row(old(self).width as int),
            old(self).inv() && spec_cleared_count(old(self).grid()) == 0 ==> final(self).inv()
                && final(self).grid() == old(self).grid(),
    {
        let ghost g0 = self.grid();
        let mut kept: Vec<Vec<Option<u32>>> = Vec::new();
        let mut cleared: usize = 0;
        let mut y: usize = 0;
        proof {
            assert(g0.subrange(0, 0) =~= Seq::<Seq<Option<u32>>>::empty());
            lemma_kept_empty();
            assert(grid_of(kept@) =~= Seq::<Seq<Option<u32>>>::empty());
        }
        while y < self.height
            invariant
                self.wf(),
                g0 == self.grid(),
                y <= self.height,
                grid_of(kept@) == spec_kept_rows(g0.subrange(0, y as int)),
                kept@.len() + cleared == y,
                forall|j: int|
                    0 <= j < kept@.len() ==> (#[trigger] kept@[j])@.len() == self.width
                        && !spec_row_full(kept@[j]@),
            decreases self.height - y,
        {
            proof {
                assert(g0.subrange(0, y as int + 1).drop_last() =~= g0.subrange(0, y as int));
                assert(g0.subrange(0, y as int + 1) == g0.subrange(0, y as int).push(g0[y as int]))
                    by {
                    assert(g0.subrange(0, y as int + 1) =~= g0.subrange(0, y as int).push(
                        g0[y as int],
                    ));
                }
                lemma_kept_step(g0.subrange(0, y as int), g0[y as int]);
            }
            if self.row_is_full(y) {
                cleared = cleared + 1;
            } else {
                let row = self.copy_row(y);
                proof {
                    lemma_grid_of_push(kept@, row);
                }
                kept.push(row);
            }
            y = y + 1;
        }
        proof {
            assert(g0.subrange(0, self.height as int) =~= g0);
        }
        let ghost kept0 = grid_of(kept@);
        let target = self.height;
        let width = self.width;
        proof {
            assert(grid_of(kept@) =~= kept0 + Seq::new(0, |i: int| spec_empty_row(width as int)));
        }
        while kept.len() < target
            invariant
                kept@.len() >= kept0.len(),
                kept@.len() <= target,
                grid_of(kept@) == kept0 + Seq::new(
                    (kept@.len() - kept0.len()) as nat,
                    |i: int| spec_empty_row(width as int),
                ),
                forall|j: int|
                    kept0.len() <= j < kept@.len() ==> (#[trigger] kept@[j])@ == spec_empty_row(
                        width as int,
                    ),
            decreases target - kept.len(),
        {
            let row = empty_row(width);
            proof {
                assert(row@ =~= spec_empty_row(width as int));
                lemma_grid_of_push(kept@, row);
            }
            kept.push(row);
            proof {
                assert(grid_of(kept@) =~= kept0 + Seq::new(
                    (kept@.len() - kept0.len()) as nat,
                    |i: int| spec_empty_row(width as int),
                ));
            }
        }
        let points = points_for(cleared);
        let total = self.score as u64 + points as u64;
        self.score = if total > u32::MAX as u64 {
            u32::MAX
        } else {
            total as u32
        };
        self.board = kept;
        proof {
            lemma_kept_len(g0);
            assert(final(self).grid() =~= spec_clear_grid(g0, old(self).width as int));
            assert forall|r: int| 0 <= r < self.height implies !spec_row_full(
                #[trigger] self.grid()[r],
            ) by {
                if r >= kept0.len() {
                    assert(self.grid()[r] == spec_empty_row(width as int));
                    assert(self.grid()[r][0] is None);
                }
            }
            if spec_cleared_count(g0) == 0 {
                lemma_clear_noop(g0, old(self).width as int);
            }
        }
    }

    /// Whether every cell of a row is locked.
    fn row_is_full(&self, y: usize) -> (r: bool)
        requires
            self.grid_wf(),
            y < self.height,
        ensures
            r == spec_row_full(self.grid()[y as int]),
    {
        let mut x: usize = 0;
        while x < self.width
            invariant
                self.grid_wf(),
                y < self.height,
                x <= self.width,
                forall|j: int| 0 <= j < x ==> (#[trigger] self.grid()[y as int][j]) is Some,
            decreases self.width - x,
        {
            if !self.square_filled(x, y) {
                return false;
            }
            x = x + 1;
        }
        true
    }

    /// A copy of one row of the grid.
    fn copy_row(&self, y: usize) -> (r: Vec<Option<u32>>)
        requires
            self.grid_wf(),
            y < self.height,
        ensures
            r@ == self.grid()[y as int],
    {
        let mut v: Vec<Option<u32>> = Vec::new();
        let mut x: usize = 0;
        while x < self.width
            invariant
                self.grid_wf(),
                y < self.height,
                x <= self.width,
                v@.len() == x,
                forall|j: int| 0 <= j < x ==> v@[j] == self.grid()[y as int][j],
            decreases self.width - x,
        {
            v.push(self.get_square_hue(x, y));
            x = x + 1;
        }
        proof {
            assert(v@ =~= self.grid()[y as int]);
        }
        v
    }

    /// Locks the active piece's four cells into the grid with its hue, then
    /// spawns the held kind at the spawn anchor with a fresh random held
    /// kind; the game becomes terminal exactly when the spawned piece's
    /// cells overlap a locked cell. On a terminal board nothing changes.
    pub fn lock_and_renew_active_piece(&mut self)
        requires
            old(self).wf(),
        ensures
            final(self).wf(),
            old(self).done ==> *final(self) == *old(self),
            !old(self).done ==> {
                let locked = spec_locked_grid(*old(self));
                let scells = spec_spawn_cells_of(
                    old(self).stored_piece,
                    old(self).width as int,
                    old(self).height as int,
                );
                &&& final(self).grid() == locked
                &&& final(self).active_piece.position.0 == old(self).width as int / 2
                &&& final(self).active_piece.position.1 == old(self).height - 2
                &&& final(self).active_piece.piece_type == old(self).stored_piece
                &&& final(self).active_piece.orientation == Orientation::Deg0
                &&& final(self).done == spec_collides(locked, scells)
                &&& final(self).score == old(self).score
                &&& final(self).width == old(self).width
                &&& final(self).height == old(self).height
            },
            !old(self).done ==> (final(self).fits(final(self).active_piece)
                <==> !final(self).done),
            final(self).inv() || *final(self) == *old(self),
    {
        if self.done {
            return ;
        }
        let ghost orig = *self;
        let sq = self.active_piece.squares();
        let hue = self.active_piece.piece_type.to_hue();
        let ghost cells = self.active_piece.spec_cells();
        let mut i: usize = 0;
        while i < 4
            invariant
                orig.wf(),
                !orig.done,
                orig == *old(self),
                sq@.len() == 4,
                cells_match(sq@, cells),
                cells == orig.active_piece.spec_cells(),
                hue == spec_hue(orig.active_piece.piece_type),
                i <= 4,
                self.width == orig.width,
                self.height == orig.height,
                self.active_piece == orig.active_piece,
                self.stored_piece == orig.stored_piece,
                self.done == orig.done,
                self.score == orig.score,
                self.grid_wf(),
                self.grid() == spec_lock_cells(orig.grid(), cells, hue, i as int),
            decreases 4 - i,
        {
            proof {
                assert(orig.spec_in_range(cells[i as int]));
            }
            let c = sq[i];
            self.set_square(c.0 as usize, c.1 as usize, hue);
            i = i + 1;
        }
        let new_kind = random_kind();
        let old_stored = self.stored_piece;
        self.stored_piece = new_kind;
        let new_piece = Piece {
            position: ((self.width / 2) as i32, (self.height - 2) as i32),
            piece_type: old_stored,
            orientation: Orientation::Deg0,
        };
        let ghost locked = self.grid();
        let ghost scells = spec_spawn_cells_of(orig.stored_piece, orig.width as int, orig.height as int);
        proof {
            assert(locked == spec_locked_grid(orig));
            lemma_spawn_cells_in_range(*self, old_stored);
            assert(new_piece.spec_cells() == scells);
        }
        let nsq = new_piece.squares();
        let mut j: usize = 0;
        while j < 4
            invariant
                orig.wf(),
                !orig.done,
                orig == *old(self),
                self.grid_wf(),
                self.grid() == locked,
                locked == spec_locked_grid(orig),
                self.width == orig.width,
                self.height == orig.height,
                self.active_piece == orig.active_piece,
                self.score == orig.score,
                nsq@.len() == 4,
                cells_match(nsq@, scells),
                scells == spec_spawn_cells_of(orig.stored_piece, orig.width as int, orig.height as int),
                forall|t: int| 0 <= t < 4 ==> self.spec_in_range(#[trigger] scells[t]),
                j <= 4,
                self.done == exists|t: int|
                    0 <= t < j && locked[(#[trigger] scells[t]).1][scells[t].0] is Some,
            decreases 4 - j,
        {
            let c = nsq[j];
            if self.in_range(c) && self.square_filled(c.0 as usize, c.1 as usize) {
                self.done = true;
                proof {
                    assert(locked[scells[j as int].1][scells[j as int].0] is Some);
                }
            }
            j = j + 1;
        }
        self.active_piece = new_piece;
        proof {
            assert(self.done == spec_collides(locked, scells));
            assert(self.piece_in_grid(new_piece));
            if !self.done {
                assert forall|t: int| 0 <= t < 4 implies self.spec_open(
                    #[trigger] new_piece.spec_cells()[t],
                ) by {
                    assert(!(locked[scells[t].1][scells[t].0] is Some));
                }
            }
            if self.done {
                let t = choose|t: int|
                    0 <= t < 4 && locked[(#[trigger] scells[t]).1][scells[t].0] is Some;
                assert(!self.spec_open(new_piece.spec_cells()[t]));
            }
        }
    }

    /// One frame of the game: the active piece tries to move one row down;
    /// when it cannot, it locks and the held kind spawns (possibly ending
    /// the game); in all cases full rows are then cleared and scored.
    /// A terminal board is left unchanged.
    pub fn tick(&mut self)
        requires
            old(self).wf(),
        ensures
            final(self).wf(),
            final(self).score >= old(self).score,
            !old(self).done ==> forall|y: int|
                0 <= y < final(self).height ==> !spec_row_full(#[trigger] final(self).grid()[y]),
            old(self).done ==> *final(self) == *old(self),
            !old(self).done ==> {
                let k = old(self).active_piece.piece_type;
                let o = old(self).active_piece.orientation;
                let x = old(self).active_piece.position.0 as int;
                let y = old(self).active_piece.position.1 as int;
                let w = old(self).width as int;
                let down_ok = old(self).fits_at(k, o, (x, y - 1));
                &&& (down_ok ==> {
                    &&& final(self).grid() == spec_clear_grid(old(self).grid(), w)
                    &&& final(self).score == spec_add_points(
                        old(self).score,
                        spec_points(spec_cleared_count(old(self).grid())),
                    )
                    &&& final(self).active_piece.position.0 == x
                    &&& final(self).active_piece.position.1 == y - 1
                    &&& final(self).active_piece.piece_type == k
                    &&& final(self).active_piece.orientation == o
                    &&& final(self).stored_piece == old(self).stored_piece
                    &&& final(self).done == false
                })
                &&& (!down_ok ==> {
                    let locked = spec_locked_grid(*old(self));
                    let scells = spec_spawn_cells_of(
                        old(self).stored_piece,
                        w,
                        old(self).height as int,
                    );
                    &&& final(self).grid() == spec_clear_grid(locked, w)
                    &&& final(self).score == spec_add_points(
                        old(self).score,
                        spec_points(spec_cleared_count(locked)),
                    )
                    &&& final(self).active_piece.position.0 == w / 2
                    &&& final(self).active_piece.position.1 == old(self).height - 2
                    &&& final(self).active_piece.piece_type == old(self).stored_piece
                    &&& final(self).active_piece.orientation == Orientation::Deg0
                    &&& final(self).done == spec_collides(locked, scells)
                })
                &&& final(self).width == old(self).width
                &&& final(self).height == old(self).height
            },
            old(self).inv() && !old(self).done ==> {
                let k = old(self).active_piece.piece_type;
                let o = old(self).active_piece.orientation;
                let x = old(self).active_piece.position.0 as int;
                let y = old(self).active_piece.position.1 as int;
                let down_ok = old(self).fits_at(k, o, (x, y - 1));
                &&& (down_ok && spec_cleared_count(old(self).grid()) == 0 ==> final(self).inv())
                &&& (!down_ok && (final(self).done || spec_cleared_count(
                    spec_locked_grid(*old(self)),
                ) == 0) ==> final(self).inv())
            },
    {
        if self.done {
            return ;
        }
        let ghost s0 = *self;
        let moved = self.move_piece(Direction::Down);
        if !moved {
            self.lock_and_renew_active_piece();
        }
        let ghost s2 = *self;
        self.clear_full_rows();
        proof {
            if moved {
                if spec_cleared_count(s0.grid()) == 0 {
                    lemma_clear_noop(s0.grid(), s0.width as int);
                }
            } else {
                if !self.done && spec_cleared_count(spec_locked_grid(s0)) == 0 {
                    lemma_clear_noop(spec_locked_grid(s0), s0.width as int);
                    assert(s2.fits(s2.active_piece));
                    assert(self.fits(self.active_piece));
                }
            }
        }
    }

    /// Drops the active piece to its deepest legal placement and locks it
    /// at once: the drop is followed by the same lock, spawn, and clear
    /// sequence as a frame in which the piece cannot move down.
    /// A terminal board is left unchanged.
    pub fn do_instant_drop(&mut self)
        requires
            old(self).wf(),
        ensures
            final(self).wf(),
            final(self).score >= old(self).score,
            !old(self).done ==> forall|y: int|
                0 <= y < final(self).height ==> !spec_row_full(#[trigger] final(self).grid()[y]),
            old(self).done ==> *final(self) == *old(self),
            !old(self).done ==> {
                let k = old(self).active_piece.piece_type;
                let o = old(self).active_piece.orientation;
                let x = old(self).active_piece.position.0 as int;
                let y = old(self).active_piece.position.1 as int;
                let w = old(self).width as int;
                let dy = spec_drop_y(*old(self), k, o, x, y);
                let locked = spec_lock_cells(
                    old(self).grid(),
                    spec_cells_of(k, o, (x, dy)),
                    spec_hue(k),
                    4,
                );
                let scells = spec_spawn_cells_of(
                    old(self).stored_piece,
                    w,
                    old(self).height as int,
                );
                &&& final(self).grid() == spec_clear_grid(locked, w)
                &&& final(self).score == spec_add_points(
                    old(self).score,
                    spec_points(spec_cleared_count(locked)),
                )
                &&& final(self).active_piece.position.0 == w / 2
                &&& final(self).active_piece.position.1 == old(self).height - 2
                &&& final(self).active_piece.piece_type == old(self).stored_piece
                &&& final(self).active_piece.orientation == Orientation::Deg0
                &&& final(self).done == spec_collides(locked, scells)
                &&& final(self).width == old(self).width
                &&& final(self).height == old(self).height
            },
            old(self).inv() && !old(self).done ==> {
                let k = old(self).active_piece.piece_type;
                let o = old(self).active_piece.orientation;
                let x = old(self).active_piece.position.0 as int;
                let y = old(self).active_piece.position.1 as int;
                let locked = spec_lock_cells(
                    old(self).grid(),
                    spec_cells_of(k, o, (x, spec_drop_y(*old(self), k, o, x, y))),
                    spec_hue(k),
                    4,
                );
                (final(self).done || spec_cleared_count(locked) == 0) ==> final(self).inv()
            },
    {
        if self.done {
            return ;
        }
        let ghost s0 = *self;
        let dropped = self.instant_drop_piece();
        proof {
            if dropped.position.1 < s0.active_piece.position.1 {
                assert(s0.fits_at(
                    s0.active_piece.piece_type,
                    s0.active_piece.orientation,
                    (s0.active_piece.position.0 as int, dropped.position.1 as int),
                ));
                lemma_fits_anchor(
                    s0,
                    s0.active_piece.piece_type,
                    s0.active_piece.orientation,
                    (s0.active_piece.position.0 as int, dropped.position.1 as int),
                );
                assert(s0.fits(dropped));
            } else {
                assert(dropped.position.1 == s0.active_piece.position.1);
                assert(dropped.position == s0.active_piece.position);
                assert(dropped == s0.active_piece);
            }
        }
        self.active_piece = dropped;
        proof {
            assert(self.wf());
        }
        self.tick();
    }
}

/// Clearing a grid that holds exactly four full rows at once awards exactly
/// 800 points, leaves no full row behind, and appends four open rows at the
/// top, as long as the score has room for the award.
pub proof fn lemma_quadruple_clear(g: Seq<Seq<Option<u32>>>, w: int, score: u32)
    requires
        spec_cleared_count(g) == 4,
        score <= u32::MAX - 800,
    ensures
        spec_add_points(score, spec_points(spec_cleared_count(g))) == score + 800,
        spec_clear_grid(g, w).len() == g.len(),
        forall|y: int|
            g.len() - 4 <= y < g.len() ==> #[trigger] spec_clear_grid(g, w)[y] == spec_empty_row(
                w,
            ),
{
    lemma_kept_len(g);
}

/// The character a cell prints as: `*` for a locked cell, `+` for a cell of
/// the active piece, a space for an open cell.
pub open spec fn spec_cell_char(b: Board, x: int, y: int) -> char {
    if b.spec_cell((x, y)) is Some {
        '*'
    } else if b.active_piece.spec_cells().contains((x, y)) {
        '+'
    } else {
        ' '
    }
}

/// The first `n` cell characters of row `y`, left to right.
pub open spec fn spec_row_chars(b: Board, y: int, n: int) -> Seq<char>
    decreases n,
{
    if n <= 0 {
        Seq::empty()
    } else {
        spec_row_chars(b, y, n - 1).push(spec_cell_char(b, n - 1, y))
    }
}

/// One printed row: the cell characters of row `y` between `|` walls.
pub open spec fn spec_line(b: Board, y: int) -> Seq<char> {
    seq!['|'] + spec_row_chars(b, y, b.width as int) + seq!['|']
}

/// The topmost `k` printed rows, top row first, each ending in a newline.
pub open spec fn spec_rows_down(b: Board, k: int) -> Seq<char>
    decreases k,
{
    if k <= 0 {
        Seq::empty()
    } else {
        spec_rows_down(b, k - 1) + spec_line(b, b.height - k) + seq!['\n']
    }
}

/// The horizontal border: `+`, `w` dashes, `+`, and a newline.
pub open spec fn spec_border(w: int) -> Seq<char> {
    seq!['+'] + Seq::new(if w >= 0 {
        w as nat
    } else {
        0
    }, |i: int| '-') + seq!['+', '\n']
}

/// The whole text picture: a border, the rows from top to bottom, a border.
pub open spec fn spec_render(b: Board) -> Seq<char> {
    spec_border(b.width as int) + spec_rows_down(b, b.height as int) + spec_border(b.width as int)
}

impl Board {
    /// A text picture of the board: the grid between borders, rows printed
    /// from top to bottom, locked cells as `*`, the active piece as `+`.
    pub fn render_string(&self) -> (r: String)
        requires
            self.wf(),
        ensures
            r@ == spec_render(*self),
    {
        proof {
            reveal_strlit("|");
            reveal_strlit("*");
            reveal_strlit("+");
            reveal_strlit(" ");
            reveal_strlit("|\n");
        }
        let border = self.border_string();
        let mut s = String::new();
        s.append(border.as_str());
        let sq = self.active_piece.squares();
        let ghost cells = self.active_piece.spec_cells();
        let mut i: usize = 0;
        proof {
            assert(s@ =~= spec_border(self.width as int) + spec_rows_down(*self, 0));
        }
        while i < self.height
            invariant
                self.wf(),
                i <= self.height,
                sq@.len() == 4,
                cells_match(sq@, cells),
                cells == self.active_piece.spec_cells(),
                s@ == spec_border(self.width as int) + spec_rows_down(*self, i as int),
            decreases self.height - i,
        {
            let y = self.height - 1 - i;
            let ghost line_start = s@;
            s.append("|");
            proof {
                reveal_strlit("|");
                assert("|"@ =~= seq!['|']);
                assert(s@ =~= line_start + seq!['|'] + spec_row_chars(*self, y as int, 0));
            }
            let mut x: usize = 0;
            while x < self.width
                invariant
                    self.wf(),
                    i < self.height,
                    y == self.height - 1 - i,
                    x <= self.width,
                    sq@.len() == 4,
                    cells_match(sq@, cells),
                    cells == self.active_piece.spec_cells(),
                    s@ == line_start + seq!['|'] + spec_row_chars(*self, y as int, x as int),
                decreases self.width - x,
            {
                let ghost before = s@;
                if self.square_filled(x, y) {
                    s.append("*");
                    proof {
                        reveal_strlit("*");
                        assert("*"@ =~= seq!['*']);
                        assert(spec_cell_char(*self, x as int, y as int) == '*');
                    }
                } else if contains_cell(&sq, x as i32, y as i32) {
                    s.append("+");
                    proof {
                        reveal_strlit("+");
                        assert("+"@ =~= seq!['+']);
                        let c = (x as int, y as int);
                        let w = choose|t: int|
                            0 <= t < sq@.len() && sq@[t].0 == x as i32 && sq@[t].1 == y as i32;
                        assert(cells[w] == c);
                        assert(cells.contains(c));
                        assert(spec_cell_char(*self, x as int, y as int) == '+');
                    }
                } else {
                    s.append(" ");
                    proof {
                        reveal_strlit(" ");
                        assert(" "@ =~= seq![' ']);
                        let c = (x as int, y as int);
                        if cells.contains(c) {
                            let t = choose|t: int| 0 <= t < cells.len() && cells[t] == c;
                            assert(sq@[t].0 == x as i32 && sq@[t].1 == y as i32);
                            assert(false);
                        }
                        assert(spec_cell_char(*self, x as int, y as int) == ' ');
                    }
                }
                proof {
                    assert(s@ == before.push(spec_cell_char(*self, x as int, y as int))) by {
                        assert(s@ =~= before.push(spec_cell_char(*self, x as int, y as int)));
                    }
                    assert(s@ =~= line_start + seq!['|'] + spec_row_chars(
                        *self,
                        y as int,
                        x as int + 1,
                    ));
                }
                x = x + 1;
            }
            s.append("|\n");
            proof {
                reveal_strlit("|\n");
                assert("|\n"@.len() == 2 && "|\n"@[0] == '|' && "|\n"@[1] == '\n');
                assert(spec_line(*self, y as int) =~= seq!['|'] + spec_row_chars(
                    *self,
                    y as int,
                    self.width as int,
                ) + seq!['|']);
                assert(self.height - (i as int + 1) == y as int);
                assert(s@ =~= spec_border(self.width as int) + spec_rows_down(
                    *self,
                    i as int + 1,
                ));
            }
            i = i + 1;
        }
        s.append(border.as_str());
        proof {
            assert(s@ =~= spec_render(*self));
        }
        s
    }

    /// The horizontal border line of the text picture.
    fn border_string(&self) -> (r: String)
        requires
            self.grid_wf(),
        ensures
            r@ == spec_border(self.width as int),
    {
        proof {
            reveal_strlit("+");
            reveal_strlit("-");
            reveal_strlit("+\n");
        }
        let mut s = String::new();
        s.append("+");
        let mut i: usize = 0;
        proof {
            assert("+"@ =~= seq!['+']);
            assert(s@ =~= seq!['+'] + Seq::new(0, |j: int| '-'));
        }
        while i < self.width
            invariant
                i <= self.width,
                s@ == seq!['+'] + Seq::new(i as nat, |j: int| '-'),
            decreases self.width - i,
        {
            s.append("-");
            proof {
                reveal_strlit("-");
                assert("-"@ =~= seq!['-']);
                assert(s@ =~= seq!['+'] + Seq::new(i as nat + 1, |j: int| '-'));
            }
            i = i + 1;
        }
        s.append("+\n");
        proof {
            assert("+\n"@.len() == 2 && "+\n"@[0] == '+' && "+\n"@[1] == '\n');
            assert(s@ =~= spec_border(self.width as int));
        }
        s
    }
}

/// Whether the executable cell list holds the given coordinate.
fn contains_cell(v: &Vec<(i32, i32)>, x: i32, y: i32) -> (r: bool)
    ensures
        r == exists|i: int| 0 <= i < v@.len() && v@[i].0 == x && v@[i].1 == y,
{
    let mut i: usize = 0;
    while i < v.len()
        invariant
            i <= v@.len(),
            forall|j: int| 0 <= j < i ==> !(v@[j].0 == x && v@[j].1 == y),
        decreases v@.len() - i,
    {
        let c = v[i];
        if c.0 == x && c.1 == y {
            return true;
        }
        i = i + 1;
    }
    false
}

/// The score for clearing `n` rows in one call.
fn points_for(n: usize) -> (r: u32)
    ensures
        r == spec_points(n as int),
{
    if n == 0 {
        0
    } else if n == 1 {
        100
    } else if n == 2 {
        300
    } else if n == 3 {
        500
    } else {
        800
    }
}

/// Builds a row of open cells.
fn empty_row(width: usize) -> (r: Vec<Option<u32>>)
    ensures
        r@.len() == width,
        forall|i: int| 0 <= i < width ==> r@[i] is None,
{
    let mut v: Vec<Option<u32>> = Vec::new();
    let mut i: usize = 0;
    while i < width
        invariant
            i <= width,
            v@.len() == i,
            forall|j: int| 0 <= j < i ==> v@[j] is None,
        decreases width - i,
    {
        v.push(None);
        i = i + 1;
    }
    v
}

/// A piece that fits somewhere on a well-shaped grid has its anchor on the
/// grid, because the anchor is one of its cells.
pub proof fn lemma_fits_anchor(b: Board, k: PieceType, o: Orientation, pos: (int, int))
    requires
        b.fits_at(k, o, pos),
    ensures
        0 <= pos.0 < b.width,
        0 <= pos.1 < b.height,
{
    lemma_anchor_is_cell(k, o, pos);
}

} // verus!
