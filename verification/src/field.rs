//! Toroidal grid geometry: cells, world positions, and the conversions
//! between them. World space is measured in integer world units; the field is
//! a `dim_x` by `dim_y` grid of square cells centred on `offset`, and stepping
//! off one edge re-enters on the opposite edge.

use vstd::prelude::*;

use crate::direction::Direction;

verus! {

use vstd::arithmetic::div_mod::{
    lemma_fundamental_div_mod,
    lemma_fundamental_div_mod_converse_mod,
    lemma_div_pos_is_pos,
    lemma_multiply_divide_lt,
};

/// Largest accepted grid dimension along either axis.
pub const MAX_DIM: i32 = 10_000;

/// Largest accepted cell size, in world units.
pub const MAX_CELL_SIZE: i64 = 1_000_000;

/// Largest accepted magnitude of the field's world offset.
pub const MAX_OFFSET: i64 = 1_000_000_000_000;

/// A position in world space, in integer world units.
#[derive(Clone, Copy, Debug, PartialEq, Eq, Structural)]
pub struct WorldVec {
    pub x: i64,
    pub y: i64,
}

/// An integer coordinate pair on the field grid.
#[derive(Clone, Copy, Debug, PartialEq, Eq, Structural)]
pub struct Cell {
    pub i: i32,
    pub j: i32,
}

impl Cell {
    pub fn new(x: i32, y: i32) -> (r: Cell)
        ensures
            r.i == x,
            r.j == y,
    {
        Cell { i: x, j: y }
    }

    pub fn i(&self) -> (r: i32)
        ensures
            r == self.i,
    {
        self.i
    }

    pub fn j(&self) -> (r: i32)
        ensures
            r == self.j,
    {
        self.j
    }
}

/// A cell's coordinates as a mathematical pair.
pub open spec fn cell_xy(c: Cell) -> (int, int) {
    (c.i as int, c.j as int)
}

/// A world position's coordinates as a mathematical pair.
pub open spec fn pos_xy(p: WorldVec) -> (int, int) {
    (p.x as int, p.y as int)
}

/// Wrapping of one coordinate onto `[0, max)`, for a coordinate that has
/// moved at most one field length off either edge.
pub open spec fn wrap_spec(x: int, max: int) -> int {
    if x < 0 {
        x + max
    } else if x >= max {
        x - max
    } else {
        x
    }
}

/// A positive size divided evenly by a positive count gives a positive
/// quotient that multiplies back to the size.
proof fn lemma_exact_division(s: int, d: int)
    requires
        0 < d,
        0 < s,
        s % d == 0,
    ensures
        0 < s / d,
        d * (s / d) == s,
        (s / d) * d == s,
{
    lemma_fundamental_div_mod(s, d);
    if s / d <= 0 {
        assert(d * (s / d) <= 0) by (nonlinear_arith)
            requires
                0 < d,
                s / d <= 0,
        ;
    }
    assert(d * (s / d) == (s / d) * d) by (nonlinear_arith);
}

/// The product of a bounded positive cell size and a bounded positive
/// dimension stays within the field size bound.
proof fn lemma_size_in_range(cs: int, dim: int)
    requires
        0 < cs <= MAX_CELL_SIZE,
        0 < dim <= MAX_DIM,
    ensures
        0 < cs * dim <= (MAX_CELL_SIZE as int) * (MAX_DIM as int),
{
    assert(0 < cs * dim <= (MAX_CELL_SIZE as int) * (MAX_DIM as int)) by (nonlinear_arith)
        requires
            0 < cs <= MAX_CELL_SIZE,
            0 < dim <= MAX_DIM,
    ;
}

/// A cell index strictly inside the dimension keeps its scaled offset
/// strictly inside the field size.
proof fn lemma_cell_offset_in_range(i: int, cs: int, dim: int)
    requires
        0 <= i < dim,
        0 < cs,
    ensures
        0 <= i * cs,
        i * cs + cs <= cs * dim,
{
    assert(0 <= i * cs && i * cs + cs <= cs * dim) by (nonlinear_arith)
        requires
            0 <= i < dim,
            0 < cs,
    ;
}

/// The non-negative remainder of `a` divided by a positive `b`, as the
/// mathematical modulus gives it.
fn euclid_rem(a: i64, b: i64) -> (r: i64)
    requires
        0 < b,
        -4 * MAX_OFFSET <= a <= 4 * MAX_OFFSET,
    ensures
        r as int == (a as int) % (b as int),
{
    if a >= 0 {
        a % b
    } else {
        let m = (-a) % b;
        if m == 0 {
            proof {
                let q0 = (-(a as int)) / (b as int);
                lemma_fundamental_div_mod(-(a as int), b as int);
                assert(a as int == (-q0) * (b as int) + 0) by (nonlinear_arith)
                    requires
                        -(a as int) == (b as int) * q0,
                ;
                lemma_fundamental_div_mod_converse_mod(a as int, b as int, -q0, 0);
            }
            0
        } else {
            proof {
                let q0 = (-(a as int)) / (b as int);
                lemma_fundamental_div_mod(-(a as int), b as int);
                assert(a as int == (-q0 - 1) * (b as int) + ((b as int) - (m as int)))
                    by (nonlinear_arith)
                    requires
                        -(a as int) == (b as int) * q0 + (m as int),
                ;
                lemma_fundamental_div_mod_converse_mod(
                    a as int,
                    b as int,
                    -q0 - 1,
                    (b - m) as int,
                );
            }
            b - m
        }
    }
}

/// The toroidal grid and its geometry conversions. Immutable during play but
/// for a cosmetic rescale of the cell size.
pub struct Field {
    pub dim_x: i32,
    pub dim_y: i32,
    pub cell_size: i64,
    pub offset_x: i64,
    pub offset_y: i64,
}

impl Field {
    /// The geometric invariant every field holds: positive bounded
    /// dimensions, a positive bounded square cell size, a bounded offset.
    pub open spec fn wf(self) -> bool {
        &&& 0 < self.dim_x <= MAX_DIM
        &&& 0 < self.dim_y <= MAX_DIM
        &&& 0 < self.cell_size <= MAX_CELL_SIZE
        &&& -MAX_OFFSET <= self.offset_x <= MAX_OFFSET
        &&& -MAX_OFFSET <= self.offset_y <= MAX_OFFSET
    }

    pub open spec fn in_bounds(self, c: Cell) -> bool {
        &&& 0 <= c.i < self.dim_x
        &&& 0 <= c.j < self.dim_y
    }

    pub open spec fn size_x_spec(self) -> int {
        self.cell_size * self.dim_x
    }

    pub open spec fn size_y_spec(self) -> int {
        self.cell_size * self.dim_y
    }

    pub open spec fn bottom_left_x(self) -> int {
        self.offset_x - self.size_x_spec() / 2
    }

    pub open spec fn bottom_left_y(self) -> int {
        self.offset_y - self.size_y_spec() / 2
    }

    /// The world-space centre of a cell.
    pub open spec fn center_spec(self, c: Cell) -> (int, int) {
        (
            self.bottom_left_x() + c.i * self.cell_size + self.cell_size / 2,
            self.bottom_left_y() + c.j * self.cell_size + self.cell_size / 2,
        )
    }

    /// Whether a world position lies on the field rectangle.
    pub open spec fn on_field(self, t: WorldVec) -> bool {
        &&& self.bottom_left_x() <= t.x < self.bottom_left_x() + self.size_x_spec()
        &&& self.bottom_left_y() <= t.y < self.bottom_left_y() + self.size_y_spec()
    }

    /// The cell holding a world position: floor division of the position
    /// relative to the field's bottom-left corner by the cell size.
    pub open spec fn cell_spec(self, tx: int, ty: int) -> (int, int) {
        (
            (tx - self.bottom_left_x()) / (self.cell_size as int),
            (ty - self.bottom_left_y()) / (self.cell_size as int),
        )
    }

    /// One toroidal step of length `dist` from `c` along `d`: the moved axis
    /// wraps back onto the grid.
    pub open spec fn step_spec(self, c: Cell, d: Direction, dist: int) -> (int, int) {
        match d {
            Direction::Left => (wrap_spec(c.i - dist, self.dim_x as int), c.j as int),
            Direction::Right => (wrap_spec(c.i + dist, self.dim_x as int), c.j as int),
            Direction::Up => (c.i as int, wrap_spec(c.j + dist, self.dim_y as int)),
            Direction::Down => (c.i as int, wrap_spec(c.j - dist, self.dim_y as int)),
        }
    }

    /// Whether a grid configuration is accepted: positive bounded dimensions,
    /// a size that divides into square cells, a bounded offset.
    pub open spec fn valid_config(dim: (i32, i32), size: (i64, i64), translation: (i64, i64)) -> bool {
        &&& 0 < dim.0 <= MAX_DIM
        &&& 0 < dim.1 <= MAX_DIM
        &&& 0 < size.0
        &&& 0 < size.1
        &&& size.0 % (dim.0 as i64) == 0
        &&& size.1 % (dim.1 as i64) == 0
        &&& size.0 / (dim.0 as i64) == size.1 / (dim.1 as i64)
        &&& size.0 / (dim.0 as i64) <= MAX_CELL_SIZE
        &&& -MAX_OFFSET <= translation.0 <= MAX_OFFSET
        &&& -MAX_OFFSET <= translation.1 <= MAX_OFFSET
    }

    /// Builds the field from grid dimensions, the total world-space size of
    /// the rectangle, and its world-space offset. The cell size is derived
    /// here, once, and the cells must come out square.
    pub fn new(dim: (i32, i32), size: (i64, i64), translation: (i64, i64)) -> (r: Field)
        requires
            Self::valid_config(dim, size, translation),
        ensures
            r.wf(),
            r.dim_x == dim.0,
            r.dim_y == dim.1,
            r.cell_size == size.0 / (dim.0 as i64),
            r.offset_x == translation.0,
            r.offset_y == translation.1,
            r.size_x_spec() == size.0,
            r.size_y_spec() == size.1,
    {
        proof {
            lemma_exact_division(size.0 as int, dim.0 as int);
            lemma_exact_division(size.1 as int, dim.1 as int);
        }
        let cell_size = size.0 / (dim.0 as i64);
        Field {
            dim_x: dim.0,
            dim_y: dim.1,
            cell_size,
            offset_x: translation.0,
            offset_y: translation.1,
        }
    }

    /// Checked construction: `None` exactly when the configuration breaks the
    /// grid invariant, so that a host can refuse to start a session on
    /// malformed geometry instead of producing a silently wrong grid.
    pub fn try_new(dim: (i32, i32), size: (i64, i64), translation: (i64, i64)) -> (r: Option<
        Field,
    >)
        ensures
            (r is Some) <==> Self::valid_config(dim, size, translation),
            r matches Some(f) ==> {
                &&& f.wf()
                &&& f.dim_x == dim.0
                &&& f.dim_y == dim.1
                &&& f.cell_size == size.0 / (dim.0 as i64)
                &&& f.offset_x == translation.0
                &&& f.offset_y == translation.1
            },
    {
        if !(0 < dim.0 && dim.0 <= MAX_DIM && 0 < dim.1 && dim.1 <= MAX_DIM) {
            return None;
        }
        if !(0 < size.0 && 0 < size.1) {
            return None;
        }
        if !(size.0 % (dim.0 as i64) == 0 && size.1 % (dim.1 as i64) == 0) {
            return None;
        }
        let cell_size = size.0 / (dim.0 as i64);
        if !(size.1 / (dim.1 as i64) == cell_size && cell_size <= MAX_CELL_SIZE) {
            return None;
        }
        if !(-MAX_OFFSET <= translation.0 && translation.0 <= MAX_OFFSET && -MAX_OFFSET
            <= translation.1 && translation.1 <= MAX_OFFSET) {
            return None;
        }
        proof {
            lemma_exact_division(size.0 as int, dim.0 as int);
        }
        Some(
            Field {
                dim_x: dim.0,
                dim_y: dim.1,
                cell_size,
                offset_x: translation.0,
                offset_y: translation.1,
            },
        )
    }

    /// The cell size a viewport of `window_size` allows: the lesser of the
    /// per-axis quotients of the viewport left of the offset by the
    /// dimensions.
    pub open spec fn cell_size_for(dim: (i32, i32), offset: (i64, i64), window_size: (i64, i64)) -> int {
        let cw = (window_size.0 - offset.0) / (dim.0 as int);
        let ch = (window_size.1 - offset.1) / (dim.1 as int);
        if cw <= ch {
            cw
        } else {
            ch
        }
    }

    fn calculate_cell_size(dim: (i32, i32), offset: (i64, i64), window_size: (i64, i64)) -> (r:
        i64)
        requires
            0 < dim.0 <= MAX_DIM,
            0 < dim.1 <= MAX_DIM,
            -MAX_OFFSET <= offset.0 <= MAX_OFFSET,
            -MAX_OFFSET <= offset.1 <= MAX_OFFSET,
            -MAX_OFFSET <= window_size.0 <= MAX_OFFSET,
            -MAX_OFFSET <= window_size.1 <= MAX_OFFSET,
            offset.0 <= window_size.0,
            offset.1 <= window_size.1,
        ensures
            r == Self::cell_size_for(dim, offset, window_size),
    {
        proof {
            lemma_div_pos_is_pos((window_size.0 - offset.0) as int, dim.0 as int);
            lemma_div_pos_is_pos((window_size.1 - offset.1) as int, dim.1 as int);
        }
        let cell_width = (window_size.0 - offset.0) / (dim.0 as i64);
        let cell_height = (window_size.1 - offset.1) / (dim.1 as i64);
        if cell_width <= cell_height {
            cell_width
        } else {
            cell_height
        }
    }

    /// Cosmetic rescale after the host viewport changed: recomputes the cell
    /// size and leaves the grid topology untouched.
    pub fn resize(&mut self, new_window_size: (i64, i64))
        requires
            old(self).wf(),
            -MAX_OFFSET <= new_window_size.0 <= MAX_OFFSET,
            -MAX_OFFSET <= new_window_size.1 <= MAX_OFFSET,
            old(self).offset_x <= new_window_size.0,
            old(self).offset_y <= new_window_size.1,
            0 < Self::cell_size_for(
                (old(self).dim_x, old(self).dim_y),
                (old(self).offset_x, old(self).offset_y),
                new_window_size,
            ) <= MAX_CELL_SIZE,
        ensures
            final(self).wf(),
            final(self).cell_size == Self::cell_size_for(
                (old(self).dim_x, old(self).dim_y),
                (old(self).offset_x, old(self).offset_y),
                new_window_size,
            ),
            final(self).dim_x == old(self).dim_x,
            final(self).dim_y == old(self).dim_y,
            final(self).offset_x == old(self).offset_x,
            final(self).offset_y == old(self).offset_y,
    {
        self.cell_size = Self::calculate_cell_size(
            (self.dim_x, self.dim_y),
            (self.offset_x, self.offset_y),
            new_window_size,
        );
    }

    pub fn cell_size(&self) -> (r: i64)
        ensures
            r == self.cell_size,
    {
        self.cell_size
    }

    pub fn dim(&self) -> (r: (i32, i32))
        ensures
            r.0 == self.dim_x,
            r.1 == self.dim_y,
    {
        (self.dim_x, self.dim_y)
    }

    pub fn size(&self) -> (r: (i64, i64))
        requires
            self.wf(),
        ensures
            r.0 == self.size_x_spec(),
            r.1 == self.size_y_spec(),
    {
        proof {
            lemma_size_in_range(self.cell_size as int, self.dim_x as int);
            lemma_size_in_range(self.cell_size as int, self.dim_y as int);
        }
        (self.cell_size * (self.dim_x as i64), self.cell_size * (self.dim_y as i64))
    }

    pub fn offset(&self) -> (r: (i64, i64))
        ensures
            r.0 == self.offset_x,
            r.1 == self.offset_y,
    {
        (self.offset_x, self.offset_y)
    }

    fn bottom_left(&self) -> (r: (i64, i64))
        requires
            self.wf(),
        ensures
            r.0 == self.bottom_left_x(),
            r.1 == self.bottom_left_y(),
    {
        proof {
            lemma_size_in_range(self.cell_size as int, self.dim_x as int);
            lemma_size_in_range(self.cell_size as int, self.dim_y as int);
        }
        let size_x = self.cell_size * (self.dim_x as i64);
        let size_y = self.cell_size * (self.dim_y as i64);
        (self.offset_x - size_x / 2, self.offset_y - size_y / 2)
    }

    /// The world-space centre of a cell of the grid.
    pub fn translation_of_cell(&self, position: &Cell) -> (r: WorldVec)
        requires
            self.wf(),
            self.in_bounds(*position),
        ensures
            (r.x as int, r.y as int) == self.center_spec(*position),
            self.on_field(r),
    {
        proof {
            lemma_size_in_range(self.cell_size as int, self.dim_x as int);
            lemma_size_in_range(self.cell_size as int, self.dim_y as int);
            lemma_cell_offset_in_range(position.i as int, self.cell_size as int, self.dim_x as int);
            lemma_cell_offset_in_range(position.j as int, self.cell_size as int, self.dim_y as int);
            assert(0 <= self.cell_size / 2 < self.cell_size) by (nonlinear_arith)
                requires
                    0 < self.cell_size,
            ;
        }
        let (bl_x, bl_y) = self.bottom_left();
        let half = self.cell_size / 2;
        let x = bl_x + (position.i as i64) * self.cell_size + half;
        let y = bl_y + (position.j as i64) * self.cell_size + half;
        WorldVec { x, y }
    }

    /// The cell holding a world position on the field; the exact inverse of
    /// `translation_of_cell` at cell centres.
    pub fn cell(&self, translation: WorldVec) -> (r: Cell)
        requires
            self.wf(),
            self.on_field(translation),
        ensures
            (r.i as int, r.j as int) == self.cell_spec(translation.x as int, translation.y as int),
            self.in_bounds(r),
    {
        proof {
            lemma_size_in_range(self.cell_size as int, self.dim_x as int);
            lemma_size_in_range(self.cell_size as int, self.dim_y as int);
        }
        let (bl_x, bl_y) = self.bottom_left();
        let local_x = translation.x - bl_x;
        let local_y = translation.y - bl_y;
        proof {
            lemma_div_pos_is_pos(local_x as int, self.cell_size as int);
            lemma_div_pos_is_pos(local_y as int, self.cell_size as int);
            lemma_multiply_divide_lt(local_x as int, self.cell_size as int, self.dim_x as int);
            lemma_multiply_divide_lt(local_y as int, self.cell_size as int, self.dim_y as int);
        }
        let i = (local_x / self.cell_size) as i32;
        let j = (local_y / self.cell_size) as i32;
        Cell { i, j }
    }

    /// A world position's coordinates within its cell, relative to the
    /// field's offset, each in `[0, cell_size)`.
    pub fn cell_local_translation(&self, translation: WorldVec) -> (r: WorldVec)
        requires
            self.wf(),
            -MAX_OFFSET <= translation.x <= MAX_OFFSET,
            -MAX_OFFSET <= translation.y <= MAX_OFFSET,
        ensures
            r.x as int == (translation.x - self.offset_x) % (self.cell_size as int),
            r.y as int == (translation.y - self.offset_y) % (self.cell_size as int),
    {
        let dx = translation.x - self.offset_x;
        let dy = translation.y - self.offset_y;
        let x = euclid_rem(dx, self.cell_size);
        let y = euclid_rem(dy, self.cell_size);
        WorldVec { x, y }
    }

    /// `dist` toroidal steps from `from` along `direction`; the result is
    /// always back on the grid.
    pub fn step_into(&self, from: &Cell, direction: &Direction, step: i32) -> (r: Cell)
        requires
            self.wf(),
            self.in_bounds(*from),
            0 <= step,
            step <= self.dim_x,
            step <= self.dim_y,
        ensures
            (r.i as int, r.j as int) == self.step_spec(*from, *direction, step as int),
            self.in_bounds(r),
    {
        let mut i = from.i;
        let mut j = from.j;
        match direction {
            Direction::Left => i = i - step,
            Direction::Right => i = i + step,
            Direction::Up => j = j + step,
            Direction::Down => j = j - step,
        }
        let i = if i < 0 {
            i + self.dim_x
        } else if i >= self.dim_x {
            i - self.dim_x
        } else {
            i
        };
        let j = if j < 0 {
            j + self.dim_y
        } else if j >= self.dim_y {
            j - self.dim_y
        } else {
            j
        };
        Cell { i, j }
    }

    /// One toroidal step from `from` along `direction`.
    pub fn single_step_into(&self, from: &Cell, direction: &Direction) -> (r: Cell)
        requires
            self.wf(),
            self.in_bounds(*from),
        ensures
            (r.i as int, r.j as int) == self.step_spec(*from, *direction, 1),
            self.in_bounds(r),
    {
        self.step_into(from, direction, 1)
    }

    /// Whether `l` is the cell one toroidal step from `r` in some direction.
    pub open spec fn adjacent(self, l: Cell, r: Cell) -> bool {
        exists|d: Direction| (l.i as int, l.j as int) == self.step_spec(r, d, 1)
    }

    /// The unit direction that leads from cell `r` to cell `l`, across the
    /// wrap edge where the two cells sit on opposite edges. The cells must be
    /// grid-adjacent: anything else is an invariant violation in the caller.
    pub fn direction(&self, l: &Cell, r: &Cell) -> (d: Direction)
        requires
            self.wf(),
            self.in_bounds(*l),
            self.in_bounds(*r),
            self.adjacent(*l, *r),
        ensures
            (l.i as int, l.j as int) == self.step_spec(*r, d, 1),
    {
        let left = self.single_step_into(r, &Direction::Left);
        if left.i == l.i && left.j == l.j {
            return Direction::Left;
        }
        let right = self.single_step_into(r, &Direction::Right);
        if right.i == l.i && right.j == l.j {
            return Direction::Right;
        }
        let up = self.single_step_into(r, &Direction::Up);
        if up.i == l.i && up.j == l.j {
            return Direction::Up;
        }
        proof {
            let d = choose|d: Direction| (l.i as int, l.j as int) == self.step_spec(*r, d, 1);
            match d {
                Direction::Left => assert(false),
                Direction::Right => assert(false),
                Direction::Up => assert(false),
                Direction::Down => {},
            }
        }
        Direction::Down
    }
}

/// Round trip: for every cell within the grid bounds, looking up the cell of
/// that cell's world-space centre gives the cell back.
pub proof fn lemma_cell_world_round_trip(f: Field, c: Cell)
    requires
        f.wf(),
        f.in_bounds(c),
    ensures
        f.cell_spec(f.center_spec(c).0, f.center_spec(c).1) == (c.i as int, c.j as int),
{
    let cs = f.cell_size as int;
    let half = cs / 2;
    lemma_fundamental_div_mod(cs, 2);
    vstd::arithmetic::div_mod::lemma_mod_division_less_than_divisor(cs, 2);
    assert(0 <= half < cs);
    vstd::arithmetic::div_mod::lemma_fundamental_div_mod_converse_div(
        c.i * cs + half,
        cs,
        c.i as int,
        half,
    );
    vstd::arithmetic::div_mod::lemma_fundamental_div_mod_converse_div(
        c.j * cs + half,
        cs,
        c.j as int,
        half,
    );
}

/// Wrap invariant: one step from any cell on the grid lands on the grid, and
/// a step off an edge lands on coordinate `0` or `dimension - 1` of the
/// opposite edge.
pub proof fn lemma_step_wraps(f: Field, c: Cell, d: Direction)
    requires
        f.wf(),
        f.in_bounds(c),
    ensures
        0 <= f.step_spec(c, d, 1).0 < f.dim_x,
        0 <= f.step_spec(c, d, 1).1 < f.dim_y,
        d == Direction::Right && c.i == f.dim_x - 1 ==> f.step_spec(c, d, 1).0 == 0,
        d == Direction::Left && c.i == 0 ==> f.step_spec(c, d, 1).0 == f.dim_x - 1,
        d == Direction::Up && c.j == f.dim_y - 1 ==> f.step_spec(c, d, 1).1 == 0,
        d == Direction::Down && c.j == 0 ==> f.step_spec(c, d, 1).1 == f.dim_y - 1,
{
}


} // verus!
