//! The containment oracle: decides whether a point of the unit cube lies in
//! solid or empty fractal material, and how large the empty cell around it is.

use vstd::prelude::*;
use vstd::arithmetic::div_mod::*;
use crate::fixed::{lemma_wrapped_periodic, wrapped, UNIT};

verus! {

/// Number of subdivision levels that the oracle examines.
pub const MAX_DEPTH: u32 = 5;

/// Subcells along each edge of a cell.
pub const CUBE_SIZE: u8 = 3;

/// Number of subcells in a cell, and of meaningful bits in a mask.
pub const CELL_COUNT: u8 = 27;

/// The mask that the renderer uses when none is given.
pub const CUBE_MASK: u32 = 0b110101101_101100101_101001100;

/// The mask of the classic sponge: face centres and the body centre are empty.
pub const SPONGE_MASK: u32 = 0b111101111_101000101_111101111;

/// The mask with all subcells solid.
pub const FULL_MASK: u32 = 0x7ff_ffff;

/// The mask with all subcells empty.
pub const CLEAR_MASK: u32 = 0;

/// Which of the 27 subcells of a cell are solid.  The subcell at `(x, y, z)`,
/// each in `0..3`, is bit `x + 3 * z + 9 * y`.  The same mask applies at every
/// level of subdivision.
#[derive(Clone, Copy, Debug, PartialEq, Eq, Structural)]
pub struct FractalMask {
    pub bits: u32,
}

impl FractalMask {
    /// The subcell with this bit offset is solid.
    pub open spec fn solid(self, offset: int) -> bool {
        (1u32 << (offset as u32)) & self.bits != 0
    }

    /// Wraps a bit pattern; bits from 27 upward are never read.
    pub fn new(bits: u32) -> (mask: FractalMask)
        ensures
            mask.bits == bits,
    {
        FractalMask { bits }
    }

    /// Tests one subcell.
    pub fn is_solid(&self, offset: u8) -> (r: bool)
        requires
            offset < CELL_COUNT,
        ensures
            r == self.solid(offset as int),
    {
        (1u32 << (offset as u32)) & self.bits != 0
    }
}

/// Edge length of a subcell at `level`, the outermost subdivision being
/// level 0: a third of the unit, then a third of that, and so on.
pub open spec fn cell_size(level: nat) -> int
    decreases level,
{
    if level == 0 {
        UNIT as int / 3
    } else {
        cell_size((level - 1) as nat) / 3
    }
}

/// Number of cells of the grid at `level` along one unit: `3^level`.
pub open spec fn cells_per_unit(level: nat) -> int
    decreases level,
{
    if level == 0 {
        1
    } else {
        3 * cells_per_unit((level - 1) as nat)
    }
}

/// Index in `0..3` of the level-`level` subcell that holds coordinate `c`,
/// within its parent cell.
pub open spec fn subcell(c: int, level: nat) -> int {
    (c / cell_size(level)) % 3
}

/// Bit offset of the level-`level` subcell that holds the point.
pub open spec fn offset_at(x: int, y: int, z: int, level: nat) -> int {
    subcell(x, level) + subcell(z, level) * 3 + subcell(y, level) * 9
}

/// The first level from `level` on, below `MAX_DEPTH`, at which the point's
/// subcell is empty.
pub open spec fn first_empty_level(mask: FractalMask, x: int, y: int, z: int, level: nat) -> Option<nat>
    decreases MAX_DEPTH - level,
{
    if level >= MAX_DEPTH {
        None
    } else if !mask.solid(offset_at(x, y, z, level)) {
        Some(level)
    } else {
        first_empty_level(mask, x, y, z, level + 1)
    }
}

/// Edge length of the smallest empty cell that contains the point, or `None`
/// where the point is solid down to `MAX_DEPTH`.
pub open spec fn empty_cell_size(mask: FractalMask, x: int, y: int, z: int) -> Option<int> {
    match first_empty_level(mask, x, y, z, 0) {
        Some(level) => Some(cell_size(level)),
        None => None,
    }
}

/// A coordinate lies in the unit interval `[0, UNIT)`.
pub open spec fn in_unit(c: int) -> bool {
    0 <= c < UNIT
}

/// The grids nest exactly down to the deepest level.
pub proof fn lemma_cell_sizes(level: nat)
    requires
        level < MAX_DEPTH,
    ensures
        cell_size(level) > 0,
        3 * (cells_per_unit(level) * cell_size(level)) == UNIT,
        cells_per_unit(level) > 0,
        level + 1 < MAX_DEPTH ==> 3 * cell_size(level + 1) == cell_size(level),
{
    reveal_with_fuel(cell_size, 6);
    reveal_with_fuel(cells_per_unit, 6);
    assert(cell_size(0) == 16_200_000 && cells_per_unit(0) == 1);
    assert(cell_size(1) == 5_400_000 && cells_per_unit(1) == 3);
    assert(cell_size(2) == 1_800_000 && cells_per_unit(2) == 9);
    assert(cell_size(3) == 600_000 && cells_per_unit(3) == 27);
    assert(cell_size(4) == 200_000 && cells_per_unit(4) == 81);
    if level == 0 {
    } else if level == 1 {
    } else if level == 2 {
    } else if level == 3 {
    } else {
        assert(level == 4);
    }
}

/// One level of descent on one coordinate.  With `s` the subcell size at the
/// current level and `m` the number of parent cells per unit, the working
/// coordinate `u` is the position of `c` inside its parent cell, magnified
/// to the unit.  Tripling it splits into the subcell index and the next
/// working coordinate.
proof fn lemma_descend(c: int, u: int, m: int, s: int)
    requires
        0 <= c,
        m > 0,
        s > 0,
        3 * (m * s) == UNIT,
        u == (c % (3 * s)) * m,
    ensures
        0 <= u < UNIT,
        (3 * u) / (UNIT as int) == (c / s) % 3,
        (3 * u) % (UNIT as int) == (c % s) * (3 * m),
        0 <= (c % s) * (3 * m) < UNIT,
{
    let d: int = (c / s) % 3;
    let e: int = c % s;
    let r: int = c % (3 * s);
    lemma_mod_breakdown(c, s, 3);
    assert(s * 3 == 3 * s);
    assert(r == s * d + e);
    lemma_mod_bound(c, s);
    assert(0 <= e * (3 * m) < UNIT) by (nonlinear_arith)
        requires
            0 <= e < s,
            m > 0,
            3 * (m * s) == UNIT,
    ;
    assert(3 * u == d * UNIT + e * (3 * m)) by (nonlinear_arith)
        requires
            u == r * m,
            r == s * d + e,
            3 * (m * s) == UNIT,
    ;
    lemma_fundamental_div_mod_converse(3 * u, UNIT as int, d, e * (3 * m));
    assert(0 <= u < UNIT) by (nonlinear_arith)
        requires
            3 * u == d * UNIT + e * (3 * m),
            0 <= d < 3,
            0 <= e * (3 * m) < UNIT,
    ;
}

/// Bit offset of the outermost subcell that holds a point of the unit cube.
pub fn point_to_offset(x: i64, y: i64, z: i64) -> (offset: u8)
    requires
        in_unit(x as int),
        in_unit(y as int),
        in_unit(z as int),
    ensures
        offset == offset_at(x as int, y as int, z as int, 0),
        offset == (3 * x) / (UNIT as int) + ((3 * z) / (UNIT as int)) * 3 + ((3 * y) / (UNIT as int)) * 9,
        offset < CELL_COUNT,
{
    proof {
        lemma_cell_sizes(0);
        assert(3 * cell_size(0) == UNIT);
        lemma_descend(x as int, x as int, 1, cell_size(0));
        lemma_descend(y as int, y as int, 1, cell_size(0));
        lemma_descend(z as int, z as int, 1, cell_size(0));
    }
    let side: i64 = CUBE_SIZE as i64;
    let dx: i64 = (x * side) / UNIT;
    let dy: i64 = (y * side) / UNIT;
    let dz: i64 = (z * side) / UNIT;
    (dx + dz * side + dy * (side * side)) as u8
}

/// Tests a point of the unit cube against the fractal.  Returns the edge
/// length of the smallest empty cell that holds the point, found at the
/// first level whose mask bit is unset, or `None` if the point is solid at
/// every level down to `MAX_DEPTH`.
pub fn test_cube(mask: FractalMask, x: i64, y: i64, z: i64) -> (found: Option<i64>)
    requires
        in_unit(x as int),
        in_unit(y as int),
        in_unit(z as int),
    ensures
        match found {
            Some(size) => empty_cell_size(mask, x as int, y as int, z as int) == Some(size as int),
            None => empty_cell_size(mask, x as int, y as int, z as int).is_none(),
        },
{
    let mut ux: i64 = x;
    let mut uy: i64 = y;
    let mut uz: i64 = z;
    let mut size: i64 = UNIT / 3;
    let mut level: u32 = 0;
    proof {
        lemma_cell_sizes(0);
        assert(3 * cell_size(0) == UNIT);
    }
    while level < MAX_DEPTH
        invariant
            level <= MAX_DEPTH,
            in_unit(x as int),
            in_unit(y as int),
            in_unit(z as int),
            level < MAX_DEPTH ==> size == cell_size(level as nat),
            level < MAX_DEPTH ==> ux == ((x as int) % (3 * size)) * cells_per_unit(level as nat),
            level < MAX_DEPTH ==> uy == ((y as int) % (3 * size)) * cells_per_unit(level as nat),
            level < MAX_DEPTH ==> uz == ((z as int) % (3 * size)) * cells_per_unit(level as nat),
            first_empty_level(mask, x as int, y as int, z as int, 0)
                == first_empty_level(mask, x as int, y as int, z as int, level as nat),
        decreases MAX_DEPTH - level,
    {
        proof {
            lemma_cell_sizes(level as nat);
            let m: int = cells_per_unit(level as nat);
            lemma_descend(x as int, ux as int, m, size as int);
            lemma_descend(y as int, uy as int, m, size as int);
            lemma_descend(z as int, uz as int, m, size as int);
            assert(cells_per_unit((level + 1) as nat) == 3 * m);
        }
        let offset: u8 = point_to_offset(ux, uy, uz);
        if !mask.is_solid(offset) {
            return Some(size);
        }
        ux = (ux * 3) % UNIT;
        uy = (uy * 3) % UNIT;
        uz = (uz * 3) % UNIT;
        size = size / 3;
        level = level + 1;
    }
    None
}

/// Every subcell offset of a point lies in `0..27`.
pub proof fn lemma_offset_range(x: int, y: int, z: int, level: nat)
    requires
        level < MAX_DEPTH,
    ensures
        0 <= offset_at(x, y, z, level) < CELL_COUNT,
{
    lemma_cell_sizes(level);
}

/// With every subcell solid, no point is ever found empty.
pub proof fn lemma_full_mask_is_solid(x: int, y: int, z: int)
    ensures
        empty_cell_size(FractalMask { bits: FULL_MASK }, x, y, z).is_none(),
{
    let mask = FractalMask { bits: FULL_MASK };
    reveal_with_fuel(first_empty_level, 6);
    assert forall|level: nat| level < MAX_DEPTH implies mask.solid(#[trigger] offset_at(x, y, z, level)) by {
        lemma_offset_range(x, y, z, level);
        let offset: u32 = offset_at(x, y, z, level) as u32;
        assert((1u32 << offset) & 0x7ff_ffffu32 != 0) by (bit_vector)
            requires
                offset < 27,
        ;
    }
    assert(mask.solid(offset_at(x, y, z, 0)));
    assert(mask.solid(offset_at(x, y, z, 1)));
    assert(mask.solid(offset_at(x, y, z, 2)));
    assert(mask.solid(offset_at(x, y, z, 3)));
    assert(mask.solid(offset_at(x, y, z, 4)));
}

/// With every subcell empty, every point is found empty at the outermost
/// level, in a cell of a third of the unit.
pub proof fn lemma_clear_mask_is_empty(x: int, y: int, z: int)
    ensures
        empty_cell_size(FractalMask { bits: CLEAR_MASK }, x, y, z) == Some(UNIT as int / 3),
{
    let offset: u32 = offset_at(x, y, z, 0) as u32;
    assert((1u32 << offset) & 0u32 == 0) by (bit_vector);
}

/// The fractal tiles space with period one unit: a point and the same point
/// moved by any whole number of units along each axis are classified alike
/// once both are wrapped into the unit cube.
pub proof fn lemma_toroidal_invariance(
    mask: FractalMask,
    x: int,
    y: int,
    z: int,
    kx: int,
    ky: int,
    kz: int,
)
    ensures
        empty_cell_size(mask, wrapped(x), wrapped(y), wrapped(z)) == empty_cell_size(
            mask,
            wrapped(x + kx * UNIT),
            wrapped(y + ky * UNIT),
            wrapped(z + kz * UNIT),
        ),
{
    lemma_wrapped_periodic(x, kx);
    lemma_wrapped_periodic(y, ky);
    lemma_wrapped_periodic(z, kz);
}

} // verus!
