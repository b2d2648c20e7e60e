use vstd::prelude::*;

verus! {

/// Pixels on each side of a drawn cell; one pixel of grid line runs between
/// neighbouring cells and around the border.
pub const CELL_SIZE: u32 = 5;

/// The pixel at which grid line `i` lies, and one before the first pixel of
/// the cells in row or column `i`.
pub open spec fn spec_offset(i: int) -> int {
    i * (CELL_SIZE + 1) + 1
}

/// The first pixel of the cells in row or column `i`, along that axis.
pub fn pixel_offset(i: u32) -> (r: u32)
    requires
        spec_offset(i as int) <= u32::MAX,
    ensures
        r == spec_offset(i as int),
{
    i * (CELL_SIZE + 1) + 1
}

/// The pixels along an axis that holds `cells` cells: each cell with the
/// grid line before it, and the closing line.
pub fn canvas_extent(cells: u32) -> (r: u32)
    requires
        spec_offset(cells as int) <= u32::MAX,
    ensures
        r == (CELL_SIZE + 1) * cells + 1,
{
    pixel_offset(cells)
}

} // verus!
