use vstd::prelude::*;

verus! {

/// The volume is rendered at half resolution (at least one pixel each way)
/// and scaled up afterwards.
pub open spec fn render_extent(full: u32) -> u32 {
    if full / 2 >= 1 { (full / 2) as u32 } else { 1 }
}

/// The size of the half-resolution volume rendering of a `width` x `height`
/// image, and its number of pixels.
pub fn render_grid(width: u32, height: u32) -> (grid: (u32, u32, usize))
    requires
        render_extent(width) * render_extent(height) <= u32::MAX,
    ensures
        grid.0 == render_extent(width),
        grid.1 == render_extent(height),
        grid.2 == grid.0 * grid.1,
{
    let w = if width / 2 >= 1 {
        width / 2
    } else {
        1
    };
    let h = if height / 2 >= 1 {
        height / 2
    } else {
        1
    };
    let total = w * h;
    (w, h, total as usize)
}

/// The pixel of the half-resolution grid that has index `idx` in row-major
/// order.
pub fn grid_pixel(idx: usize, render_width: u32) -> (xy: (u32, u32))
    requires
        render_width > 0,
        idx <= u32::MAX,
    ensures
        xy.0 == (idx as int) % (render_width as int),
        xy.1 == (idx as int) / (render_width as int),
{
    let i = idx as u32;
    (i % render_width, i / render_width)
}

} // verus!
