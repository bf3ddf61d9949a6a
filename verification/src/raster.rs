//! Where the cells go on a pixel surface on which each cell is a square, `scale`
//! pixels wide and high, and the cell at `(0, 0)` has its corner at the origin.

use vstd::prelude::*;

verus! {

/// A rectangle of pixels: its top left corner and its size.
#[derive(Debug, Clone, Copy, PartialEq, Eq, Structural)]
pub struct CellRect {
    /// Pixels from the left edge of the surface.
    pub x: i32,
    /// Pixels from the top edge of the surface.
    pub y: i32,
    /// The width in pixels.
    pub width: u32,
    /// The height in pixels.
    pub height: u32,
}

/// `index * scale`, where that is at most `limit`.
fn scaled(index: usize, scale: u32, limit: u32) -> (pixels: Option<u32>)
    ensures
        match pixels {
            Some(p) => p == index * scale && p <= limit,
            None => index * scale > limit,
        },
{
    if scale == 0 {
        assert(index * scale == 0) by (nonlinear_arith)
            requires
                scale == 0,
        ;
        return Some(0);
    }
    if index > limit as usize {
        assert(index * scale > limit) by (nonlinear_arith)
            requires
                index > limit,
                scale >= 1,
        ;
        return None;
    }
    assert(index * scale <= 0xffff_ffff * 0xffff_ffff) by (nonlinear_arith)
        requires
            0 <= index <= 0xffff_ffff,
            0 <= scale <= 0xffff_ffff,
    ;
    let product: u64 = (index as u64) * (scale as u64);
    if product > limit as u64 {
        None
    } else {
        Some(product as u32)
    }
}

/// The size in pixels, width first, of the surface that shows a grid of `rows` by
/// `cols` cells: `cols * scale` wide and `rows * scale` high. `None` where a side
/// does not fit in a `u32`.
pub fn surface_size(rows: usize, cols: usize, scale: u32) -> (size: Option<(u32, u32)>)
    ensures
        match size {
            Some((width, height)) => width == cols * scale && height == rows * scale,
            None => cols * scale > u32::MAX || rows * scale > u32::MAX,
        },
{
    match (scaled(cols, scale, u32::MAX), scaled(rows, scale, u32::MAX)) {
        (Some(width), Some(height)) => Some((width, height)),
        _ => None,
    }
}

/// The square of pixels that shows the cell at `(row, col)`: `scale` wide and high,
/// with its corner at `(col * scale, row * scale)`. `None` where a coordinate of that
/// corner does not fit in an `i32`.
pub fn cell_rect(row: usize, col: usize, scale: u32) -> (rect: Option<CellRect>)
    ensures
        match rect {
            Some(r) => r.x == col * scale && r.y == row * scale && r.width == scale && r.height
                == scale,
            None => col * scale > i32::MAX || row * scale > i32::MAX,
        },
{
    match (scaled(col, scale, 0x7fff_ffff), scaled(row, scale, 0x7fff_ffff)) {
        (Some(x), Some(y)) => Some(
            CellRect { x: x as i32, y: y as i32, width: scale, height: scale },
        ),
        _ => None,
    }
}

} // verus!
