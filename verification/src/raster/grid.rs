//! The pixel grid: how large a raster is, where a pixel's bytes lie in it,
//! and the divisor of the pixel-to-plane interpolation.
use vstd::prelude::*;

verus! {

/// Number of bytes in a `width` by `height` raster of RGB triples.
pub open spec fn raster_size(width: int, height: int) -> int {
    width * height * 3
}

/// Byte length of a `width` by `height` raster, or `None` when that length
/// does not fit in a `usize`.
pub fn raster_len(width: u16, height: u16) -> (len: Option<usize>)
    ensures
        raster_size(width as int, height as int) <= usize::MAX ==> len == Some(
            raster_size(width as int, height as int) as usize,
        ),
        raster_size(width as int, height as int) > usize::MAX ==> len is None,
{
    let w: usize = width as usize;
    let h: usize = height as usize;
    match w.checked_mul(h) {
        Some(px) => px.checked_mul(3),
        None => None,
    }
}

/// The three bytes of pixel `(px, py)` in a row-major raster `width` pixels
/// wide: rows from the top, pixels from the left, red, green, blue.
pub open spec fn pixel_of(raster: Seq<u8>, width: int, px: int, py: int) -> (u8, u8, u8) {
    let at = 3 * (py * width + px);
    (raster[at], raster[at + 1], raster[at + 2])
}

/// The divisor that spreads the `dimension` pixels of an axis over a window
/// edge: one less than the dimension, and 1 where that would be less.
pub open spec fn denominator(dimension: int) -> int {
    if dimension - 1 > 1 {
        dimension - 1
    } else {
        1
    }
}

/// The interpolation divisor of an axis of `dimension` pixels. It is never
/// zero, so a raster of a single row or column can be mapped too.
pub fn pixel_denominator(dimension: usize) -> (divisor: usize)
    ensures
        divisor == denominator(dimension as int),
        divisor >= 1,
{
    if dimension > 2 {
        dimension - 1
    } else {
        1
    }
}

/// Along an axis of `dimension` pixels the fraction `p / denominator` runs
/// from 0 at the first pixel to at most 1, and reaches 1 exactly at the last
/// pixel of an axis of two pixels or more.
pub proof fn lemma_fraction_range(dimension: int, p: int)
    requires
        0 <= p < dimension,
    ensures
        0 <= p <= denominator(dimension),
        p == denominator(dimension) <==> dimension >= 2 && p == dimension - 1,
{
}

} // verus!
