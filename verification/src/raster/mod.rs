//! Raster generation: the grid, the escape iteration, the palette rule and
//! the assembly of the byte buffer.
use vstd::prelude::*;
use crate::raster::grid::raster_size;

pub mod escape;
pub mod grid;
pub mod mandelbrot;
pub mod palette;
pub mod render;

verus! {

/// Why fractal parameters are refused.
#[derive(Debug, Clone, Copy, PartialEq, Eq)]
pub enum FractalError {
    /// The iteration budget is zero.
    ZeroMaxIter,
}

/// Accepts an iteration budget: any but zero.
pub fn check_max_iter(max_iter: u32) -> (checked: Result<u32, FractalError>)
    ensures
        max_iter == 0 ==> checked == Err::<u32, FractalError>(FractalError::ZeroMaxIter),
        max_iter > 0 ==> checked == Ok::<u32, FractalError>(max_iter),
{
    if max_iter == 0 {
        Err(FractalError::ZeroMaxIter)
    } else {
        Ok(max_iter)
    }
}

impl FractalError {
    /// The reason in words.
    pub open spec fn text(self) -> Seq<char> {
        "max_iter must be > 0"@
    }

    /// The reason in words.
    pub fn message(&self) -> (text: &'static str)
        ensures
            text@ == self.text(),
    {
        "max_iter must be > 0"
    }
}

/// A source of RGB rasters.
pub trait RasterGenerator {
    /// What this generator takes for a rendering of the `width` by `height`
    /// grid: any raster of the right length, unless the generator says more.
    open spec fn rendering(&self, width: u16, height: u16, raster: Seq<u8>) -> bool {
        raster.len() == raster_size(width as int, height as int)
    }

    /// Produces the row-major RGB raster of the given size: three bytes for
    /// each pixel, and nothing at all when either dimension is zero.
    fn generate(&self, width: u16, height: u16) -> (raster: Vec<u8>)
        requires
            raster_size(width as int, height as int) <= usize::MAX,
        ensures
            raster@.len() == raster_size(width as int, height as int),
            width == 0 || height == 0 ==> raster@ == Seq::<u8>::empty(),
            self.rendering(width, height, raster@),
    ;
}

} // verus!
