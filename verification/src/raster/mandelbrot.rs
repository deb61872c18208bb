//! The classic Mandelbrot set, `z <- z^2 + c`.
use vstd::prelude::*;
use crate::raster::render::{callable, EscapeTime};
use crate::raster::{check_max_iter, FractalError};

verus! {

/// Mandelbrot set raster builder.
#[derive(Debug, Clone, Copy, PartialEq, Eq)]
pub struct Mandelbrot {
    pub max_iter: u32,
}

impl Mandelbrot {
    /// The builder with the iteration budget `max_iter`, which must not be
    /// zero.
    pub fn new(max_iter: u32) -> (built: Result<Self, FractalError>)
        ensures
            max_iter == 0 ==> built == Err::<Self, FractalError>(FractalError::ZeroMaxIter),
            max_iter > 0 ==> built == Ok::<Self, FractalError>(Mandelbrot { max_iter }),
    {
        match check_max_iter(max_iter) {
            Ok(max_iter) => Ok(Mandelbrot { max_iter }),
            Err(e) => Err(e),
        }
    }

    /// The generator that runs the given kernels under this builder's budget.
    pub fn generator<Z, L, T, S, R>(&self, origin: Z, locate: L, escaped: T, step: S, ramp: R) -> (generator:
        EscapeTime<Z, L, T, S, R>) where
        Z: Copy,
        L: Fn(usize, usize, usize, usize) -> Z,
        T: Fn(&Z) -> bool,
        S: Fn(Z, &Z) -> Z,
        R: Fn(u32, u32) -> (u8, u8, u8),

        requires
            callable(self.max_iter, locate, escaped, step, ramp),
        ensures
            generator.budget() == self.max_iter,
            generator.start() == origin,
            generator.locate_kernel() == locate,
            generator.escaped_kernel() == escaped,
            generator.step_kernel() == step,
            generator.ramp_kernel() == ramp,
    {
        EscapeTime::new(self.max_iter, origin, locate, escaped, step, ramp)
    }
}

} // verus!
