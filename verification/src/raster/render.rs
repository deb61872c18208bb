//! The generator proper: runs the caller's kernels over every pixel of the
//! grid, row by row, and lays the colours out in the raster.
use vstd::prelude::*;
use crate::raster::escape::{counts, escape_count, lemma_count_unique, single_valued_step, single_valued_test};
use crate::raster::palette::{shade, shaded};
use crate::raster::grid::{pixel_of, raster_size};
use crate::raster::RasterGenerator;

verus! {

/// The observer of a generation is told the number of finished pixels each
/// time that number reaches a multiple of this interval.
pub const PROGRESS_INTERVAL: u64 = 10_000;

/// Whether the observer is due after `done` finished pixels.
pub fn progress_due(done: u64) -> (due: bool)
    ensures
        due == (done % PROGRESS_INTERVAL == 0),
{
    done % PROGRESS_INTERVAL == 0
}

/// An escape-time generator over caller-supplied kernels on points `Z` of
/// the plane.
///
/// - `locate(px, py, width, height)` is the point of pixel `(px, py)` of a
///   `width` by `height` grid;
/// - `escaped(z)` tells whether the iterate `z` has left the escape radius;
/// - `step(z, c)` is the successor of `z` under the recurrence with the
///   constant `c`;
/// - `ramp(iter, max_iter)` is the colour of a count below the budget.
#[verifier::reject_recursive_types(Z)]
pub struct EscapeTime<Z, L, T, S, R> where
    Z: Copy,
    L: Fn(usize, usize, usize, usize) -> Z,
    T: Fn(&Z) -> bool,
    S: Fn(Z, &Z) -> Z,
    R: Fn(u32, u32) -> (u8, u8, u8),
 {
    max_iter: u32,
    origin: Z,
    locate: L,
    escaped: T,
    step: S,
    ramp: R,
}

proof fn lemma_index_unique(width: int, qx: int, qy: int, px: int, py: int)
    by (nonlinear_arith)
    requires
        0 <= qx < width,
        0 <= px < width,
        qy * width + qx == py * width + px,
    ensures
        qx == px,
        qy == py,
{
}

proof fn lemma_index_bound(width: int, height: int, px: int, py: int)
    by (nonlinear_arith)
    requires
        0 <= px < width,
        0 <= py < height,
    ensures
        0 <= py * width + px < width * height,
        (py + 1) * width == py * width + width,
        3 * (py * width + px) + 3 <= width * height * 3,
{
}

proof fn lemma_byte_pixel(width: int, height: int, i: int)
    by (nonlinear_arith)
    requires
        0 < width,
        0 <= i < width * height * 3,
    ensures
        0 <= (i / 3) % width < width,
        0 <= (i / 3) / width < height,
        ((i / 3) / width) * width + (i / 3) % width == i / 3,
        3 * (i / 3) <= i < 3 * (i / 3) + 3,
{
}

/// The kernels may be called on everything that a generation with the budget
/// `max_iter` can hand them: `locate` on every pixel of every grid, `escaped`
/// and `step` on every point, `ramp` on every count below the budget.
pub open spec fn callable<Z, L, T, S, R>(max_iter: u32, locate: L, escaped: T, step: S, ramp: R) -> bool where
    L: Fn(usize, usize, usize, usize) -> Z,
    T: Fn(&Z) -> bool,
    S: Fn(Z, &Z) -> Z,
    R: Fn(u32, u32) -> (u8, u8, u8),
 {
    &&& forall|px: usize, py: usize, width: usize, height: usize|
        px < width && py < height ==> #[trigger] call_requires(locate, (px, py, width, height))
    &&& forall|z: Z| #[trigger] call_requires(escaped, (&z,))
    &&& forall|z: Z, c: Z| #[trigger] call_requires(step, (z, &c))
    &&& forall|iter: u32| iter < max_iter ==> #[trigger] call_requires(ramp, (iter, max_iter))
}

impl<Z, L, T, S, R> EscapeTime<Z, L, T, S, R> where
    Z: Copy,
    L: Fn(usize, usize, usize, usize) -> Z,
    T: Fn(&Z) -> bool,
    S: Fn(Z, &Z) -> Z,
    R: Fn(u32, u32) -> (u8, u8, u8),
 {
    #[verifier::type_invariant]
    spec fn kernels_ready(&self) -> bool {
        callable(self.max_iter, self.locate, self.escaped, self.step, self.ramp)
    }

    /// The iteration budget.
    pub closed spec fn budget(&self) -> u32 {
        self.max_iter
    }

    /// The point from which every orbit starts.
    pub closed spec fn start(&self) -> Z {
        self.origin
    }

    /// The kernel that maps a pixel to its point of the plane.
    pub closed spec fn locate_kernel(&self) -> L {
        self.locate
    }

    /// The kernel that tests an iterate for escape.
    pub closed spec fn escaped_kernel(&self) -> T {
        self.escaped
    }

    /// The kernel that advances an iterate.
    pub closed spec fn step_kernel(&self) -> S {
        self.step
    }

    /// The kernel that colours a count below the budget.
    pub closed spec fn ramp_kernel(&self) -> R {
        self.ramp
    }

    /// A generator with the budget `max_iter` over the given kernels, with
    /// every orbit starting at `origin`.
    pub fn new(max_iter: u32, origin: Z, locate: L, escaped: T, step: S, ramp: R) -> (generator: Self)
        requires
            callable(max_iter, locate, escaped, step, ramp),
        ensures
            generator.budget() == max_iter,
            generator.start() == origin,
            generator.locate_kernel() == locate,
            generator.escaped_kernel() == escaped,
            generator.step_kernel() == step,
            generator.ramp_kernel() == ramp,
    {
        EscapeTime { max_iter, origin, locate, escaped, step, ramp }
    }

    /// The iteration budget.
    pub fn max_iter(&self) -> (max_iter: u32)
        ensures
            max_iter == self.budget(),
    {
        self.max_iter
    }

    /// `c` is a point of pixel `(px, py)`, `iter` an escape count of `c`, and
    /// `rgb` a colour of that count.
    pub open spec fn paints_through(
        &self,
        px: int,
        py: int,
        width: u16,
        height: u16,
        c: Z,
        iter: u32,
        rgb: (u8, u8, u8),
    ) -> bool {
        &&& call_ensures(
            self.locate_kernel(),
            (px as usize, py as usize, width as usize, height as usize),
            c,
        )
        &&& counts(self.start(), c, self.budget(), self.escaped_kernel(), self.step_kernel(), iter)
        &&& shaded(self.ramp_kernel(), iter, self.budget(), rgb)
    }

    /// `rgb` is a colour of pixel `(px, py)`: the colour of an escape count
    /// of a point that `locate` returns for the pixel.
    pub open spec fn paints(&self, px: int, py: int, width: u16, height: u16, rgb: (u8, u8, u8)) -> bool {
        exists|c: Z, iter: u32| #[trigger] self.paints_through(px, py, width, height, c, iter, rgb)
    }

    /// The first `count` pixels of `raster`, in row-major order, are painted.
    spec fn painted(&self, width: u16, height: u16, raster: Seq<u8>, count: int) -> bool {
        forall|px: int, py: int|
            0 <= px < width && 0 <= py < height && py * width + px < count ==> self.paints(
                px,
                py,
                width,
                height,
                #[trigger] pixel_of(raster, width as int, px, py),
            )
    }

    /// Appending a colour of the next pixel to a raster whose first pixels are
    /// painted paints one pixel more.
    proof fn lemma_paint_next(
        &self,
        width: u16,
        height: u16,
        before: Seq<u8>,
        after: Seq<u8>,
        px: int,
        py: int,
    )
        requires
            0 <= px < width,
            0 <= py < height,
            before.len() == 3 * (py * width + px),
            after.len() == before.len() + 3,
            after.subrange(0, before.len() as int) == before,
            self.painted(width, height, before, py * width + px),
            self.paints(px, py, width, height, pixel_of(after, width as int, px, py)),
        ensures
            self.painted(width, height, after, py * width + px + 1),
    {
        let count = py * width + px;
        assert forall|qx: int, qy: int|
            0 <= qx < width && 0 <= qy < height && qy * width + qx < count + 1 implies self.paints(
            qx,
            qy,
            width,
            height,
            #[trigger] pixel_of(after, width as int, qx, qy),
        ) by {
            if qy * width + qx == count {
                lemma_index_unique(width as int, qx, qy, px, py);
            } else {
                let at = 3 * (qy * width + qx);
                assert(after[at] == after.subrange(0, before.len() as int)[at]);
                assert(after[at + 1] == after.subrange(0, before.len() as int)[at + 1]);
                assert(after[at + 2] == after.subrange(0, before.len() as int)[at + 2]);
                assert(pixel_of(after, width as int, qx, qy) == pixel_of(
                    before,
                    width as int,
                    qx,
                    qy,
                ));
            }
        }
    }

    /// `raster` is a rendering of the `width` by `height` grid: it has three
    /// bytes for each pixel, and the bytes of every pixel are a colour of it.
    pub open spec fn renders(&self, width: u16, height: u16, raster: Seq<u8>) -> bool {
        &&& raster.len() == raster_size(width as int, height as int)
        &&& forall|px: int, py: int|
            0 <= px < width && 0 <= py < height ==> self.paints(
                px,
                py,
                width,
                height,
                #[trigger] pixel_of(raster, width as int, px, py),
            )
    }

    /// Generates the raster, telling `observe` the number of finished pixels
    /// at every multiple of [`PROGRESS_INTERVAL`]. The observer has no say
    /// in the result.
    pub fn generate_observed<P>(&self, width: u16, height: u16, observe: P) -> (raster: Vec<u8>) where
        P: Fn(u64),

        requires
            raster_size(width as int, height as int) <= usize::MAX,
            forall|done: u64|
                0 < done <= width * height && done % PROGRESS_INTERVAL == 0 ==> #[trigger] call_requires(
                    observe,
                    (done,),
                ),
        ensures
            self.renders(width, height, raster@),
            width == 0 || height == 0 ==> raster@ == Seq::<u8>::empty(),
    {
        if width == 0 || height == 0 {
            assert(raster_size(width as int, height as int) == 0) by (nonlinear_arith)
                requires
                    width == 0 || height == 0,
            ;
            return Vec::new();
        }
        let w: usize = width as usize;
        let h: usize = height as usize;
        proof {
            use_type_invariant(self);
            lemma_index_bound(w as int, h as int, 0, 0);
        }
        let capacity: usize = w * h * 3;
        let mut raster: Vec<u8> = Vec::with_capacity(capacity);
        let mut done: u64 = 0;
        let mut py: usize = 0;
        while py < h
            invariant
                w == width,
                h == height,
                0 < w,
                py <= h,
                raster_size(width as int, height as int) <= usize::MAX,
                callable(self.max_iter, self.locate, self.escaped, self.step, self.ramp),
                forall|done: u64|
                    0 < done <= width * height && done % PROGRESS_INTERVAL == 0
                        ==> #[trigger] call_requires(observe, (done,)),
                done == py * w,
                raster@.len() == 3 * (py * w),
                self.painted(width, height, raster@, py * w),
            decreases h - py,
        {
            let mut px: usize = 0;
            while px < w
                invariant
                    w == width,
                    h == height,
                    px <= w,
                    py < h,
                    raster_size(width as int, height as int) <= usize::MAX,
                    callable(self.max_iter, self.locate, self.escaped, self.step, self.ramp),
                    forall|done: u64|
                        0 < done <= width * height && done % PROGRESS_INTERVAL == 0
                            ==> #[trigger] call_requires(observe, (done,)),
                    done == py * w + px,
                    raster@.len() == 3 * (py * w + px),
                    self.painted(width, height, raster@, py * w + px),
                decreases w - px,
            {
                proof {
                    lemma_index_bound(w as int, h as int, px as int, py as int);
                }
                let c: Z = (self.locate)(px, py, w, h);
                let iter: u32 = escape_count(self.origin, &c, self.max_iter, &self.escaped, &self.step);
                let (r, g, b) = shade(iter, self.max_iter, &self.ramp);
                let ghost before = raster@;
                raster.push(r);
                raster.push(g);
                raster.push(b);
                assert(raster@.subrange(0, before.len() as int) == before);
                assert(pixel_of(raster@, width as int, px as int, py as int) == (r, g, b));
                proof {
                    assert(self.paints_through(
                        px as int,
                        py as int,
                        width,
                        height,
                        c,
                        iter,
                        (r, g, b),
                    ));
                    self.lemma_paint_next(width, height, before, raster@, px as int, py as int);
                }
                px = px + 1;
                done = done + 1;
                if progress_due(done) {
                    observe(done);
                }
            }
            proof {
                lemma_index_bound(w as int, h as int, 0, py as int);
            }
            py = py + 1;
        }
        proof {
            assert(py * w == raster_size(width as int, height as int) / 3) by (nonlinear_arith)
                requires
                    py == h,
                    w == width,
                    h == height,
            ;
            assert forall|px: int, py: int| 0 <= px < width && 0 <= py < height implies self.paints(
                px,
                py,
                width,
                height,
                #[trigger] pixel_of(raster@, width as int, px, py),
            ) by {
                lemma_index_bound(width as int, height as int, px, py);
            }
        }
        raster
    }
}

impl<Z, L, T, S, R> EscapeTime<Z, L, T, S, R> where
    Z: Copy,
    L: Fn(usize, usize, usize, usize) -> Z,
    T: Fn(&Z) -> bool,
    S: Fn(Z, &Z) -> Z,
    R: Fn(u32, u32) -> (u8, u8, u8),
 {
    /// Each kernel returns one value only for each input.
    pub open spec fn single_valued(&self) -> bool {
        &&& forall|at: (usize, usize, usize, usize), a: Z, b: Z|
            #![trigger call_ensures(self.locate_kernel(), at, a), call_ensures(self.locate_kernel(), at, b)]
            call_ensures(self.locate_kernel(), at, a) && call_ensures(self.locate_kernel(), at, b)
                ==> a == b
        &&& single_valued_test::<Z, T>(self.escaped_kernel())
        &&& single_valued_step::<Z, S>(self.step_kernel())
        &&& forall|of: (u32, u32), a: (u8, u8, u8), b: (u8, u8, u8)|
            #![trigger call_ensures(self.ramp_kernel(), of, a), call_ensures(self.ramp_kernel(), of, b)]
            call_ensures(self.ramp_kernel(), of, a) && call_ensures(self.ramp_kernel(), of, b)
                ==> a == b
    }

    /// With single-valued kernels a pixel has one colour only.
    pub proof fn lemma_colour_unique(
        &self,
        px: int,
        py: int,
        width: u16,
        height: u16,
        first: (u8, u8, u8),
        second: (u8, u8, u8),
    )
        requires
            self.single_valued(),
            self.paints(px, py, width, height, first),
            self.paints(px, py, width, height, second),
        ensures
            first == second,
    {
        let (c1, n1) = choose|c: Z, iter: u32| #[trigger]
            self.paints_through(px, py, width, height, c, iter, first);
        let (c2, n2) = choose|c: Z, iter: u32| #[trigger]
            self.paints_through(px, py, width, height, c, iter, second);
        assert(c1 == c2);
        lemma_count_unique(
            self.start(),
            c1,
            self.budget(),
            self.escaped_kernel(),
            self.step_kernel(),
            n1,
            n2,
        );
    }

    /// Under a budget of one step, with an origin that has not escaped, every
    /// pixel spends the budget: the whole rendering is black, whatever the
    /// kernels compute.
    pub proof fn lemma_budget_of_one_is_black(&self, width: u16, height: u16, raster: Seq<u8>)
        requires
            self.budget() == 1,
            !call_ensures(self.escaped_kernel(), (&self.start(),), true),
            self.renders(width, height, raster),
        ensures
            forall|i: int| 0 <= i < raster.len() ==> raster[i] == 0,
    {
        assert forall|i: int| 0 <= i < raster.len() implies raster[i] == 0 by {
            if width > 0 {
                lemma_byte_pixel(width as int, height as int, i);
                let px = (i / 3) % (width as int);
                let py = (i / 3) / (width as int);
                let rgb = pixel_of(raster, width as int, px, py);
                assert(self.paints(px, py, width, height, rgb));
                let (c, n) = choose|c: Z, iter: u32| #[trigger]
                    self.paints_through(px, py, width, height, c, iter, rgb);
                assert(n == 1);
            } else {
                assert(raster_size(width as int, height as int) == 0) by (nonlinear_arith)
                    requires
                        width == 0,
                ;
            }
        }
    }

    /// Determinism: with single-valued kernels a grid has one rendering only,
    /// so two generations of one size give the same bytes.
    pub proof fn lemma_rendering_unique(&self, width: u16, height: u16, first: Seq<u8>, second: Seq<u8>)
        requires
            self.single_valued(),
            self.renders(width, height, first),
            self.renders(width, height, second),
        ensures
            first == second,
    {
        assert forall|i: int| 0 <= i < first.len() implies first[i] == second[i] by {
            if width > 0 {
                lemma_byte_pixel(width as int, height as int, i);
                let px = (i / 3) % (width as int);
                let py = (i / 3) / (width as int);
                self.lemma_colour_unique(
                    px,
                    py,
                    width,
                    height,
                    pixel_of(first, width as int, px, py),
                    pixel_of(second, width as int, px, py),
                );
            } else {
                assert(raster_size(width as int, height as int) == 0) by (nonlinear_arith)
                    requires
                        width == 0,
                ;
            }
        }
        assert(first =~= second);
    }
}

impl<Z, L, T, S, R> RasterGenerator for EscapeTime<Z, L, T, S, R> where
    Z: Copy,
    L: Fn(usize, usize, usize, usize) -> Z,
    T: Fn(&Z) -> bool,
    S: Fn(Z, &Z) -> Z,
    R: Fn(u32, u32) -> (u8, u8, u8),
 {
    open spec fn rendering(&self, width: u16, height: u16, raster: Seq<u8>) -> bool {
        self.renders(width, height, raster)
    }

    fn generate(&self, width: u16, height: u16) -> (raster: Vec<u8>)
        ensures
            self.renders(width, height, raster@),
    {
        let silent = |_done: u64| {};
        self.generate_observed(width, height, silent)
    }
}

} // verus!
