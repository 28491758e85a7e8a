//! The render window: mapping pixels onto the complex plane and filling
//! the pixel buffer.
//!
//! A window is an immutable configuration during rendering: image
//! dimensions, a focus point and visible width in the complex plane, the
//! iteration budget, a colour gradient, and the antialiasing factor. Each
//! pixel is supersampled on an `antialiasing × antialiasing` sub-grid; the
//! samples run through the point evaluator and the colour mapper, and the
//! channel sums are averaged by integer division. The floating-point
//! coordinate arithmetic is done bit-for-bit by the trusted scalar
//! wrappers; the sub-grid enumeration, the accumulation, the averaging and
//! the buffer assembly are verified, and [`spec_calc_pixel`] pins every
//! pixel of the output down exactly.

use vstd::prelude::*;

use crate::color::{spec_from_point, MnSmoothScale};
use crate::fbits::{add_bits, bits_of_u32, div_bits, is_pos_finite_bits, mul_bits, sub_bits};
use crate::fbits::{f64_add, f64_div, f64_mul, f64_of_u32, f64_sub, F_ONE_BITS, F_TWO_BITS,
    F_ZERO_BITS};
use crate::fractal::{evaluate, spec_evaluate, ComplexPoint};

verus! {

/// One pixel of the output image: three 8-bit channels.
#[derive(Clone, Copy, Debug, PartialEq, Eq, Structural)]
pub struct Rgb8 {
    pub r: u8,
    pub g: u8,
    pub b: u8,
}

/// A fully populated raster image: `width * height` pixels, row-major,
/// origin at the top-left corner.
pub struct PixelBuffer {
    pub width: u32,
    pub height: u32,
    pub data: Vec<Rgb8>,
}

impl PixelBuffer {
    /// The buffer holds exactly one pixel per coordinate.
    pub open spec fn wf(self) -> bool {
        self.data@.len() == self.width as int * self.height as int
    }

    /// The pixel at column `x` of row `y`.
    pub fn get(&self, x: u32, y: u32) -> (r: Rgb8)
        requires
            self.wf(),
            x < self.width,
            y < self.height,
        ensures
            r == self.data@[y as int * self.width as int + x as int],
    {
        let len = self.data.len();
        proof {
            assert((y as int) * (self.width as int) + (x as int) < (self.width as int) * (
            self.height as int)) by (nonlinear_arith)
                requires
                    x < self.width,
                    y < self.height,
            ;
            assert((self.width as int) * (self.height as int) == len);
        }
        self.data[(y as usize) * (self.width as usize) + (x as usize)]
    }
}

/// The render window configuration.
pub struct ImageWindow {
    /// Image width and height in pixels.
    pub dims: (u32, u32),
    /// The point of the complex plane at the centre of the image.
    pub focus: ComplexPoint,
    /// The width of the visible window along the real axis, as the bit
    /// pattern of a double.
    pub win_re_size: u64,
    /// The iteration budget handed to the point evaluator.
    pub max_step: u64,
    /// Sub-samples per pixel axis.
    pub antialiasing: u32,
    /// The colour gradient, `(start, end)`.
    pub color_gradient: ((u8, u8, u8, u8), (u8, u8, u8, u8)),
}

/// The image aspect ratio `height / width`, as double bits.
pub open spec fn aspect(w: ImageWindow) -> u64 {
    div_bits(bits_of_u32(w.dims.1), bits_of_u32(w.dims.0))
}

/// The height of the visible window along the imaginary axis:
/// `visible_width * (height / width)`.
pub open spec fn y_extent(w: ImageWindow) -> u64 {
    mul_bits(w.win_re_size, aspect(w))
}

/// Half the visible width: the distance from the focus to the left edge.
pub open spec fn half_w(w: ImageWindow) -> u64 {
    div_bits(w.win_re_size, F_TWO_BITS)
}

/// Half the visible height: the distance from the focus to the top edge.
pub open spec fn half_h(w: ImageWindow) -> u64 {
    div_bits(y_extent(w), F_TWO_BITS)
}

/// Pixel `x`'s offset from the window's left edge: `(x / width) * visible_width`.
pub open spec fn base_off_x(w: ImageWindow, x: u32) -> u64 {
    mul_bits(div_bits(bits_of_u32(x), bits_of_u32(w.dims.0)), w.win_re_size)
}

/// Row `y`'s distance below the window's top edge: `(y / height) * y_extent`.
pub open spec fn base_off_y(w: ImageWindow, y: u32) -> u64 {
    mul_bits(div_bits(bits_of_u32(y), bits_of_u32(w.dims.1)), y_extent(w))
}

/// The real-axis footprint of pixel `x`: the next pixel's offset minus its own.
pub open spec fn range_x(w: ImageWindow, x: u32) -> u64 {
    sub_bits(base_off_x(w, (x + 1) as u32), base_off_x(w, x))
}

/// The imaginary-axis footprint of row `y`.
pub open spec fn range_y(w: ImageWindow, y: u32) -> u64 {
    sub_bits(base_off_y(w, (y + 1) as u32), base_off_y(w, y))
}

/// The real-axis step between two sub-samples: the footprint split
/// `antialiasing` ways.
pub open spec fn range_aa_x(w: ImageWindow, x: u32) -> u64 {
    div_bits(range_x(w, x), bits_of_u32(w.antialiasing))
}

/// The imaginary-axis step between two sub-samples.
pub open spec fn range_aa_y(w: ImageWindow, y: u32) -> u64 {
    div_bits(range_y(w, y), bits_of_u32(w.antialiasing))
}

/// The `k`-th accumulated sub-sample offset: zero, stepped `k` times by
/// `step` (floating-point accumulation, not `k * step`).
pub open spec fn sub_off(step: u64, k: nat) -> u64
    decreases k,
{
    if k == 0 {
        F_ZERO_BITS
    } else {
        add_bits(sub_off(step, (k - 1) as nat), step)
    }
}

/// The real part of sub-sample `i` of pixel column `x`: the focus, moved
/// to the window's left edge, then to the pixel, then to the sub-sample.
pub open spec fn sample_re(w: ImageWindow, x: u32, i: nat) -> u64 {
    add_bits(
        add_bits(sub_bits(w.focus.re, half_w(w)), base_off_x(w, x)),
        sub_off(range_aa_x(w, x), i),
    )
}

/// The imaginary part of sub-sample `j` of pixel row `y`: the focus, moved
/// up to the window's top edge, then down to the pixel, then to the
/// sub-sample (the imaginary axis grows upward, the pixel rows downward).
pub open spec fn sample_im(w: ImageWindow, y: u32, j: nat) -> u64 {
    sub_bits(
        sub_bits(add_bits(w.focus.im, half_h(w)), base_off_y(w, y)),
        sub_off(range_aa_y(w, y), j),
    )
}

/// Sub-sample `(i, j)` of pixel `(x, y)` as a point of the complex plane.
pub open spec fn sample_point(w: ImageWindow, x: u32, y: u32, i: nat, j: nat) -> ComplexPoint {
    ComplexPoint { re: sample_re(w, x, i), im: sample_im(w, y, j) }
}

/// The window's colour gradient.
pub open spec fn gradient_of(w: ImageWindow) -> MnSmoothScale {
    MnSmoothScale { start: w.color_gradient.0, end: w.color_gradient.1 }
}

/// The colour of sub-sample `(i, j)` of pixel `(x, y)`: the sample point,
/// evaluated and coloured.
pub open spec fn sample_color(w: ImageWindow, x: u32, y: u32, i: nat, j: nat) -> (u8, u8, u8, u8) {
    spec_from_point(gradient_of(w), spec_evaluate(sample_point(w, x, y, i, j), w.max_step))
}

/// The channel sums of the first `cnt` sub-samples of column `i` of the
/// sub-grid of pixel `(x, y)`.
pub open spec fn col_sum(w: ImageWindow, x: u32, y: u32, i: nat, cnt: nat) -> (int, int, int)
    decreases cnt,
{
    if cnt == 0 {
        (0, 0, 0)
    } else {
        let s = col_sum(w, x, y, i, (cnt - 1) as nat);
        let c = sample_color(w, x, y, i, (cnt - 1) as nat);
        (s.0 + c.0, s.1 + c.1, s.2 + c.2)
    }
}

/// The channel sums of the first `cnt` full columns of the sub-grid of
/// pixel `(x, y)`.
pub open spec fn grid_sum(w: ImageWindow, x: u32, y: u32, cnt: nat) -> (int, int, int)
    decreases cnt,
{
    if cnt == 0 {
        (0, 0, 0)
    } else {
        let s = grid_sum(w, x, y, (cnt - 1) as nat);
        let c = col_sum(w, x, y, (cnt - 1) as nat, w.antialiasing as nat);
        (s.0 + c.0, s.1 + c.1, s.2 + c.2)
    }
}

/// The colour of pixel `(x, y)`: the channel sums over the whole
/// `antialiasing × antialiasing` sub-grid, averaged by truncating
/// division.
pub open spec fn spec_calc_pixel(w: ImageWindow, x: u32, y: u32) -> Rgb8 {
    let s = grid_sum(w, x, y, w.antialiasing as nat);
    let d = w.antialiasing as int * w.antialiasing as int;
    Rgb8 { r: (s.0 / d) as u8, g: (s.1 / d) as u8, b: (s.2 / d) as u8 }
}

/// Every channel sum over `cnt` sub-samples of a column lies in
/// `0 ..= 255 * cnt`.
proof fn lemma_col_sum_bounds(w: ImageWindow, x: u32, y: u32, i: nat, cnt: nat)
    ensures
        0 <= col_sum(w, x, y, i, cnt).0 <= 255 * cnt,
        0 <= col_sum(w, x, y, i, cnt).1 <= 255 * cnt,
        0 <= col_sum(w, x, y, i, cnt).2 <= 255 * cnt,
    decreases cnt,
{
    if cnt > 0 {
        lemma_col_sum_bounds(w, x, y, i, (cnt - 1) as nat);
    }
}

/// Every channel sum over `cnt` full columns of the sub-grid lies in
/// `0 ..= 255 * cnt * antialiasing`.
proof fn lemma_grid_sum_bounds(w: ImageWindow, x: u32, y: u32, cnt: nat)
    ensures
        0 <= grid_sum(w, x, y, cnt).0 <= 255 * cnt * (w.antialiasing as int),
        0 <= grid_sum(w, x, y, cnt).1 <= 255 * cnt * (w.antialiasing as int),
        0 <= grid_sum(w, x, y, cnt).2 <= 255 * cnt * (w.antialiasing as int),
    decreases cnt,
{
    let aa = w.antialiasing as int;
    if cnt > 0 {
        lemma_grid_sum_bounds(w, x, y, (cnt - 1) as nat);
        lemma_col_sum_bounds(w, x, y, (cnt - 1) as nat, w.antialiasing as nat);
        assert(255 * ((cnt - 1) as int) * aa + 255 * aa == 255 * cnt * aa) by (nonlinear_arith)
            requires
                cnt >= 1,
        ;
    }
}

impl ImageWindow {
    /// The configuration invariant: a non-empty image, at least one
    /// iteration allowed, an antialiasing factor whose square fits `u32`,
    /// and a positive finite visible width.
    pub open spec fn wf(self) -> bool {
        &&& self.dims.0 > 0
        &&& self.dims.1 > 0
        &&& self.max_step >= 1
        &&& 1 <= self.antialiasing <= 0xffff
        &&& is_pos_finite_bits(self.win_re_size)
    }

    /// A window onto the unit-width neighbourhood of the origin, one
    /// sample per pixel.
    pub fn new(
        width: u32,
        height: u32,
        max_step: u64,
        color_gradient: ((u8, u8, u8, u8), (u8, u8, u8, u8)),
    ) -> (r: ImageWindow)
        requires
            width > 0,
            height > 0,
            max_step >= 1,
        ensures
            r.dims == (width, height),
            r.focus == (ComplexPoint { re: F_ZERO_BITS, im: F_ZERO_BITS }),
            r.win_re_size == F_ONE_BITS,
            r.max_step == max_step,
            r.antialiasing == 1,
            r.color_gradient == color_gradient,
            r.wf(),
    {
        ImageWindow {
            dims: (width, height),
            focus: ComplexPoint { re: F_ZERO_BITS, im: F_ZERO_BITS },
            win_re_size: F_ONE_BITS,
            max_step,
            antialiasing: 1,
            color_gradient,
        }
    }

    /// Points the window at `focus` with the given visible width.
    pub fn scope(&mut self, focus: ComplexPoint, size: u64)
        requires
            is_pos_finite_bits(size),
        ensures
            final(self).focus == focus,
            final(self).win_re_size == size,
            final(self).dims == old(self).dims,
            final(self).max_step == old(self).max_step,
            final(self).antialiasing == old(self).antialiasing,
            final(self).color_gradient == old(self).color_gradient,
            old(self).wf() ==> final(self).wf(),
    {
        self.focus = focus;
        self.win_re_size = size;
    }

    /// Sets the number of sub-samples per pixel axis.
    pub fn set_antialiasing(&mut self, aa: u32)
        requires
            1 <= aa <= 0xffff,
        ensures
            final(self).antialiasing == aa,
            final(self).dims == old(self).dims,
            final(self).focus == old(self).focus,
            final(self).win_re_size == old(self).win_re_size,
            final(self).max_step == old(self).max_step,
            final(self).color_gradient == old(self).color_gradient,
            old(self).wf() ==> final(self).wf(),
    {
        self.antialiasing = aa;
    }

    /// Computes the colour of one pixel: every sub-sample of the
    /// `antialiasing × antialiasing` grid is mapped into the complex
    /// plane, evaluated and coloured, and the channel sums are averaged.
    #[verifier::loop_isolation(false)]
    pub fn calc_pixel(&self, x: u32, y: u32) -> (r: Rgb8)
        requires
            self.wf(),
            x < self.dims.0,
            y < self.dims.1,
        ensures
            r == spec_calc_pixel(*self, x, y),
    {
        let aa_bits = f64_of_u32(self.antialiasing);
        let w_bits = f64_of_u32(self.dims.0);
        let h_bits = f64_of_u32(self.dims.1);
        let y_ext = f64_mul(self.win_re_size, f64_div(h_bits, w_bits));

        let base_x = f64_mul(f64_div(f64_of_u32(x), w_bits), self.win_re_size);
        let next_x = f64_mul(f64_div(f64_of_u32(x + 1), w_bits), self.win_re_size);
        let step_x = f64_div(f64_sub(next_x, base_x), aa_bits);

        let base_y = f64_mul(f64_div(f64_of_u32(y), h_bits), y_ext);
        let next_y = f64_mul(f64_div(f64_of_u32(y + 1), h_bits), y_ext);
        let step_y = f64_div(f64_sub(next_y, base_y), aa_bits);

        // The top-left corner of the pixel: the focus moved to the
        // window's top-left, then to the pixel.
        let re_base = f64_add(f64_sub(self.focus.re, f64_div(self.win_re_size, F_TWO_BITS)), base_x);
        let im_base = f64_sub(f64_add(self.focus.im, f64_div(y_ext, F_TWO_BITS)), base_y);

        let picker = MnSmoothScale::new(self.color_gradient.0, self.color_gradient.1);

        let mut rc: u64 = 0;
        let mut gc: u64 = 0;
        let mut bc: u64 = 0;

        let mut off_x: u64 = F_ZERO_BITS;
        let mut i: u32 = 0;
        while i < self.antialiasing
            invariant
                i <= self.antialiasing,
                off_x == sub_off(range_aa_x(*self, x), i as nat),
                rc == grid_sum(*self, x, y, i as nat).0,
                gc == grid_sum(*self, x, y, i as nat).1,
                bc == grid_sum(*self, x, y, i as nat).2,
            decreases self.antialiasing - i,
        {
            let mut off_y: u64 = F_ZERO_BITS;
            let mut j: u32 = 0;
            while j < self.antialiasing
                invariant
                    i < self.antialiasing,
                    j <= self.antialiasing,
                    off_x == sub_off(range_aa_x(*self, x), i as nat),
                    off_y == sub_off(range_aa_y(*self, y), j as nat),
                    rc == grid_sum(*self, x, y, i as nat).0 + col_sum(
                        *self,
                        x,
                        y,
                        i as nat,
                        j as nat,
                    ).0,
                    gc == grid_sum(*self, x, y, i as nat).1 + col_sum(
                        *self,
                        x,
                        y,
                        i as nat,
                        j as nat,
                    ).1,
                    bc == grid_sum(*self, x, y, i as nat).2 + col_sum(
                        *self,
                        x,
                        y,
                        i as nat,
                        j as nat,
                    ).2,
                decreases self.antialiasing - j,
            {
                let sample = ComplexPoint { re: f64_add(re_base, off_x), im: f64_sub(im_base, off_y) };
                proof {
                    assert(sample == sample_point(*self, x, y, i as nat, j as nat));
                }
                let color = picker.from_point(evaluate(sample, self.max_step));
                proof {
                    lemma_grid_sum_bounds(*self, x, y, i as nat);
                    lemma_col_sum_bounds(*self, x, y, i as nat, j as nat);
                    assert(255 * (i as int) * (self.antialiasing as int) + 255 * (j as int) + 255
                        <= 255 * 0x10000_0000) by (nonlinear_arith)
                        requires
                            i < self.antialiasing <= 0xffff,
                            j < self.antialiasing <= 0xffff,
                    ;
                }
                rc = rc + color.0 as u64;
                gc = gc + color.1 as u64;
                bc = bc + color.2 as u64;
                off_y = f64_add(off_y, step_y);
                j = j + 1;
            }
            off_x = f64_add(off_x, step_x);
            i = i + 1;
        }

        proof {
            assert(1 <= (self.antialiasing as int) * (self.antialiasing as int) <= 0xffff
                * 0xffff) by (nonlinear_arith)
                requires
                    1 <= self.antialiasing <= 0xffff,
            ;
        }
        let d: u64 = (self.antialiasing as u64) * (self.antialiasing as u64);
        proof {
            lemma_grid_sum_bounds(*self, x, y, self.antialiasing as nat);
            let aa = self.antialiasing as int;
            assert(255 * aa * aa == 255 * (aa * aa)) by (nonlinear_arith);
            assert(rc / d <= 255 && gc / d <= 255 && bc / d <= 255) by (nonlinear_arith)
                requires
                    d >= 1,
                    0 <= rc <= 255 * d,
                    0 <= gc <= 255 * d,
                    0 <= bc <= 255 * d,
            ;
        }
        Rgb8 { r: (rc / d) as u8, g: (gc / d) as u8, b: (bc / d) as u8 }
    }

    /// Computes one full row of pixels, left to right.
    #[verifier::loop_isolation(false)]
    pub fn calc_row(&self, y: u32) -> (row: Vec<Rgb8>)
        requires
            self.wf(),
            y < self.dims.1,
        ensures
            row@.len() == self.dims.0,
            forall|x: int|
                0 <= x < self.dims.0 ==> row@[x] == spec_calc_pixel(*self, x as u32, y),
    {
        let mut row: Vec<Rgb8> = Vec::new();
        let mut x: u32 = 0;
        while x < self.dims.0
            invariant
                x <= self.dims.0,
                row@.len() == x,
                forall|p: int| 0 <= p < x ==> row@[p] == spec_calc_pixel(*self, p as u32, y),
            decreases self.dims.0 - x,
        {
            let pixel = self.calc_pixel(x, y);
            row.push(pixel);
            x = x + 1;
        }
        row
    }

    /// Renders the whole image: rows from the top down, every pixel of a
    /// row in column order, each written exactly once.
    #[verifier::loop_isolation(false)]
    pub fn fill(&self) -> (buf: PixelBuffer)
        requires
            self.wf(),
        ensures
            buf.width == self.dims.0,
            buf.height == self.dims.1,
            buf.wf(),
            forall|x: u32, y: u32|
                x < self.dims.0 && y < self.dims.1 ==> buf.data@[y as int * self.dims.0 as int
                    + x as int] == spec_calc_pixel(*self, x, y),
    {
        let w = self.dims.0;
        let h = self.dims.1;
        let mut data: Vec<Rgb8> = Vec::new();
        let mut y: u32 = 0;
        while y < h
            invariant
                y <= h,
                data@.len() == y as int * w as int,
                forall|p: int|
                    0 <= p < data@.len() ==> data@[p] == spec_calc_pixel(
                        *self,
                        (p % (w as int)) as u32,
                        (p / (w as int)) as u32,
                    ),
            decreases h - y,
        {
            let row = self.calc_row(y);
            let mut x: u32 = 0;
            while x < w
                invariant
                    y < h,
                    x <= w,
                    row@.len() == w,
                    forall|p: int|
                        0 <= p < row@.len() ==> row@[p] == spec_calc_pixel(*self, p as u32, y),
                    data@.len() == y as int * w as int + x as int,
                    forall|p: int|
                        0 <= p < data@.len() ==> data@[p] == spec_calc_pixel(
                            *self,
                            (p % (w as int)) as u32,
                            (p / (w as int)) as u32,
                        ),
                decreases w - x,
            {
                proof {
                    let p = y as int * w as int + x as int;
                    assert(p % (w as int) == x as int && p / (w as int) == y as int)
                        by (nonlinear_arith)
                        requires
                            p == y as int * w as int + x as int,
                            0 <= x < w,
                            0 <= y,
                    ;
                }
                let pixel = row[x as usize];
                data.push(pixel);
                x = x + 1;
            }
            proof {
                assert(y as int * w as int + w as int == (y + 1) as int * w as int)
                    by (nonlinear_arith);
            }
            y = y + 1;
        }
        let buf = PixelBuffer { width: w, height: h, data };
        proof {
            assert forall|x: u32, yy: u32| x < w && yy < h implies buf.data@[yy as int * w as int
                + x as int] == spec_calc_pixel(*self, x, yy) by {
                let p = yy as int * w as int + x as int;
                assert(0 <= p < h as int * w as int && p % (w as int) == x as int && p / (
                w as int) == yy as int) by (nonlinear_arith)
                    requires
                        p == yy as int * w as int + x as int,
                        0 <= x < w,
                        0 <= yy < h,
                ;
            }
        }
        buf
    }
}

/// With no antialiasing a pixel has exactly one sample, at the pixel's
/// top-left corner — the focus moved to the window's top-left corner and
/// then by the pixel's own offset — and the pixel's colour is exactly that
/// sample's colour.
pub proof fn lemma_single_sample_at_corner(w: ImageWindow, x: u32, y: u32)
    requires
        w.wf(),
        w.antialiasing == 1,
    ensures
        sample_re(w, x, 0) == add_bits(
            add_bits(sub_bits(w.focus.re, half_w(w)), base_off_x(w, x)),
            F_ZERO_BITS,
        ),
        sample_im(w, y, 0) == sub_bits(
            sub_bits(add_bits(w.focus.im, half_h(w)), base_off_y(w, y)),
            F_ZERO_BITS,
        ),
        spec_calc_pixel(w, x, y) == (Rgb8 {
            r: sample_color(w, x, y, 0, 0).0,
            g: sample_color(w, x, y, 0, 0).1,
            b: sample_color(w, x, y, 0, 0).2,
        }),
{
    let c = sample_color(w, x, y, 0, 0);
    assert(col_sum(w, x, y, 0, 0) == (0int, 0int, 0int));
    assert(col_sum(w, x, y, 0, 1) == (c.0 as int, c.1 as int, c.2 as int));
    assert(grid_sum(w, x, y, 0) == (0int, 0int, 0int));
    assert(grid_sum(w, x, y, 1) == (c.0 as int, c.1 as int, c.2 as int));
    assert((w.antialiasing as int) * (w.antialiasing as int) == 1);
    assert((c.0 as int) / 1 == c.0 && (c.1 as int) / 1 == c.1 && (c.2 as int) / 1 == c.2);
}

} // verus!
