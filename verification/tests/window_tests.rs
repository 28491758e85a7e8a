use mandelbrot::color::MnSmoothScale;
use mandelbrot::fractal::{evaluate, ComplexPoint};
use mandelbrot::window::{ImageWindow, Rgb8};

const START: (u8, u8, u8, u8) = (242, 180, 224, 0);
const END: (u8, u8, u8, u8) = (90, 55, 80, 0);

fn cx(re: f64, im: f64) -> ComplexPoint {
    ComplexPoint { re: re.to_bits(), im: im.to_bits() }
}

fn window(
    dims: (u32, u32),
    max_step: u64,
    aa: u32,
    center: (f64, f64),
    width: f64,
) -> ImageWindow {
    let mut w = ImageWindow::new(dims.0, dims.1, max_step, (START, END));
    w.scope(cx(center.0, center.1), width.to_bits());
    w.set_antialiasing(aa);
    w
}

/// The sample of pixel `(x, y)` with no antialiasing, by the closed-form
/// corner formula in plain floating point.
fn corner_sample(
    dims: (u32, u32),
    center: (f64, f64),
    width: f64,
    x: u32,
    y: u32,
) -> ComplexPoint {
    let (wf, hf) = (f64::from(dims.0), f64::from(dims.1));
    let y_ext = width * (hf / wf);
    let base_x = (f64::from(x) / wf) * width;
    let base_y = (f64::from(y) / hf) * y_ext;
    let re = ((center.0 - width / 2.0) + base_x) + 0.0;
    let im = ((center.1 + y_ext / 2.0) - base_y) - 0.0;
    cx(re, im)
}

#[test]
fn single_sample_sits_at_the_pixel_corner() {
    // With antialiasing 1 each pixel is exactly the colour of its one
    // sample, taken at the pixel's top-left corner.
    let dims = (5, 3);
    let center = (-0.7, 0.2);
    let width = 2.8;
    let w = window(dims, 40, 1, center, width);
    let picker = MnSmoothScale::new(START, END);
    for y in 0..dims.1 {
        for x in 0..dims.0 {
            let sample = corner_sample(dims, center, width, x, y);
            let c = picker.from_point(evaluate(sample, 40));
            assert_eq!(w.calc_pixel(x, y), Rgb8 { r: c.0, g: c.1, b: c.2 });
        }
    }
}

#[test]
fn antialiasing_averages_the_sub_grid() {
    // With antialiasing k each pixel must be the truncating average of
    // exactly k * k sub-samples, stepped across the pixel's footprint by
    // accumulated increments, starting at its top-left corner.
    let dims = (3, 2);
    let center = (-0.5, 0.1);
    let width = 2.5;
    let aa = 2u32;
    let max_step = 30u64;
    let w = window(dims, max_step, aa, center, width);
    let picker = MnSmoothScale::new(START, END);
    let (wf, hf) = (f64::from(dims.0), f64::from(dims.1));
    let aaf = f64::from(aa);
    let y_ext = width * (hf / wf);
    for y in 0..dims.1 {
        for x in 0..dims.0 {
            let base_x = (f64::from(x) / wf) * width;
            let next_x = (f64::from(x + 1) / wf) * width;
            let step_x = (next_x - base_x) / aaf;
            let base_y = (f64::from(y) / hf) * y_ext;
            let next_y = (f64::from(y + 1) / hf) * y_ext;
            let step_y = (next_y - base_y) / aaf;
            let re_base = (center.0 - width / 2.0) + base_x;
            let im_base = (center.1 + y_ext / 2.0) - base_y;
            let (mut rc, mut gc, mut bc): (u64, u64, u64) = (0, 0, 0);
            let mut off_x = 0.0f64;
            let mut samples = 0u64;
            for _i in 0..aa {
                let mut off_y = 0.0f64;
                for _j in 0..aa {
                    let sample = cx(re_base + off_x, im_base - off_y);
                    let c = picker.from_point(evaluate(sample, max_step));
                    rc += u64::from(c.0);
                    gc += u64::from(c.1);
                    bc += u64::from(c.2);
                    samples += 1;
                    off_y += step_y;
                }
                off_x += step_x;
            }
            assert_eq!(samples, u64::from(aa * aa));
            let d = u64::from(aa * aa);
            let expected = Rgb8 { r: (rc / d) as u8, g: (gc / d) as u8, b: (bc / d) as u8 };
            assert_eq!(w.calc_pixel(x, y), expected);
        }
    }
}

#[test]
fn end_to_end_four_by_four_render() {
    // A 4x4 image of the window centred on (-0.5, 0) with visible width 3:
    // the pixel nearest (-1, 0) lies in the set and stays black, the
    // corner pixel escapes at once and takes the gradient's end colour.
    let w = window((4, 4), 50, 1, (-0.5, 0.0), 3.0);
    let buf = w.fill();
    assert_eq!(buf.width, 4);
    assert_eq!(buf.height, 4);
    assert_eq!(buf.data.len(), 16);
    // Sample of pixel (1, 2) is (-1.25, 0), inside the set.
    assert_eq!(buf.get(1, 2), Rgb8 { r: 0, g: 0, b: 0 });
    // Sample of pixel (0, 0) is (-2, 1.5), |c| = 2.5 > 2: immediate
    // escape, intensity 0, the end colour exactly.
    assert_eq!(buf.get(0, 0), Rgb8 { r: END.0, g: END.1, b: END.2 });
}

#[test]
fn rendering_twice_is_byte_identical() {
    let w = window((6, 4), 60, 2, (-0.5, 0.0), 3.0);
    let a = w.fill();
    let b = w.fill();
    assert_eq!(a.width, b.width);
    assert_eq!(a.height, b.height);
    for y in 0..a.height {
        for x in 0..a.width {
            assert_eq!(a.get(x, y), b.get(x, y));
        }
    }
}

#[test]
fn rows_agree_with_pixels() {
    let w = window((7, 3), 25, 1, (-0.4, 0.15), 2.0);
    for y in 0..3 {
        let row = w.calc_row(y);
        assert_eq!(row.len(), 7);
        for x in 0..7 {
            assert_eq!(row[x as usize], w.calc_pixel(x, y));
        }
    }
}
