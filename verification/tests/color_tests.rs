use mandelbrot::color::MnSmoothScale;
use mandelbrot::fractal::{ComplexPoint, MnComputation};

const START: (u8, u8, u8, u8) = (242, 180, 224, 0);
const END: (u8, u8, u8, u8) = (90, 55, 80, 0);

fn record(step: u64, zn_re: f64, zn_im: f64) -> MnComputation {
    MnComputation {
        step,
        zn: ComplexPoint { re: zn_re.to_bits(), im: zn_im.to_bits() },
        c: ComplexPoint { re: 0, im: 0 },
        old_zn: ComplexPoint { re: 0, im: 0 },
        step_lim: 2,
        step_curr: 0,
    }
}

#[test]
fn none_is_transparent_black() {
    let picker = MnSmoothScale::new(START, END);
    assert_eq!(picker.from_point(None), (0, 0, 0, 0));
}

#[test]
fn immediate_escape_is_the_end_color() {
    // step = 0 and |zn| just above 2: the smooth index is a hair below
    // zero and clamps to intensity 0, the `end` of the gradient.
    let picker = MnSmoothScale::new(START, END);
    let c = picker.from_point(Some(record(0, 2.000001, 0.0)));
    assert_eq!(c, (END.0, END.1, END.2, 0));
}

#[test]
fn late_escape_is_the_start_color() {
    // A huge step count drives the smooth index past 255; it clamps to
    // intensity 255, the `start` of the gradient.
    let picker = MnSmoothScale::new(START, END);
    let c = picker.from_point(Some(record(1000, 2.5, 0.0)));
    assert_eq!(c, (START.0, START.1, START.2, 0));
}

#[test]
fn interpolation_moves_from_end_toward_start() {
    // Growing step counts move every channel monotonically from the `end`
    // colour toward the `start` colour.
    let picker = MnSmoothScale::new(START, END);
    let early = picker.from_point(Some(record(2, 2.5, 0.0)));
    let mid = picker.from_point(Some(record(100, 2.5, 0.0)));
    let late = picker.from_point(Some(record(220, 2.5, 0.0)));
    assert!(END.0 <= early.0 && early.0 <= mid.0 && mid.0 <= late.0 && late.0 <= START.0);
    assert!(END.1 <= early.1 && early.1 <= mid.1 && mid.1 <= late.1 && late.1 <= START.1);
    assert!(END.2 <= early.2 && early.2 <= mid.2 && mid.2 <= late.2 && late.2 <= START.2);
}

#[test]
fn gradient_interpolation_matches_the_formula() {
    // step = 100, zn = 1.5 + 2i, so |zn| is exactly 2.5: the smooth index
    // is 100 - log2(log10(2.5) / log10(2)), which truncates to intensity
    // 99; each channel is then (end * (255 - 99) + start * 99) / 255,
    // truncating.
    let picker = MnSmoothScale::new(START, END);
    let c = picker.from_point(Some(record(100, 1.5, 2.0)));
    let expect = |s: u8, e: u8| -> u8 {
        ((e as u32 * (255 - 99) + s as u32 * 99) / 255) as u8
    };
    assert_eq!(c, (expect(START.0, END.0), expect(START.1, END.1), expect(START.2, END.2), 0));
}
