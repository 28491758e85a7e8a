//! A verified Mandelbrot-set renderer.
//!
//! Every floating-point quantity travels through this crate as the `u64`
//! bit pattern of an IEEE 754 double. The floating-point operations
//! themselves are performed by thin trusted wrappers around std, `libm`
//! and `num_complex` (module [`fbits`] for scalars, module [`fractal`] for
//! complex numbers); everything around them — the escape-time iteration
//! loop, the cycle-detection bookkeeping, the colour interpolation, the
//! coordinate mapping and the pixel buffer — is verified.

pub mod color;
pub mod fbits;
pub mod fractal;
pub mod parse;
pub mod window;
