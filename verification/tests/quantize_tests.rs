//! Quantization of normalized samples, checked at the sample-type
//! boundaries.  The computation lives here: it is floating-point work
//! for the synthesis side, outside the verified reader that
//! `midi_reader` provides.

trait Quantized {
    fn of_f64(value: f64) -> Self;
}

impl Quantized for i8 {
    fn of_f64(value: f64) -> i8 {
        value as i8
    }
}

impl Quantized for i16 {
    fn of_f64(value: f64) -> i16 {
        value as i16
    }
}

impl Quantized for f32 {
    fn of_f64(value: f64) -> f32 {
        value as f32
    }
}

/// Scales a sample in [-1.0, 1.0] onto the quantization range of `T`.
fn quantize<T: Quantized>(input: f64) -> T {
    let quantization_levels = 2.0f64.powf(std::mem::size_of::<T>() as f64 * 8.0) - 1.0;
    T::of_f64(input * (quantization_levels / 2.0))
}

#[test]
fn it_quantizes() {
    assert_eq!(i8::MAX, quantize::<i8>(1.0));
    assert_eq!(i16::MAX, quantize::<i16>(1.0));
    assert_eq!(0.0f32, quantize::<f32>(0.0));
}

#[test]
fn quantization_is_monotone_on_samples() {
    let a = quantize::<i16>(0.25);
    let b = quantize::<i16>(0.5);
    let c = quantize::<i16>(1.0);
    assert!(a < b && b < c);
    assert_eq!(c, i16::MAX);
}
