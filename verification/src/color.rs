use vstd::prelude::*;

verus! {

/// An 8-bit-per-channel RGB color, the pixel format of every color buffer in
/// the pipeline model. The real context stores normalized floats; the driver
/// divides each channel by 255 when it hands a color to the GPU.
#[derive(Clone, Copy, PartialEq, Eq, Structural, Debug)]
pub struct Rgb {
    pub r: u8,
    pub g: u8,
    pub b: u8,
}

impl Rgb {
    /// The fixed background clear color of the pipeline.
    pub fn background() -> (c: Rgb)
        ensures
            c == (Rgb { r: 51, g: 38, b: 102 }),
    {
        Rgb { r: 51, g: 38, b: 102 }
    }
}

} // verus!
