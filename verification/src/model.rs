//! The mathematical model of a noise surface: what its buffer holds and how
//! construction, resizing and rendering change it.

use vstd::prelude::*;
use crate::generator::{SEED, spec_low_byte, spec_xorshift32, state_after};

verus! {

/// The value written to every alpha channel: fully opaque.
pub const OPAQUE: u8 = 255;

/// The number of bytes a `width` by `height` frame occupies: four for each
/// pixel, in the order red, green, blue, alpha.
pub open spec fn byte_len(width: u32, height: u32) -> nat {
    (width * height * 4) as nat
}

/// Whether a frame of these dimensions can be held in one allocation.
pub open spec fn dimensions_fit(width: u32, height: u32) -> bool {
    byte_len(width, height) <= isize::MAX
}

/// The bytes of `count` pixels of static drawn from a generator in state
/// `state`: pixel `p` takes the low byte of the state after `p + 1` steps in
/// its three colour channels, and is opaque.
pub open spec fn gray_frame(state: u32, count: nat) -> Seq<u8> {
    Seq::new(
        4 * count,
        |i: int|
            if i % 4 == 3 {
                OPAQUE
            } else {
                spec_low_byte(state_after(state, (i / 4 + 1) as nat))
            },
    )
}

/// A buffer cut or extended to `len` bytes: the bytes that stay keep their
/// place, and every byte beyond the old end is zero.
pub open spec fn resized_bytes(bytes: Seq<u8>, len: nat) -> Seq<u8> {
    Seq::new(len, |i: int| if i < bytes.len() { bytes[i] } else { 0u8 })
}

/// What a surface is, apart from how it is stored.
pub struct NoiseSurface {
    pub width: u32,
    pub height: u32,
    pub pixels: Seq<u8>,
    pub state: u32,
}

impl NoiseSurface {
    /// The number of pixels of the frame.
    pub open spec fn pixel_count(self) -> nat {
        (self.width * self.height) as nat
    }

    /// Where pixel (`x`, `y`) starts in the buffer: rows follow one another,
    /// and a pixel takes four bytes.
    pub open spec fn offset(self, x: int, y: int) -> int {
        4 * (y * self.width + x)
    }

    /// Pixel `pixel` is a shade of gray, fully opaque: its red, green and
    /// blue bytes are equal and its alpha byte is 255.
    pub open spec fn opaque_gray_at(self, pixel: int) -> bool {
        &&& self.pixels[4 * pixel] == self.pixels[4 * pixel + 1]
        &&& self.pixels[4 * pixel + 1] == self.pixels[4 * pixel + 2]
        &&& self.pixels[4 * pixel + 3] == OPAQUE
    }

    /// Every pixel of the frame is an opaque shade of gray.
    pub open spec fn opaque_gray(self) -> bool {
        forall|pixel: int| 0 <= pixel < self.pixel_count() ==> #[trigger] self.opaque_gray_at(pixel)
    }

    /// The buffer matches the dimensions, and the generator is not stuck at
    /// zero.
    pub open spec fn wf(self) -> bool {
        &&& self.pixels.len() == byte_len(self.width, self.height)
        &&& self.state != 0
    }

    /// A new surface: an all-zero buffer and the generator at its seed.
    pub open spec fn fresh(width: u32, height: u32) -> NoiseSurface {
        NoiseSurface {
            width,
            height,
            pixels: Seq::new(byte_len(width, height), |i: int| 0u8),
            state: SEED,
        }
    }

    /// The surface after a resize: new dimensions, a buffer of the matching
    /// length, the generator untouched.
    pub open spec fn resized(self, width: u32, height: u32) -> NoiseSurface {
        NoiseSurface {
            width,
            height,
            pixels: resized_bytes(self.pixels, byte_len(width, height)),
            state: self.state,
        }
    }

    /// The surface after the generator took one step: nothing else changes.
    pub open spec fn stepped(self) -> NoiseSurface {
        NoiseSurface {
            width: self.width,
            height: self.height,
            pixels: self.pixels,
            state: spec_xorshift32(self.state),
        }
    }

    /// The surface after one frame was rendered: the buffer holds fresh
    /// static, and the generator has taken one step per pixel.
    pub open spec fn rendered(self) -> NoiseSurface {
        NoiseSurface {
            width: self.width,
            height: self.height,
            pixels: gray_frame(self.state, self.pixel_count()),
            state: state_after(self.state, self.pixel_count()),
        }
    }

    /// The surface after `frames` frames were rendered one after another.
    pub open spec fn rendered_times(self, frames: nat) -> NoiseSurface
        decreases frames,
    {
        if frames == 0 {
            self
        } else {
            self.rendered_times((frames - 1) as nat).rendered()
        }
    }
}

} // verus!
