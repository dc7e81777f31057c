//! The surface itself: dimensions, pixel buffer and generator state.

use vstd::prelude::*;
use crate::generator::{SEED, lemma_step_keeps_nonzero, state_after, xorshift32, low_byte};
use crate::laws::lemma_rendered_opaque_gray;
use crate::model::{NoiseSurface, OPAQUE, byte_len, dimensions_fit, gray_frame, resized_bytes};

verus! {

/// A `width` by `height` RGBA8 buffer of grayscale static, with the
/// generator that fills it.
pub struct AntWar {
    width: u32,
    height: u32,
    buf: Vec<u8>,
    state: u32,
}

impl View for AntWar {
    type V = NoiseSurface;

    closed spec fn view(&self) -> NoiseSurface {
        NoiseSurface { width: self.width, height: self.height, pixels: self.buf@, state: self.state }
    }
}

impl AntWar {
    /// What holds of every surface: its model is well formed, and its
    /// buffer is no longer than one allocation can be.
    #[verifier::type_invariant]
    pub open spec fn inv(&self) -> bool {
        &&& self@.wf()
        &&& dimensions_fit(self@.width, self@.height)
    }

    /// Whether a surface of these dimensions can be made: `new` and `resize`
    /// ask for it.
    pub fn fits(width: u32, height: u32) -> (ok: bool)
        ensures
            ok == dimensions_fit(width, height),
    {
        assert(width * height * 4 <= 0xffff_ffff * 0xffff_ffff * 4) by (nonlinear_arith);
        (width as u128) * (height as u128) * 4 <= isize::MAX as u128
    }

    /// Creates a surface of the given size. Every byte of its buffer is
    /// zero until the first `render`, and its generator stands at the seed.
    pub fn new(width: u32, height: u32) -> (r: AntWar)
        requires
            dimensions_fit(width, height),
        ensures
            r@ == NoiseSurface::fresh(width, height),
            r@.pixels.len() == width * height * 4,
    {
        let len: usize = Self::buffer_len(width, height);
        let buf: Vec<u8> = vec![0u8; len];
        assert(buf@ =~= NoiseSurface::fresh(width, height).pixels);
        AntWar { width, height, buf, state: SEED }
    }

    /// The buffer length for these dimensions: four bytes per pixel.
    fn buffer_len(width: u32, height: u32) -> (len: usize)
        requires
            dimensions_fit(width, height),
        ensures
            len == byte_len(width, height),
    {
        assert(0 <= width * height <= width * height * 4) by (nonlinear_arith);
        (width as usize) * (height as usize) * 4
    }

    /// Brings the surface to a new size. Bytes that stay in the buffer keep
    /// their value, bytes that are added are zero, and the generator is left
    /// where it was, so the random stream goes on unbroken.
    pub fn resize(&mut self, width: u32, height: u32)
        requires
            dimensions_fit(width, height),
        ensures
            final(self)@ == old(self)@.resized(width, height),
            final(self)@.pixels.len() == width * height * 4,
            final(self)@.state == old(self)@.state,
    {
        proof {
            use_type_invariant(&*self);
        }
        let len: usize = Self::buffer_len(width, height);
        // The buffer and the dimensions have to change together, so the
        // surface is taken out whole, rebuilt and put back.
        let mut taken = AntWar { width: 0, height: 0, buf: Vec::new(), state: self.state };
        std::mem::swap(self, &mut taken);
        let mut buf: Vec<u8> = taken.buf;
        buf.resize(len, 0);
        assert(buf@ =~= resized_bytes(old(self)@.pixels, byte_len(width, height)));
        *self = AntWar { width, height, buf, state: taken.state };
    }

    /// Fills the buffer with fresh static: one byte is drawn for each pixel,
    /// row by row, and written to its red, green and blue channels; alpha is
    /// set to 255.
    pub fn render(&mut self)
        ensures
            final(self)@ == old(self)@.rendered(),
            final(self)@.opaque_gray(),
    {
        proof {
            use_type_invariant(&*self);
            assert(0 <= self.width * self.height <= self.width * self.height * 4)
                by (nonlinear_arith);
        }
        let total: usize = (self.width as usize) * (self.height as usize);
        let mut i: usize = 0;
        while i < total
            invariant
                i <= total,
                total == old(self)@.pixel_count(),
                self.width == old(self).width,
                self.height == old(self).height,
                self.buf.len() == 4 * total,
                self.state == state_after(old(self).state, i as nat),
                forall|j: int|
                    0 <= j < 4 * i ==> self.buf@[j] == gray_frame(old(self).state, total as nat)[j],
            decreases total - i,
        {
            let v: u8 = self.next_u8();
            proof {
                use_type_invariant(&*self);
            }
            let base: usize = i * 4;
            self.buf[base] = v;
            self.buf[base + 1] = v;
            self.buf[base + 2] = v;
            self.buf[base + 3] = OPAQUE;
            i += 1;
        }
        assert(self.buf@ =~= gray_frame(old(self).state, total as nat));
        proof {
            lemma_rendered_opaque_gray(old(self)@);
        }
    }

    /// Draws the next 32-bit word from the generator: one step, whose result
    /// is both the new state and the word handed out. It is never zero.
    pub fn next_u32(&mut self) -> (r: u32)
        ensures
            final(self)@ == old(self)@.stepped(),
            r == final(self)@.state,
            r != 0,
    {
        proof {
            use_type_invariant(&*self);
            lemma_step_keeps_nonzero(self.state);
        }
        let x: u32 = xorshift32(self.state);
        self.state = x;
        x
    }

    /// Draws the next byte from the generator: the low byte of the next word.
    pub fn next_u8(&mut self) -> (r: u8)
        ensures
            final(self)@ == old(self)@.stepped(),
            r == low_byte(final(self)@.state),
    {
        low_byte(self.next_u32())
    }

    /// The pixel buffer (RGBA8), borrowed: it cannot be held across a
    /// `resize` or a `render`.
    pub fn pixels_ptr(&self) -> (pixels: &[u8])
        ensures
            pixels@ == self@.pixels,
            pixels@.len() == self@.width * self@.height * 4,
    {
        proof {
            use_type_invariant(self);
        }
        self.buf.as_slice()
    }

    /// Current width.
    pub fn width(&self) -> (w: u32)
        ensures
            w == self@.width,
    {
        self.width
    }

    /// Current height.
    pub fn height(&self) -> (h: u32)
        ensures
            h == self@.height,
    {
        self.height
    }
}

} // verus!
