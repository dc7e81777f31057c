//! What holds of the surface operations taken together.

use vstd::prelude::*;
use crate::generator::{
    SEED, lemma_state_after_add, lemma_state_after_injective, lemma_step_moves_nonzero,
    lemma_zero_unreachable, spec_low_byte, spec_xorshift32, state_after,
};
use crate::model::{NoiseSurface, OPAQUE, byte_len, gray_frame};

verus! {

/// In a frame of static every pixel has the same byte in its red, green and
/// blue channels, the low byte of the state that the generator reached for
/// that pixel, and 255 in its alpha channel.
pub proof fn lemma_gray_frame_channels(state: u32, count: nat, pixel: int)
    requires
        0 <= pixel < count,
    ensures
        gray_frame(state, count).len() == 4 * count,
        gray_frame(state, count)[4 * pixel] == spec_low_byte(state_after(state, (pixel + 1) as nat)),
        gray_frame(state, count)[4 * pixel + 1] == gray_frame(state, count)[4 * pixel],
        gray_frame(state, count)[4 * pixel + 2] == gray_frame(state, count)[4 * pixel],
        gray_frame(state, count)[4 * pixel + 3] == OPAQUE,
{
}

/// After a render every pixel is an opaque shade of gray, whatever the
/// surface held before.
pub proof fn lemma_rendered_opaque_gray(surface: NoiseSurface)
    ensures
        surface.rendered().opaque_gray(),
{
    let after = surface.rendered();
    assert forall|pixel: int| 0 <= pixel < after.pixel_count() implies #[trigger] after.opaque_gray_at(
        pixel,
    ) by {
        lemma_gray_frame_channels(surface.state, surface.pixel_count(), pixel);
    }
}

/// After a render the pixel in column `x` of row `y` holds, in its three
/// colour channels, the low byte of the state that the generator reached
/// after `y * width + x + 1` steps: the frame is filled row by row, one step
/// per pixel.
pub proof fn lemma_rendered_pixel(surface: NoiseSurface, x: int, y: int)
    requires
        0 <= x < surface.width,
        0 <= y < surface.height,
    ensures
        ({
            let after = surface.rendered();
            let at = after.offset(x, y);
            let gray = spec_low_byte(
                state_after(surface.state, (y * surface.width + x + 1) as nat),
            );
            &&& 0 <= at
            &&& at + 3 < after.pixels.len()
            &&& after.pixels[at] == gray
            &&& after.pixels[at + 1] == gray
            &&& after.pixels[at + 2] == gray
            &&& after.pixels[at + 3] == OPAQUE
        }),
{
    let pixel = y * surface.width + x;
    assert(0 <= pixel < surface.width * surface.height) by (nonlinear_arith)
        requires
            pixel == y * surface.width + x,
            0 <= x < surface.width,
            0 <= y < surface.height,
    ;
    lemma_gray_frame_channels(surface.state, surface.pixel_count(), pixel);
}

/// Construction, resizing and rendering keep a surface well formed: the
/// buffer length stays four times the pixel count and the generator never
/// reaches zero.
pub proof fn lemma_operations_keep_wf(surface: NoiseSurface, width: u32, height: u32)
    requires
        surface.wf(),
    ensures
        NoiseSurface::fresh(width, height).wf(),
        surface.resized(width, height).wf(),
        surface.stepped().wf(),
        surface.rendered().wf(),
{
    lemma_zero_unreachable(surface.state, 1);
    assert(surface.stepped().state == state_after(surface.state, 1)) by {
        reveal_with_fuel(state_after, 2);
    }
    lemma_zero_unreachable(surface.state, surface.pixel_count());
    assert(0 <= surface.width * surface.height) by (nonlinear_arith);
}

/// Rendering `frames` frames in a row advances the generator by `frames`
/// times the pixel count, leaves the dimensions alone, and (once at least one
/// frame was rendered) leaves in the buffer the static drawn from the state
/// that the generator had before the last frame.
pub proof fn lemma_rendered_times(surface: NoiseSurface, frames: nat)
    ensures
        surface.rendered_times(frames).width == surface.width,
        surface.rendered_times(frames).height == surface.height,
        surface.rendered_times(frames).state == state_after(
            surface.state,
            frames * surface.pixel_count(),
        ),
        frames > 0 ==> surface.rendered_times(frames).pixels == gray_frame(
            state_after(surface.state, (frames - 1) as nat * surface.pixel_count()),
            surface.pixel_count(),
        ),
    decreases frames,
{
    if frames > 0 {
        let before = (frames - 1) as nat;
        let count = surface.pixel_count();
        lemma_rendered_times(surface, before);
        lemma_state_after_add(surface.state, before * count, count);
        assert(before * count + count == frames * count) by (nonlinear_arith)
            requires
                before + 1 == frames,
        ;
    } else {
        assert(frames * surface.pixel_count() == 0) by (nonlinear_arith)
            requires
                frames == 0,
        ;
    }
}

/// Rendering is deterministic: two surfaces of the same dimensions whose
/// generators are in the same state hold the same bytes, and the same
/// generator state, after the same number of frames, whatever their buffers
/// held before the first one.
pub proof fn lemma_render_deterministic(first: NoiseSurface, second: NoiseSurface, frames: nat)
    requires
        first.width == second.width,
        first.height == second.height,
        first.state == second.state,
        frames > 0,
    ensures
        first.rendered_times(frames) == second.rendered_times(frames),
{
    lemma_rendered_times(first, frames);
    lemma_rendered_times(second, frames);
}

/// What a new surface holds after `frames` frames: a function of the
/// dimensions and the number of frames alone.
pub proof fn lemma_fresh_rendered_times(width: u32, height: u32, frames: nat)
    ensures
        NoiseSurface::fresh(width, height).rendered_times(frames).state == state_after(
            SEED,
            frames * (width * height) as nat,
        ),
        NoiseSurface::fresh(width, height).rendered_times(frames).pixels == if frames == 0 {
            Seq::new(byte_len(width, height), |i: int| 0u8)
        } else {
            gray_frame(
                state_after(SEED, (frames - 1) as nat * (width * height) as nat),
                (width * height) as nat,
            )
        },
{
    lemma_rendered_times(NoiseSurface::fresh(width, height), frames);
}

/// A resize does not disturb the random stream: a surface that is resized
/// and then rendered ends with the same buffer and the same generator state
/// as a surface that had those dimensions all along and whose generator was
/// in the same state.
pub proof fn lemma_resize_keeps_stream(surface: NoiseSurface, steady: NoiseSurface)
    requires
        surface.state == steady.state,
    ensures
        surface.resized(steady.width, steady.height).state == surface.state,
        surface.resized(steady.width, steady.height).rendered() == steady.rendered(),
{
}

/// A resize that keeps the number of pixels leaves the generator, after the
/// next render, where a render without the resize would have left it, and
/// the buffer with the same bytes.
pub proof fn lemma_resize_same_area(surface: NoiseSurface, width: u32, height: u32)
    requires
        width * height == surface.width * surface.height,
    ensures
        surface.resized(width, height).rendered().state == surface.rendered().state,
        surface.resized(width, height).rendered().pixels == surface.rendered().pixels,
{
}

/// Resize and render, held against render alone on the same surface: the
/// generator ends in the same state exactly when the steps by which the two
/// renders differ bring it back to the state it started from.
pub proof fn lemma_resize_then_render(surface: NoiseSurface, width: u32, height: u32)
    ensures
        ({
            let kept = surface.pixel_count();
            let changed = (width * height) as nat;
            let apart = if kept <= changed {
                changed - kept
            } else {
                kept - changed
            };
            surface.resized(width, height).rendered().state == surface.rendered().state
                <==> state_after(surface.state, apart as nat) == surface.state
        }),
{
    let kept = surface.pixel_count();
    let changed = (width * height) as nat;
    assert(0 <= width * height) by (nonlinear_arith);
    if kept <= changed {
        let apart = (changed - kept) as nat;
        lemma_state_after_add(surface.state, apart, kept);
        if state_after(surface.state, changed) == state_after(surface.state, kept) {
            lemma_state_after_injective(state_after(surface.state, apart), surface.state, kept);
        }
    } else {
        let apart = (kept - changed) as nat;
        lemma_state_after_add(surface.state, apart, changed);
        if state_after(surface.state, changed) == state_after(surface.state, kept) {
            lemma_state_after_injective(state_after(surface.state, apart), surface.state, changed);
        }
    }
}

/// A resize that adds or removes exactly one pixel always shows in the
/// generator after the next render: one step more or less never brings a
/// well-formed surface's generator back to where it was.
pub proof fn lemma_resize_by_one_pixel(surface: NoiseSurface, width: u32, height: u32)
    requires
        surface.wf(),
        width * height == surface.pixel_count() + 1 || width * height + 1 == surface.pixel_count(),
    ensures
        surface.resized(width, height).rendered().state != surface.rendered().state,
{
    lemma_resize_then_render(surface, width, height);
    lemma_step_moves_nonzero(surface.state);
    assert(state_after(surface.state, 1) == spec_xorshift32(surface.state)) by {
        reveal_with_fuel(state_after, 2);
    }
}

} // verus!
