use ant_war::generator::{low_byte, xorshift32, SEED};
use ant_war::AntWar;

/// The first `n` words that the generator gives from the seed.
fn stream(n: usize) -> Vec<u32> {
    let mut words: Vec<u32> = Vec::new();
    let mut x: u32 = SEED;
    for _ in 0..n {
        x = xorshift32(x);
        words.push(x);
    }
    words
}

#[test]
fn four_by_one_starts_zeroed() {
    let surface = AntWar::new(4, 1);
    assert_eq!(surface.width(), 4);
    assert_eq!(surface.height(), 1);
    assert_eq!(surface.pixels_ptr().len(), 16);
    assert!(surface.pixels_ptr().iter().all(|&b| b == 0));
}

#[test]
fn four_by_one_first_frame() {
    let mut surface = AntWar::new(4, 1);
    surface.render();
    let pixels = surface.pixels_ptr();
    assert_eq!(pixels.len(), 16);
    // 0x1234abcd after one step is 0x6ee4450b, whose low byte is 0x0b.
    assert_eq!(pixels[0], 0x0b);
    assert_eq!(pixels[1], 0x0b);
    assert_eq!(pixels[2], 0x0b);
    assert_eq!(pixels[3], 255);
    assert_eq!(
        pixels,
        &[11, 11, 11, 255, 9, 9, 9, 255, 142, 142, 142, 255, 236, 236, 236, 255][..]
    );
}

#[test]
fn first_pixel_matches_the_step_by_hand() {
    let mut x: u32 = 0x1234_abcd;
    x ^= x << 13;
    x ^= x >> 17;
    x ^= x << 5;
    let mut surface = AntWar::new(4, 1);
    surface.render();
    assert_eq!(surface.pixels_ptr()[0], (x & 0xff) as u8);
}

#[test]
fn empty_surface() {
    let mut surface = AntWar::new(0, 0);
    assert_eq!(surface.pixels_ptr().len(), 0);
    surface.render();
    assert_eq!(surface.pixels_ptr().len(), 0);
    assert_eq!(surface.width(), 0);
    assert_eq!(surface.height(), 0);
    // Nothing was drawn, so the generator still stands at the seed.
    assert_eq!(surface.next_u32(), 0x6ee4_450b);
}

#[test]
fn one_empty_side_gives_an_empty_buffer() {
    let mut wide = AntWar::new(7, 0);
    wide.render();
    assert_eq!(wide.pixels_ptr().len(), 0);
    assert_eq!(wide.width(), 7);
    assert_eq!(wide.height(), 0);
    let mut tall = AntWar::new(0, 9);
    tall.render();
    assert_eq!(tall.pixels_ptr().len(), 0);
    assert_eq!(tall.next_u32(), wide.next_u32());
}

#[test]
fn buffer_length_after_new() {
    let sizes: [(u32, u32); 6] = [(0, 0), (1, 1), (4, 1), (3, 5), (640, 480), (1920, 1080)];
    for (w, h) in sizes {
        let surface = AntWar::new(w, h);
        assert_eq!(surface.pixels_ptr().len(), (w as usize) * (h as usize) * 4);
        assert_eq!(surface.width(), w);
        assert_eq!(surface.height(), h);
    }
    assert_eq!(AntWar::new(1920, 1080).pixels_ptr().len(), 8_294_400);
}

#[test]
fn buffer_length_after_resize() {
    let sizes: [(u32, u32); 7] =
        [(1, 1), (0, 0), (1920, 1080), (2, 2), (0, 3), (640, 480), (1, 1)];
    let mut surface = AntWar::new(4, 4);
    for (w, h) in sizes {
        surface.resize(w, h);
        assert_eq!(surface.pixels_ptr().len(), (w as usize) * (h as usize) * 4);
        assert_eq!(surface.width(), w);
        assert_eq!(surface.height(), h);
        surface.render();
        assert_eq!(surface.pixels_ptr().len(), (w as usize) * (h as usize) * 4);
    }
}

#[test]
fn channels_are_equal_and_opaque() {
    let sizes: [(u32, u32); 4] = [(1, 1), (4, 1), (17, 13), (320, 200)];
    for (w, h) in sizes {
        let mut surface = AntWar::new(w, h);
        for _ in 0..3 {
            surface.render();
            for pixel in surface.pixels_ptr().chunks(4) {
                assert_eq!(pixel.len(), 4);
                assert_eq!(pixel[0], pixel[1]);
                assert_eq!(pixel[1], pixel[2]);
                assert_eq!(pixel[3], 255);
            }
        }
    }
}

#[test]
fn render_draws_one_word_per_pixel_in_row_order() {
    let width: u32 = 5;
    let height: u32 = 3;
    let words = stream(15);
    let mut surface = AntWar::new(width, height);
    surface.render();
    let pixels = surface.pixels_ptr();
    for y in 0..height as usize {
        for x in 0..width as usize {
            let at = 4 * (y * width as usize + x);
            let gray = (words[y * width as usize + x] & 0xff) as u8;
            assert_eq!(pixels[at], gray);
            assert_eq!(pixels[at + 1], gray);
            assert_eq!(pixels[at + 2], gray);
            assert_eq!(pixels[at + 3], 255);
        }
    }
}

#[test]
fn pixel_in_the_second_row() {
    let mut surface = AntWar::new(3, 2);
    surface.render();
    // Column 1 of row 1 is the fifth pixel: the fifth word is 0xde7d9a4c.
    let at = 4 * (1 * 3 + 1);
    assert_eq!(surface.pixels_ptr()[at], 0x4c);
    assert_eq!(surface.pixels_ptr()[at + 3], 255);
}

#[test]
fn render_advances_the_generator_once_per_pixel() {
    let mut surface = AntWar::new(4, 1);
    surface.render();
    assert_eq!(surface.next_u32(), 0xde7d_9a4c);
    let words = stream(4 + 1 + 4 + 1);
    surface.render();
    assert_eq!(surface.next_u32(), words[9]);
}

#[test]
fn second_frame_continues_the_stream() {
    let words = stream(12);
    let mut surface = AntWar::new(3, 2);
    surface.render();
    surface.render();
    let pixels = surface.pixels_ptr();
    for p in 0..6 {
        assert_eq!(pixels[4 * p], (words[6 + p] & 0xff) as u8);
    }
}

#[test]
fn same_frames_on_two_surfaces() {
    for frames in 1..5 {
        let mut first = AntWar::new(16, 9);
        let mut second = AntWar::new(16, 9);
        for _ in 0..frames {
            first.render();
        }
        for _ in 0..frames {
            second.render();
        }
        assert_eq!(first.pixels_ptr(), second.pixels_ptr());
        assert_eq!(first.next_u32(), second.next_u32());
    }
}

#[test]
fn frames_do_not_depend_on_what_the_buffer_held() {
    // One surface is rendered at another size first and then brought to
    // 4 by 2; the other is built at 4 by 2 and draws the same number of
    // words before its frame.
    let mut first = AntWar::new(2, 1);
    first.render();
    first.resize(4, 2);
    first.render();
    let mut second = AntWar::new(4, 2);
    second.next_u32();
    second.next_u32();
    second.render();
    assert_eq!(first.pixels_ptr(), second.pixels_ptr());
    assert_eq!(first.next_u32(), second.next_u32());
}

#[test]
fn resize_leaves_the_generator_alone() {
    let mut resized = AntWar::new(8, 8);
    resized.resize(3, 3);
    let mut untouched = AntWar::new(8, 8);
    assert_eq!(resized.next_u32(), untouched.next_u32());
    assert_eq!(resized.next_u32(), 0x2eef_9309);
}

#[test]
fn resize_then_render_equals_render_at_that_size() {
    let mut resized = AntWar::new(10, 10);
    resized.resize(6, 4);
    resized.render();
    let mut steady = AntWar::new(6, 4);
    steady.render();
    assert_eq!(resized.pixels_ptr(), steady.pixels_ptr());
    assert_eq!(resized.next_u32(), steady.next_u32());
}

#[test]
fn resize_to_the_same_area_equals_render_alone() {
    let mut resized = AntWar::new(6, 4);
    resized.resize(3, 8);
    resized.render();
    let mut alone = AntWar::new(6, 4);
    alone.render();
    assert_eq!(resized.pixels_ptr(), alone.pixels_ptr());
    assert_eq!(resized.next_u32(), alone.next_u32());
}

#[test]
fn resize_to_another_area_draws_another_number_of_words() {
    let mut resized = AntWar::new(1, 1);
    resized.resize(2, 1);
    resized.render();
    let mut alone = AntWar::new(1, 1);
    alone.render();
    // Two words were drawn on one side and one on the other.
    assert_eq!(resized.next_u32(), 0x4d55_748e);
    assert_eq!(alone.next_u32(), 0x2eef_9309);
}

#[test]
fn growing_keeps_the_bytes_and_adds_zeros() {
    let mut surface = AntWar::new(2, 1);
    surface.render();
    assert_eq!(surface.pixels_ptr(), &[11, 11, 11, 255, 9, 9, 9, 255][..]);
    surface.resize(3, 1);
    assert_eq!(surface.pixels_ptr(), &[11, 11, 11, 255, 9, 9, 9, 255, 0, 0, 0, 0][..]);
}

#[test]
fn shrinking_keeps_the_first_bytes() {
    let mut surface = AntWar::new(2, 1);
    surface.render();
    surface.resize(1, 1);
    assert_eq!(surface.pixels_ptr(), &[11, 11, 11, 255][..]);
}

#[test]
fn shrinking_and_growing_again_gives_zeros() {
    let mut surface = AntWar::new(2, 1);
    surface.render();
    surface.resize(0, 0);
    assert_eq!(surface.pixels_ptr().len(), 0);
    surface.resize(2, 1);
    assert_eq!(surface.pixels_ptr(), &[0, 0, 0, 0, 0, 0, 0, 0][..]);
    surface.resize(1, 1);
    surface.resize(1, 2);
    assert_eq!(surface.pixels_ptr(), &[0, 0, 0, 0, 0, 0, 0, 0][..]);
}

#[test]
fn next_u32_follows_the_stream() {
    let mut surface = AntWar::new(1, 1);
    assert_eq!(surface.next_u32(), 0x6ee4_450b);
    assert_eq!(surface.next_u32(), 0x2eef_9309);
    assert_eq!(surface.next_u32(), 0x4d55_748e);
    assert_eq!(surface.next_u32(), 0x9b5c_68ec);
    assert_eq!(surface.next_u32(), 0xde7d_9a4c);
    // Drawing words does not touch the buffer.
    assert_eq!(surface.pixels_ptr(), &[0, 0, 0, 0][..]);
}

#[test]
fn next_u8_is_the_low_byte_of_the_next_word() {
    let mut surface = AntWar::new(1, 1);
    assert_eq!(surface.next_u8(), 11);
    assert_eq!(surface.next_u8(), 9);
    assert_eq!(surface.next_u8(), 142);
    assert_eq!(surface.next_u8(), 236);
    assert_eq!(surface.next_u32(), 0xde7d_9a4c);
    assert_eq!(low_byte(0xde7d_9a4c), 76);
}

#[test]
fn generator_never_gives_zero_on_a_surface() {
    let mut surface = AntWar::new(0, 0);
    for _ in 0..(1u32 << 20) {
        assert_ne!(surface.next_u32(), 0);
    }
}

#[test]
fn fits_for_display_sizes() {
    assert!(AntWar::fits(0, 0));
    assert!(AntWar::fits(1, 1));
    assert!(AntWar::fits(1920, 1080));
    assert!(AntWar::fits(7680, 4320));
    assert!(AntWar::fits(u32::MAX, 0));
    assert!(AntWar::fits(0, u32::MAX));
}

#[test]
fn fits_stops_at_the_largest_allocation() {
    assert!(!AntWar::fits(u32::MAX, u32::MAX));
    let sizes: [(u32, u32); 6] = [
        (1 << 31, 1 << 30),
        ((1 << 31) - 1, 1 << 30),
        (1 << 15, 1 << 14),
        ((1 << 15) - 1, 1 << 14),
        (u32::MAX, 1),
        (65_536, 65_536),
    ];
    for (w, h) in sizes {
        let bytes: u128 = (w as u128) * (h as u128) * 4;
        assert_eq!(AntWar::fits(w, h), bytes <= isize::MAX as u128);
    }
}
