use mandel_kernel::kernel::{
    narrow_index, narrow_kernel, narrow_pixel, wide_group, wide_index, wide_kernel, DrawBounds,
    InputParameters,
};
use mandel_kernel::packing::unpack_pixels;

// Raw fixed-point unit: 2^32.
const ONE: i64 = 4294967296;

fn params(img_size_px: u32, max_iter: u32) -> InputParameters {
    InputParameters {
        draw_bounds: DrawBounds {
            x_min: -2 * ONE,
            x_max: ONE,
            y_min: -3 * ONE / 2,
            y_max: 3 * ONE / 2,
        },
        img_size_px,
        max_iter,
    }
}

#[test]
fn narrow_indices_cover_the_buffer_exactly_once() {
    let s: u32 = 8;
    let p = params(s, 10);
    let mut hits = vec![0u32; (s * s) as usize];
    for y in 0..s {
        for x in 0..s {
            hits[narrow_index(&p, x, y) as usize] += 1;
        }
    }
    for h in hits {
        assert_eq!(h, 1);
    }
}

#[test]
fn wide_indices_cover_the_buffer_exactly_once() {
    let s: u32 = 8;
    let p = params(s, 10);
    let mut hits = vec![0u32; ((s / 4) * s) as usize];
    for y in 0..s {
        for gx in 0..s / 4 {
            hits[wide_index(&p, gx, y) as usize] += 1;
        }
    }
    for h in hits {
        assert_eq!(h, 1);
    }
}

#[test]
fn narrow_index_is_row_major() {
    let p = params(16, 10);
    assert_eq!(narrow_index(&p, 0, 0), 0);
    assert_eq!(narrow_index(&p, 5, 0), 5);
    assert_eq!(narrow_index(&p, 0, 1), 16);
    assert_eq!(narrow_index(&p, 3, 2), 35);
}

#[test]
fn narrow_kernel_writes_one_byte_and_nothing_else() {
    let s: u32 = 4;
    let p = params(s, 20);
    let mut pixels = vec![7u8; (s * s) as usize];
    narrow_kernel(&p, 2, 1, &mut pixels);
    let idx = narrow_index(&p, 2, 1) as usize;
    for (k, byte) in pixels.iter().enumerate() {
        if k == idx {
            assert_eq!(*byte, narrow_pixel(&p, 2, 1));
        } else {
            assert_eq!(*byte, 7);
        }
    }
}

#[test]
fn full_narrow_dispatch_fills_the_buffer() {
    let s: u32 = 8;
    let p = params(s, 30);
    let mut pixels = vec![0u8; (s * s) as usize];
    for y in 0..s {
        for x in 0..s {
            narrow_kernel(&p, x, y, &mut pixels);
        }
    }
    for y in 0..s {
        for x in 0..s {
            assert_eq!(pixels[(y * s + x) as usize], narrow_pixel(&p, x, y));
        }
    }
}

#[test]
fn wide_kernel_writes_one_word_and_nothing_else() {
    let s: u32 = 8;
    let p = params(s, 20);
    let mut words = vec![0xdeadbeefu32; ((s / 4) * s) as usize];
    wide_kernel(&p, 1, 3, &mut words);
    let idx = wide_index(&p, 1, 3) as usize;
    for (k, word) in words.iter().enumerate() {
        if k == idx {
            assert_eq!(*word, wide_group(&p, 1, 3));
        } else {
            assert_eq!(*word, 0xdeadbeef);
        }
    }
}

#[test]
fn wide_groups_agree_with_narrow_pixels_at_byte_caps() {
    // With max_iter below 256 the narrow variant's truncated cap equals the
    // wide variant's full cap, so the two layouts must hold the same
    // intensities.
    let s: u32 = 8;
    let p = params(s, 40);
    for y in 0..s {
        for gx in 0..s / 4 {
            let (p0, p1, p2, p3) = unpack_pixels(wide_group(&p, gx, y));
            assert_eq!(p0, narrow_pixel(&p, 4 * gx, y));
            assert_eq!(p1, narrow_pixel(&p, 4 * gx + 1, y));
            assert_eq!(p2, narrow_pixel(&p, 4 * gx + 2, y));
            assert_eq!(p3, narrow_pixel(&p, 4 * gx + 3, y));
        }
    }
}

#[test]
fn narrow_variant_truncates_the_cap_to_a_byte() {
    // 256 truncates to a cap of 0: every pixel of the narrow variant is
    // black, while 255 keeps a real cap.
    let s: u32 = 4;
    let p256 = params(s, 256);
    let p255 = params(s, 255);
    let mut all_zero = true;
    for y in 0..s {
        for x in 0..s {
            assert_eq!(narrow_pixel(&p256, x, y), 0);
            if narrow_pixel(&p255, x, y) != 0 {
                all_zero = false;
            }
        }
    }
    assert!(!all_zero);
}
