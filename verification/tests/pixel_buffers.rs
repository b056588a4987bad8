use pinora::geometry::{PixelPoint, PixelRect};
use pinora::model::ErrorCode;
use pinora::pixels::{
    blit_rect, blit_xrgb_block, build_pin_render_cache, darken_pixels, draw_border, draw_rect_border,
    draw_rect_outline_xrgb, pixel_count, scale_nearest,
};

#[test]
fn pixel_count_multiplies_or_reports_the_subject() {
    assert_eq!(pixel_count(3, 4, "pin buffer").unwrap(), 12);
    assert_eq!(pixel_count(0, 4000, "pin buffer").unwrap(), 0);
    if usize::MAX as u64 == u64::MAX {
        assert_eq!(pixel_count(u32::MAX, u32::MAX, "pin buffer").unwrap(), (u32::MAX as usize) * (u32::MAX as usize));
    } else {
        let err = pixel_count(u32::MAX, 2, "pin buffer").unwrap_err();
        assert_eq!(err.code, ErrorCode::InvalidState);
        assert_eq!(err.message, "pin buffer is too large");
    }
}

#[test]
fn nearest_scaling_doubles_and_halves() {
    let src = vec![1, 2, 3, 4];
    let mut dst = vec![0u32; 16];
    scale_nearest(&src, 2, 2, &mut dst, 4, 4);
    assert_eq!(dst, vec![1, 1, 2, 2, 1, 1, 2, 2, 3, 3, 4, 4, 3, 3, 4, 4]);

    let big: Vec<u32> = (0..16).collect();
    let mut small = vec![99u32; 5];
    scale_nearest(&big, 4, 4, &mut small, 2, 2);
    assert_eq!(small, vec![0, 2, 8, 10, 99]);
}

#[test]
fn nearest_scaling_to_nothing_leaves_the_target() {
    let mut dst = vec![7u32; 3];
    scale_nearest(&[], 0, 0, &mut dst, 0, 3);
    assert_eq!(dst, vec![7, 7, 7]);
}

#[test]
fn border_paints_only_the_edge() {
    let mut buf = vec![0u32; 12];
    draw_border(&mut buf, 4, 3, 9);
    assert_eq!(buf, vec![9, 9, 9, 9, 9, 0, 0, 9, 9, 9, 9, 9]);
    let mut untouched = vec![1u32; 4];
    draw_border(&mut untouched, 0, 3, 9);
    assert_eq!(untouched, vec![1, 1, 1, 1]);
}

#[test]
fn darkening_scales_each_channel() {
    let mut buf = vec![0x00ff_8040, 0xff00_0001];
    darken_pixels(&mut buf, 128);
    assert_eq!(buf, vec![0x007f_4020, 0x0000_0000]);
    let mut same = vec![0xff12_3456];
    darken_pixels(&mut same, 256);
    assert_eq!(same, vec![0xff12_3456]);
}

#[test]
fn blit_copies_the_clipped_rectangle() {
    let src: Vec<u32> = (1..=12).collect();
    let mut dst = vec![0u32; 12];
    blit_rect(&mut dst, &src, 4, 3, PixelRect::new(1, 1, 2, 5));
    assert_eq!(dst, vec![0, 0, 0, 0, 0, 6, 7, 0, 0, 10, 11, 0]);

    let mut left = vec![0u32; 12];
    blit_rect(&mut left, &src, 4, 3, PixelRect::new(-3, 0, 4, 1));
    assert_eq!(left, vec![1, 0, 0, 0, 0, 0, 0, 0, 0, 0, 0, 0]);

    let mut none = vec![0u32; 12];
    blit_rect(&mut none, &src, 4, 3, PixelRect::new(2, 2, 0, 1));
    assert_eq!(none, vec![0u32; 12]);
}

#[test]
fn pin_frames_scale_then_darken() {
    let source = vec![0x00ff_ffff, 0x0000_0080];
    let same = build_pin_render_cache(&source, 2, 1, 2, 1, 256).unwrap();
    assert_eq!(same.pixels, source);
    assert!(same.matches(2, 1, 256));
    assert!(!same.matches(2, 1, 128));

    let scaled = build_pin_render_cache(&source, 2, 1, 4, 2, 128).unwrap();
    assert_eq!(scaled.pixels, vec![0x007f_7f7f, 0x007f_7f7f, 0x40, 0x40, 0x007f_7f7f, 0x007f_7f7f, 0x40, 0x40]);
    assert_eq!((scaled.width, scaled.height, scaled.opacity_factor), (4, 2, 128));
}

#[test]
fn pin_frames_refuse_mismatched_sources() {
    let err = build_pin_render_cache(&[1, 2, 3], 2, 2, 4, 4, 256).unwrap_err();
    assert_eq!(err.code, ErrorCode::InvalidState);
    assert_eq!(err.message, "pin source pixels do not match image dimensions");
}

#[test]
fn blocks_copy_inside_the_frame_only() {
    let src = vec![1, 2, 3, 4];
    let mut frame = vec![0u32; 12];
    blit_xrgb_block(&mut frame, 4, 3, PixelRect::new(1, 1, 5, 5), &src, 2, 2);
    assert_eq!(frame, vec![0, 0, 0, 0, 0, 1, 2, 0, 0, 3, 4, 0]);

    let mut corner = vec![0u32; 12];
    blit_xrgb_block(&mut corner, 4, 3, PixelRect::new(3, 2, 5, 5), &src, 2, 2);
    assert_eq!(corner, vec![0, 0, 0, 0, 0, 0, 0, 0, 0, 0, 0, 1]);

    let mut short = vec![0u32; 12];
    blit_xrgb_block(&mut short, 4, 3, PixelRect::new(0, 0, 2, 2), &src[..3], 2, 2);
    assert_eq!(short, vec![0u32; 12]);
}

#[test]
fn outlines_are_clamped_into_the_buffer() {
    let mut buf = vec![0u32; 20];
    draw_rect_outline_xrgb(&mut buf, 5, 4, PixelPoint::new(-5, -5), PixelPoint::new(10, 10), 7);
    assert_eq!(
        buf,
        vec![7, 7, 7, 7, 7, 7, 0, 0, 0, 7, 7, 0, 0, 0, 7, 7, 7, 7, 7, 7]
    );
    let mut reversed = vec![0u32; 20];
    draw_rect_outline_xrgb(&mut reversed, 5, 4, PixelPoint::new(3, 3), PixelPoint::new(1, 1), 7);
    assert_eq!(reversed, vec![0u32; 20]);
}

#[test]
fn rect_borders_are_two_pixels_wide() {
    let at = |x: usize, y: usize| y * 8 + x;
    let mut buf = vec![0u32; 64];
    draw_rect_border(&mut buf, 8, 8, PixelRect::new(1, 1, 6, 6), 9);
    for (x, y) in [(1, 1), (6, 6), (2, 3), (5, 4), (3, 2), (4, 5), (6, 1)] {
        assert_eq!(buf[at(x, y)], 9, "({x}, {y})");
    }
    for (x, y) in [(3, 3), (4, 4), (0, 0), (7, 1), (1, 7), (0, 3)] {
        assert_eq!(buf[at(x, y)], 0, "({x}, {y})");
    }

    let mut thin = vec![0u32; 64];
    draw_rect_border(&mut thin, 8, 8, PixelRect::new(2, 2, 1, 1), 9);
    let painted: Vec<usize> = (0..64).filter(|&i| thin[i] == 9).collect();
    assert_eq!(painted, vec![at(1, 2), at(2, 2), at(3, 2), at(2, 3)]);
}
