use pinora::desktop_shell::{preview_buffers_match_image, DisplayBounds};
use pinora::frame_cache::{pick_display, rgba_to_xrgb, rgba_to_xrgb_and_dim, CacheState};
use pinora::geometry::PixelRect;

#[test]
fn rgba_dim_len() {
    let bytes = vec![255u8, 0, 0, 255, 0, 255, 0, 255];
    let (b, d) = rgba_to_xrgb_and_dim(&bytes);
    assert_eq!(b.len(), 2);
    assert_eq!(d.len(), 2);
    assert_eq!(b[0], 0x00ff_0000);
}

#[test]
fn dimmed_pixels_keep_eleven_twentieths_of_each_channel() {
    let (b, d) = rgba_to_xrgb_and_dim(&[200, 100, 20, 255, 1, 2]);
    assert_eq!(b, vec![0x00c8_6414]);
    assert_eq!(d, vec![(110 << 16) | (55 << 8) | 11]);
    assert_eq!(rgba_to_xrgb(&[1, 2, 3, 255, 4, 5, 6, 0]), vec![0x0001_0203, 0x0004_0506]);
}

#[test]
fn taking_fresh_frame_transfers_ownership_and_clears_cache_slot() {
    let mut cache: CacheState<u32> = CacheState::new();
    assert!(cache.publish_if_active(0, 7));
    assert_eq!(cache.take_if_fresh(true), Some(7));
    assert!(!cache.is_ready());
}

#[test]
fn paused_generation_rejects_late_capture_publish() {
    let mut cache: CacheState<u32> = CacheState::new();
    let generation = cache.generation;

    cache.pause();

    assert!(!cache.publish_if_active(generation, 1));
    assert!(!cache.is_ready());
    cache.resume();
    assert!(!cache.publish_if_active(generation, 1));
}

#[test]
fn repeated_resume_does_not_invalidate_an_active_capture() {
    let mut cache: CacheState<u32> = CacheState::new();
    let generation = cache.generation;

    cache.resume();

    assert!(cache.publish_if_active(generation, 3));
    assert!(cache.is_ready());
    assert_eq!(cache.take_if_fresh(false), None);
    assert_eq!(cache.take_any(), Some(3));
}

#[test]
fn the_cache_captures_the_largest_display() {
    let display = |id: &str, w: u32, h: u32| DisplayBounds { id: id.into(), bounds: PixelRect::new(0, 0, w, h) };
    assert!(pick_display(&Vec::new()).is_none());
    let picked = pick_display(&vec![display("a", 1920, 1080), display("b", 2560, 1440), display("c", 1280, 1024)]).unwrap();
    assert_eq!(picked.id, "b");
    let last_of_equals = pick_display(&vec![display("a", 100, 100), display("b", 100, 100)]).unwrap();
    assert_eq!(last_of_equals.id, "b");
}

#[test]
fn preview_buffer_validation_requires_both_render_buffers_to_match_the_image() {
    let bytes: Vec<u8> = [1u8, 2, 3, 255].repeat(4);
    let (base, mut dimmed) = rgba_to_xrgb_and_dim(&bytes);
    assert!(preview_buffers_match_image(2, 2, base.len(), dimmed.len()));
    dimmed.pop();
    assert!(!preview_buffers_match_image(2, 2, base.len(), dimmed.len()));
}
