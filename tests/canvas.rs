use pixel_loop::canvas::{Blit, Canvas};
use pixel_loop::color::{Color, ColorAsByteSlice};
use pixel_loop::in_memory::{DecodedImage, ImageError, InMemoryCanvas};

fn red() -> Color {
    Color::from_rgb(255, 0, 0)
}

fn black() -> Color {
    Color::from_rgb(0, 0, 0)
}

#[test]
fn filled_rect_clips_at_canvas_edge() {
    let mut canvas = InMemoryCanvas::new(10, 10, &black());
    canvas.filled_rect(8, 8, 5, 5, &red());
    for y in 0..10u32 {
        for x in 0..10u32 {
            let expected = if x >= 8 && y >= 8 { red() } else { black() };
            assert_eq!(*canvas.get(x, y), expected, "pixel ({x}, {y})");
        }
    }
}

#[test]
fn filled_rect_reaches_last_column_and_row() {
    let mut canvas = InMemoryCanvas::new(4, 3, &black());
    canvas.filled_rect(0, 0, 4, 3, &red());
    for y in 0..3u32 {
        for x in 0..4u32 {
            assert_eq!(*canvas.get(x, y), red());
        }
    }
}

#[test]
fn clip_rect_cases() {
    let canvas = InMemoryCanvas::new(10, 10, &black());
    assert_eq!(canvas.clip_rect(8, 8, 5, 5), Some((8, 8, 2, 2)));
    assert_eq!(canvas.clip_rect(-3, -2, 5, 5), Some((0, 0, 2, 3)));
    assert_eq!(canvas.clip_rect(0, 0, 10, 10), Some((0, 0, 10, 10)));
    assert_eq!(canvas.clip_rect(-5, 0, 5, 5), None);
    assert_eq!(canvas.clip_rect(10, 0, 5, 5), None);
    assert_eq!(canvas.clip_rect(0, 10, 5, 5), None);
    assert_eq!(canvas.clip_rect(3, 3, 0, 5), None);
    assert_eq!(canvas.clip_rect(-100, -100, 300, 300), Some((0, 0, 10, 10)));
}

#[test]
fn maybe_get_and_is_empty_or_color() {
    let mut canvas = InMemoryCanvas::new(3, 2, &black());
    canvas.set(2, 1, &red());
    assert_eq!(canvas.maybe_get(2, 1), Some(&red()));
    assert_eq!(canvas.maybe_get(3, 1), None);
    assert_eq!(canvas.maybe_get(-1, 0), None);
    assert!(canvas.is_empty_or_color(-1, 0, &red()));
    assert!(canvas.is_empty_or_color(2, 1, &red()));
    assert!(!canvas.is_empty_or_color(0, 0, &red()));
    assert!(canvas.is_empty_or_color(0, 0, &black()));
}

#[test]
fn set_outside_the_canvas_does_nothing() {
    let mut canvas = InMemoryCanvas::new(3, 2, &black());
    canvas.set(3, 0, &red());
    canvas.set(0, 2, &red());
    assert!(canvas.get_range(0..6).iter().all(|c| *c == black()));
}

#[test]
fn set_range_and_get_range() {
    let mut canvas = InMemoryCanvas::new(4, 1, &black());
    canvas.set_range(1..3, &[red(), red()]);
    assert_eq!(canvas.get_range(0..4), &[black(), red(), red(), black()]);
}

#[test]
fn clear_screen_fills_everything() {
    let mut canvas = InMemoryCanvas::new(5, 4, &black());
    canvas.clear_screen(&red());
    assert!(canvas.get_range(0..20).iter().all(|c| *c == red()));
}

fn gradient(w: u32, h: u32) -> InMemoryCanvas {
    let mut c = InMemoryCanvas::new(w, h, &black());
    for y in 0..h {
        for x in 0..w {
            c.set(x, y, &Color::from_rgba((x * 40) as u8, (y * 60) as u8, 7, 100 + x as u8));
        }
    }
    c
}

#[test]
fn blit_with_white_tint_equals_untinted_blit() {
    let src = gradient(3, 3);
    let mut a = InMemoryCanvas::new(6, 5, &black());
    let mut b = InMemoryCanvas::new(6, 5, &black());
    a.blit(&src, 2, 1, None);
    b.blit(&src, 2, 1, Some(&Color::from_rgb(255, 255, 255)));
    assert_eq!(a.get_range(0..30), b.get_range(0..30));
    a.blit(&src, -1, 3, None);
    b.blit(&src, -1, 3, Some(&Color::from_rgb(255, 255, 255)));
    assert_eq!(a.get_range(0..30), b.get_range(0..30));
}

#[test]
fn blit_clipped_on_the_left_takes_the_matching_source_part() {
    let src = gradient(3, 2);
    let mut dst = InMemoryCanvas::new(4, 4, &black());
    dst.blit(&src, -1, 1, None);
    assert_eq!(*dst.get(0, 1), *src.get(1, 0));
    assert_eq!(*dst.get(1, 2), *src.get(2, 1));
    assert_eq!(*dst.get(2, 1), black());
    assert_eq!(*dst.get(0, 0), black());
}

#[test]
fn blit_rect_with_tint_scales_channels() {
    let mut src = InMemoryCanvas::new(2, 2, &black());
    src.set(1, 1, &Color::from_rgba(200, 100, 50, 255));
    let mut dst = InMemoryCanvas::new(3, 3, &red());
    dst.blit_rect(&src, 1, 1, 1, 1, 2, 0, Some(&Color::from_rgba(128, 128, 128, 255)));
    assert_eq!(*dst.get(2, 0), Color::from_rgba(100, 50, 25, 255));
    assert_eq!(*dst.get(1, 0), red());
}

#[test]
fn tint_formula() {
    let c = Color::from_rgba(200, 100, 50, 255).tint(&Color::from_rgba(128, 128, 128, 0));
    assert_eq!(c, Color::from_rgba(100, 50, 25, 0));
    let w = Color::from_rgba(9, 8, 7, 6).tint(&Color::from_rgb(255, 255, 255));
    assert_eq!(w, Color::from_rgba(9, 8, 7, 6));
}

#[test]
fn color_constructors() {
    let c = Color::from_rgb(1, 2, 3);
    assert_eq!((c.r, c.g, c.b, c.a), (1, 2, 3, 255));
    let d = Color::from_rgba(4, 5, 6, 7);
    assert_eq!((d.r, d.g, d.b, d.a), (4, 5, 6, 7));
    assert_eq!(d.as_bytes(), [4, 5, 6, 7]);
}

#[test]
fn colors_to_bytes_and_back() {
    let colors = [Color::from_rgba(1, 2, 3, 4), Color::from_rgba(5, 6, 7, 8)];
    let bytes = colors[..].as_byte_slice();
    assert_eq!(bytes, vec![1, 2, 3, 4, 5, 6, 7, 8]);
    assert_eq!(Color::from_bytes(&bytes), colors.to_vec());
}

#[test]
fn decoded_rgb_image_becomes_canvas() {
    let img = DecodedImage::Bytes { width: 2, height: 1, depth: 3, data: vec![1, 2, 3, 4, 5, 6] };
    let canvas = InMemoryCanvas::from_decoded(img).unwrap();
    assert_eq!(canvas.width(), 2);
    assert_eq!(canvas.height(), 1);
    assert_eq!(*canvas.get(0, 0), Color::from_rgb(1, 2, 3));
    assert_eq!(*canvas.get(1, 0), Color::from_rgb(4, 5, 6));
}

#[test]
fn decoded_image_errors() {
    let four = DecodedImage::Bytes { width: 1, height: 1, depth: 4, data: vec![1, 2, 3, 4] };
    assert_eq!(InMemoryCanvas::from_decoded(four).err(), Some(ImageError::Depth(4)));
    assert_eq!(InMemoryCanvas::from_decoded(DecodedImage::Hdr).err(), Some(ImageError::Hdr));
    let failed = DecodedImage::Failed("bad".to_string());
    assert_eq!(InMemoryCanvas::from_decoded(failed).err(), Some(ImageError::Decode("bad".to_string())));
}

#[test]
fn loads_image_from_memory() {
    let mut bytes = b"P6\n2 1\n255\n".to_vec();
    bytes.extend_from_slice(&[10, 20, 30, 40, 50, 60]);
    let canvas = InMemoryCanvas::from_in_memory_image(&bytes).unwrap();
    assert_eq!((canvas.width(), canvas.height()), (2, 1));
    assert_eq!(*canvas.get(0, 0), Color::from_rgb(10, 20, 30));
    assert_eq!(*canvas.get(1, 0), Color::from_rgb(40, 50, 60));
}

#[test]
fn garbage_is_not_an_image() {
    let r = InMemoryCanvas::from_in_memory_image(&[1, 2, 3]);
    assert!(matches!(r, Err(ImageError::Decode(_))));
}
