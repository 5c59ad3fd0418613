use crossterm::Command;
use pixel_loop::canvas::Canvas;
use pixel_loop::color::Color;
use pixel_loop::terminal::{CrosstermCanvas, Patch};

const HIDE: &str = "\x1b[?25l";
const SHOW: &str = "\x1b[?25h";
const GLYPH: &str = "\u{2580}";

fn colors_text(upper: Color, lower: Color) -> String {
    let mut s = String::new();
    crossterm::style::SetColors(crossterm::style::Colors::new(
        crossterm::style::Color::Rgb { r: upper.r, g: upper.g, b: upper.b },
        crossterm::style::Color::Rgb { r: lower.r, g: lower.g, b: lower.b },
    ))
    .write_ansi(&mut s)
    .unwrap();
    s
}

#[test]
fn first_render_draws_every_cell_then_nothing() {
    let mut canvas = CrosstermCanvas::new_with_size(2, 2);
    let black = Color::from_rgb(0, 0, 0);
    let first = String::from_utf8(canvas.render_frame().unwrap()).unwrap();
    let expected = format!(
        "{HIDE}\x1b[1;1H{}{GLYPH}{GLYPH}\x1b[2;3H{SHOW}",
        colors_text(black, black)
    );
    assert_eq!(first, expected);
    let second = String::from_utf8(canvas.render_frame().unwrap()).unwrap();
    assert_eq!(second, format!("{HIDE}\x1b[2;3H{SHOW}"));
}

#[test]
fn same_frame_twice_gives_no_patches() {
    let mut canvas = CrosstermCanvas::new_with_size(5, 4);
    canvas.filled_rect(1, 1, 2, 2, &Color::from_rgb(9, 9, 9));
    assert!(!canvas.calculate_patches().is_empty());
    canvas.render_frame().unwrap();
    assert!(canvas.calculate_patches().is_empty());
    canvas.render_frame().unwrap();
    assert!(canvas.calculate_patches().is_empty());
}

#[test]
fn patches_cover_runs_of_changed_cells() {
    let mut canvas = CrosstermCanvas::new_with_size(5, 3);
    canvas.render_frame().unwrap();
    let red = Color::from_rgb(255, 0, 0);
    canvas.set(0, 0, &red);
    canvas.set(1, 1, &red);
    canvas.set(3, 0, &red);
    canvas.set(4, 2, &red);
    let patches = canvas.calculate_patches();
    assert_eq!(patches.len(), 3);
    let black = Color::from_rgb(0, 0, 0);
    let mut out = vec![];
    patches[0].apply(&mut out);
    let expected = format!(
        "\x1b[1;1H{}{GLYPH}{}{GLYPH}",
        colors_text(red, black),
        colors_text(black, red)
    );
    assert_eq!(String::from_utf8(out).unwrap(), expected);
    let mut out = vec![];
    patches[1].apply(&mut out);
    assert_eq!(String::from_utf8(out).unwrap(), format!("\x1b[1;4H{}{GLYPH}", colors_text(red, black)));
    let mut out = vec![];
    patches[2].apply(&mut out);
    assert_eq!(String::from_utf8(out).unwrap(), format!("\x1b[2;5H{}{GLYPH}", colors_text(red, black)));
}

#[test]
fn patch_writes_colors_only_when_they_change() {
    let a = Color::from_rgb(1, 2, 3);
    let b = Color::from_rgb(4, 5, 6);
    let mut patch = Patch::new(3, 7);
    patch.add_two_row_pixel(&a, &b);
    patch.add_two_row_pixel(&a, &b);
    patch.add_two_row_pixel(&b, &a);
    let mut out = vec![];
    patch.apply(&mut out);
    let expected = format!(
        "\x1b[8;4H{}{GLYPH}{GLYPH}{}{GLYPH}",
        colors_text(a, b),
        colors_text(b, a)
    );
    assert_eq!(String::from_utf8(out).unwrap(), expected);
}

#[test]
fn terminal_sized_canvas() {
    let canvas = CrosstermCanvas::new(80, 24);
    assert_eq!((canvas.width(), canvas.height()), (80, 48));
    assert!(canvas.resizable());
    let fixed = CrosstermCanvas::new_with_size(10, 10);
    assert!(!fixed.resizable());
    assert!(fixed.with_resizable(true).resizable());
}

#[test]
fn resize_reallocates_both_frames() {
    let mut canvas = CrosstermCanvas::new_with_size(4, 4);
    canvas.end_loop();
    assert_eq!(canvas.did_resize(), None);
    canvas.resize_surface(3, 2);
    assert_eq!(canvas.did_resize(), Some((3, 2)));
    assert_eq!(canvas.get_range(0..6), &[Color::from_rgb(0, 0, 0); 6]);
    let out = String::from_utf8(canvas.render_frame().unwrap()).unwrap();
    assert!(out.contains(GLYPH));
    canvas.end_loop();
    assert_eq!(canvas.did_resize(), None);
}

#[test]
fn frame_pacing() {
    let canvas = CrosstermCanvas::new_with_size(1, 1).with_refresh_limit(50);
    // 20 ms per frame
    assert_eq!(canvas.frame_sleep_nanos(0), 10_000_000);
    assert_eq!(canvas.frame_spin_nanos(0), 20_000_000);
    assert_eq!(canvas.frame_sleep_nanos(12_000_000), 0);
    assert_eq!(canvas.frame_spin_nanos(12_000_000), 8_000_000);
    assert_eq!(canvas.frame_sleep_nanos(25_000_000), 0);
    assert_eq!(canvas.frame_spin_nanos(25_000_000), 0);
    let default_rate = CrosstermCanvas::new_with_size(1, 1);
    assert_eq!(default_rate.frame_spin_nanos(0), 16_666_666);
}

#[test]
fn elapsed_since_last_frame() {
    let mut canvas = CrosstermCanvas::new_with_size(1, 1);
    canvas.start_frame(1_000);
    assert_eq!(canvas.elapsed_since_last_frame(5_000), 4_000);
    assert_eq!(canvas.elapsed_since_last_frame(500), 0);
}

#[test]
fn odd_height_uses_black_below_last_row() {
    let mut canvas = CrosstermCanvas::new_with_size(1, 3);
    let red = Color::from_rgb(255, 0, 0);
    canvas.set(0, 0, &red);
    canvas.set(0, 1, &red);
    canvas.set(0, 2, &red);
    let patches = canvas.calculate_patches();
    assert_eq!(patches.len(), 2);
    let black = Color::from_rgb(0, 0, 0);
    let mut out = vec![];
    patches[1].apply(&mut out);
    assert_eq!(String::from_utf8(out).unwrap(), format!("\x1b[2;1H{}{GLYPH}", colors_text(red, black)));
}

#[test]
fn canvas_too_wide_for_cursor_moves_is_not_rendered() {
    let mut canvas = CrosstermCanvas::new_with_size(65535, 2);
    assert!(canvas.render_frame().is_none());
    let mut fits = CrosstermCanvas::new_with_size(65534, 2);
    assert!(fits.render_frame().is_some());
}
