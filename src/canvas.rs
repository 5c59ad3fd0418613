//! The canvas contract: a rectangular grid of pixels addressed through flat,
//! row-major index ranges, with clipped drawing built on two primitives.
use std::ops::Range;
use vstd::prelude::*;

use crate::color::{tinted, Color};

pub use crate::in_memory::InMemoryCanvas;
pub use crate::terminal::CrosstermCanvas;

verus! {

/// Row-major index of the pixel (x, y) on a canvas `w` pixels wide.
pub open spec fn idx(w: int, x: int, y: int) -> int {
    y * w + x
}

/// Whether (px, py) lies in the rectangle with origin (x, y) and extent (w, h).
pub open spec fn in_rect(x: int, y: int, w: int, h: int, px: int, py: int) -> bool {
    x <= px < x + w && y <= py < y + h
}

/// The visible part of the rectangle (x, y, w, h) on a canvas of extent
/// (cw, ch), or `None` when no pixel of it is visible.
pub open spec fn clip_spec(x: int, y: int, w: int, h: int, cw: int, ch: int) -> Option<
    (int, int, int, int),
> {
    let x0 = if x < 0 { 0 } else { x };
    let y0 = if y < 0 { 0 } else { y };
    let x1 = if x + w < cw { x + w } else { cw };
    let y1 = if y + h < ch { y + h } else { ch };
    if x0 < x1 && y0 < y1 {
        Some((x0, y0, x1 - x0, y1 - y0))
    } else {
        None
    }
}

/// The color that a blit writes for the source color `c`.
pub open spec fn blit_color(c: Color, tint: Option<Color>) -> Color {
    match tint {
        Some(t) => tinted(c, t),
        None => c,
    }
}

/// Any pixel (px, py) in the canvas of extent (w, h) has an index below w * h.
pub proof fn lemma_idx_bounds(w: int, h: int, px: int, py: int)
    requires
        0 <= px < w,
        0 <= py < h,
    ensures
        0 <= idx(w, px, py) < w * h,
        idx(w, px, py) + (w - px) <= w * h,
{
    assert(0 <= py * w) by (nonlinear_arith)
        requires
            0 <= py,
            0 <= w,
    ;
    assert(py * w + w <= w * h) by (nonlinear_arith)
        requires
            py < h,
            0 <= w,
    ;
}

/// Two pixels of one canvas share an index only if they are the same pixel:
/// row `row`, columns [x0, x1) occupy the index range [idx(w, x0, row), idx(w, x1, row)).
pub proof fn lemma_idx_row(w: int, px: int, py: int, row: int, x0: int, x1: int)
    requires
        0 <= px < w,
        0 <= py,
        0 <= row,
        0 <= x0 <= x1 <= w,
    ensures
        (idx(w, x0, row) <= idx(w, px, py) < idx(w, x1, row)) <==> (py == row && x0 <= px < x1),
{
    if py < row {
        assert(py * w + w <= row * w) by (nonlinear_arith)
            requires
                py < row,
                0 <= w,
        ;
    } else if py > row {
        assert(row * w + w <= py * w) by (nonlinear_arith)
            requires
                row < py,
                0 <= w,
        ;
    }
}

/// Clipping is exact: `clip_spec` gives `None` exactly when the rectangle and
/// the canvas share no pixel, and otherwise a rectangle inside the canvas that
/// holds precisely the shared pixels, so no larger one inside the canvas would do.
pub proof fn lemma_clip_correct(x: int, y: int, w: int, h: int, cw: int, ch: int)
    requires
        0 <= w,
        0 <= h,
        0 <= cw,
        0 <= ch,
    ensures
        clip_spec(x, y, w, h, cw, ch) is None <==> !(exists|px: int, py: int|
            #[trigger] in_rect(x, y, w, h, px, py) && in_rect(0, 0, cw, ch, px, py)),
        clip_spec(x, y, w, h, cw, ch) matches Some(r) ==> {
            &&& 0 <= r.0 && r.0 + r.2 <= cw
            &&& 0 <= r.1 && r.1 + r.3 <= ch
            &&& 0 < r.2 && 0 < r.3
            &&& forall|px: int, py: int|
                #[trigger] in_rect(r.0, r.1, r.2, r.3, px, py) <==> (in_rect(x, y, w, h, px, py)
                    && in_rect(0, 0, cw, ch, px, py))
        },
{
    match clip_spec(x, y, w, h, cw, ch) {
        Some(r) => {
            assert(in_rect(x, y, w, h, r.0, r.1) && in_rect(0, 0, cw, ch, r.0, r.1));
        },
        None => {
        },
    }
}

/// The opaque white tint leaves every color as it is, so a blit tinted with
/// `Color::from_rgb(255, 255, 255)` writes what an untinted blit writes.
pub proof fn lemma_white_tint_is_identity()
    ensures
        forall|c: Color|
            #[trigger] blit_color(c, Some(Color { r: 255, g: 255, b: 255, a: 255 })) == blit_color(
                c,
                None,
            ),
{
    assert forall|c: Color|
        #[trigger] blit_color(c, Some(Color { r: 255, g: 255, b: 255, a: 255 })) == blit_color(
            c,
            None,
        ) by {
        let white = Color { r: 255, g: 255, b: 255, a: 255 };
        assert(tinted(c, white) == c);
    }
}

/// A rectangular grid of pixels that can be drawn to.
///
/// A backend supplies the extents and the two primitives `get_range` and
/// `set_range`; every other operation is expressed in terms of them.
pub trait Canvas: Sized {
    /// The pixels, row by row.
    spec fn pixels(&self) -> Seq<Color>;

    /// The width in pixels.
    spec fn spec_width(&self) -> u32;

    /// The height in pixels.
    spec fn spec_height(&self) -> u32;

    /// The backend's invariant.
    spec fn wf(&self) -> bool;

    /// A well-formed canvas holds exactly width * height pixels, a number that fits in `usize`.
    proof fn lemma_wf(&self)
        requires
            self.wf(),
        ensures
            self.pixels().len() == self.spec_width() as int * self.spec_height() as int,
            self.pixels().len() <= usize::MAX,
    ;

    /// The width of the canvas in pixels.
    fn width(&self) -> (r: u32)
        ensures
            r == self.spec_width(),
    ;

    /// The height of the canvas in pixels.
    fn height(&self) -> (r: u32)
        ensures
            r == self.spec_height(),
    ;

    /// Overwrites the pixels of `range` with `color`.
    fn set_range(&mut self, range: Range<usize>, color: &[Color])
        requires
            old(self).wf(),
            range.start <= range.end <= old(self).pixels().len(),
            color@.len() == range.end - range.start,
        ensures
            final(self).wf(),
            final(self).spec_width() == old(self).spec_width(),
            final(self).spec_height() == old(self).spec_height(),
            final(self).pixels().len() == old(self).pixels().len(),
            forall|i: int|
                0 <= i < old(self).pixels().len() ==> #[trigger] final(self).pixels()[i] == if range.start
                    <= i < range.end {
                    color@[i - range.start]
                } else {
                    old(self).pixels()[i]
                },
    ;

    /// The pixels of `range`.
    fn get_range(&self, range: Range<usize>) -> (r: &[Color])
        requires
            self.wf(),
            range.start <= range.end <= self.pixels().len(),
        ensures
            r@ == self.pixels().subrange(range.start as int, range.end as int),
    ;

    /// The color of the pixel (x, y).
    fn get(&self, x: u32, y: u32) -> (r: &Color)
        requires
            self.wf(),
            x < self.spec_width(),
            y < self.spec_height(),
        ensures
            *r == self.pixels()[idx(self.spec_width() as int, x as int, y as int)],
    {
        proof {
            self.lemma_wf();
            lemma_idx_bounds(self.spec_width() as int, self.spec_height() as int, x as int, y as int);
        }
        let i: usize = y as usize * self.width() as usize + x as usize;
        let color_slice = self.get_range(i..i + 1);
        &color_slice[0]
    }

    /// The color of the pixel (x, y), or `None` when it lies outside the canvas.
    fn maybe_get(&self, x: i64, y: i64) -> (r: Option<&Color>)
        requires
            self.wf(),
        ensures
            match r {
                None => !(0 <= x < self.spec_width() && 0 <= y < self.spec_height()),
                Some(c) => 0 <= x < self.spec_width() && 0 <= y < self.spec_height() && *c
                    == self.pixels()[idx(self.spec_width() as int, x as int, y as int)],
            },
    {
        if x < 0 || y < 0 || x >= self.width() as i64 || y >= self.height() as i64 {
            None
        } else {
            Some(self.get(x as u32, y as u32))
        }
    }

    /// Whether (x, y) lies outside the canvas or holds `color`; a simple
    /// collision test against a known background.
    fn is_empty_or_color(&self, x: i64, y: i64, color: &Color) -> (r: bool)
        requires
            self.wf(),
        ensures
            r == (!(0 <= x < self.spec_width() && 0 <= y < self.spec_height()) || self.pixels()[idx(
                self.spec_width() as int,
                x as int,
                y as int,
            )] == *color),
    {
        match self.maybe_get(x, y) {
            Some(c) => *c == *color,
            None => true,
        }
    }

    /// Sets the pixel (x, y) to `color`; does nothing when (x, y) lies
    /// outside the canvas.
    fn set(&mut self, x: u32, y: u32, color: &Color)
        requires
            old(self).wf(),
        ensures
            final(self).wf(),
            final(self).spec_width() == old(self).spec_width(),
            final(self).spec_height() == old(self).spec_height(),
            final(self).pixels() == if x < old(self).spec_width() && y < old(self).spec_height() {
                old(self).pixels().update(idx(old(self).spec_width() as int, x as int, y as int), *color)
            } else {
                old(self).pixels()
            },
    {
        if x >= self.width() || y >= self.height() {
            return;
        }
        proof {
            self.lemma_wf();
            lemma_idx_bounds(self.spec_width() as int, self.spec_height() as int, x as int, y as int);
        }
        let i: usize = y as usize * self.width() as usize + x as usize;
        let one = vec![*color];
        self.set_range(i..i + 1, one.as_slice());
        assert(self.pixels() =~= old(self).pixels().update(i as int, *color));
    }

    /// The visible part of the rectangle (x, y, width, height), in canvas
    /// coordinates, or `None` when none of it is visible.
    fn clip_rect(&self, x: i64, y: i64, width: u32, height: u32) -> (r: Option<(u32, u32, u32, u32)>)
        ensures
            match r {
                None => clip_spec(
                    x as int,
                    y as int,
                    width as int,
                    height as int,
                    self.spec_width() as int,
                    self.spec_height() as int,
                ) is None,
                Some(t) => clip_spec(
                    x as int,
                    y as int,
                    width as int,
                    height as int,
                    self.spec_width() as int,
                    self.spec_height() as int,
                ) == Some((t.0 as int, t.1 as int, t.2 as int, t.3 as int)),
            },
    {
        let cw = self.width() as i64;
        let ch = self.height() as i64;
        let x0: i64 = if x < 0 { 0 } else { x };
        let y0: i64 = if y < 0 { 0 } else { y };
        let x1: i64 = if x < cw - width as i64 { x + width as i64 } else { cw };
        let y1: i64 = if y < ch - height as i64 { y + height as i64 } else { ch };
        if x0 < x1 && y0 < y1 {
            Some((x0 as u32, y0 as u32, (x1 - x0) as u32, (y1 - y0) as u32))
        } else {
            None
        }
    }

    /// Fills the whole canvas with `color`.
    fn clear_screen(&mut self, color: &Color)
        requires
            old(self).wf(),
        ensures
            final(self).wf(),
            final(self).spec_width() == old(self).spec_width(),
            final(self).spec_height() == old(self).spec_height(),
            final(self).pixels().len() == old(self).pixels().len(),
            forall|i: int| 0 <= i < final(self).pixels().len() ==> #[trigger] final(self).pixels()[i] == *color,
    {
        proof {
            self.lemma_wf();
        }
        let w = self.width();
        let h = self.height();
        self.filled_rect(0, 0, w, h, color);
        proof {
            let dw = self.spec_width() as int;
            let dh = self.spec_height() as int;
            assert forall|i: int| 0 <= i < self.pixels().len() implies #[trigger] self.pixels()[i] == *color by {
                let px = i % dw;
                let py = i / dw;
                vstd::arithmetic::div_mod::lemma_fundamental_div_mod(i, dw);
                vstd::arithmetic::div_mod::lemma_div_pos_is_pos(i, dw);
                assert(py < dh) by {
                    vstd::arithmetic::div_mod::lemma_div_is_ordered(i, dw * dh, dw);
                    vstd::arithmetic::div_mod::lemma_div_multiples_vanish(dh, dw);
                    if py == dh {
                        assert(i == dw * py + px);
                        assert(dw * dh <= i) by (nonlinear_arith)
                            requires
                                i == dw * py + px,
                                py == dh,
                                0 <= px,
                        ;
                    }
                };
                assert(idx(dw, px, py) == i) by (nonlinear_arith)
                    requires
                        i == dw * py + px,
                ;
            }
        }
    }

    /// Fills the visible part of the rectangle (sx, sy, width, height) with
    /// `color`, one row at a time.
    fn filled_rect(&mut self, sx: i64, sy: i64, width: u32, height: u32, color: &Color)
        requires
            old(self).wf(),
        ensures
            final(self).wf(),
            final(self).spec_width() == old(self).spec_width(),
            final(self).spec_height() == old(self).spec_height(),
            final(self).pixels().len() == old(self).pixels().len(),
            forall|px: int, py: int|
                0 <= px < old(self).spec_width() && 0 <= py < old(self).spec_height()
                    ==> #[trigger] final(self).pixels()[idx(old(self).spec_width() as int, px, py)]
                    == if in_rect(sx as int, sy as int, width as int, height as int, px, py) {
                    *color
                } else {
                    old(self).pixels()[idx(old(self).spec_width() as int, px, py)]
                },
    {
        let ghost old_pixels = self.pixels();
        let ghost dw = self.spec_width() as int;
        let ghost dh = self.spec_height() as int;
        proof {
            self.lemma_wf();
        }
        if let Some((nx, ny, nw, nh)) = self.clip_rect(sx, sy, width, height) {
            let self_width = self.width();
            let mut color_row: Vec<Color> = Vec::new();
            let mut k: u32 = 0;
            while k < nw
                invariant
                    k <= nw,
                    color_row@.len() == k,
                    forall|j: int| 0 <= j < k ==> #[trigger] color_row@[j] == *color,
                decreases nw - k,
            {
                color_row.push(*color);
                k = k + 1;
            }
            let mut y: u32 = 0;
            while y < nh
                invariant
                    self.wf(),
                    self.spec_width() == dw,
                    self.spec_height() == dh,
                    self.pixels().len() == old_pixels.len(),
                    old_pixels.len() == dw * dh,
                    old_pixels.len() <= usize::MAX,
                    self_width == dw,
                    color_row@.len() == nw,
                    forall|j: int| 0 <= j < nw ==> #[trigger] color_row@[j] == *color,
                    clip_spec(
                        sx as int,
                        sy as int,
                        width as int,
                        height as int,
                        dw,
                        dh,
                    ) == Some((nx as int, ny as int, nw as int, nh as int)),
                    y <= nh,
                    forall|px: int, py: int|
                        0 <= px < dw && 0 <= py < dh ==> #[trigger] self.pixels()[idx(dw, px, py)]
                            == if in_rect(nx as int, ny as int, nw as int, y as int, px, py) {
                            *color
                        } else {
                            old_pixels[idx(dw, px, py)]
                        },
                decreases nh - y,
            {
                let row_y = ny + y;
                proof {
                    lemma_idx_bounds(dw, dh, nx as int, row_y as int);
                }
                let start: usize = row_y as usize * self_width as usize + nx as usize;
                let end: usize = start + nw as usize;
                self.set_range(start..end, color_row.as_slice());
                proof {
                    assert forall|px: int, py: int|
                        0 <= px < dw && 0 <= py < dh implies #[trigger] self.pixels()[idx(dw, px, py)]
                            == if in_rect(nx as int, ny as int, nw as int, y + 1, px, py) {
                            *color
                        } else {
                            old_pixels[idx(dw, px, py)]
                        } by {
                        lemma_idx_bounds(dw, dh, px, py);
                        lemma_idx_row(dw, px, py, row_y as int, nx as int, nx + nw);
                    }
                }
                y = y + 1;
            }
        }
    }
}

/// Copying between canvases, available on every canvas.
pub trait Blit: Canvas {
    /// Copies the whole of `src_canvas` to (dst_x, dst_y), scaling each channel
    /// by the tint's when one is given. Only the visible part is written.
    fn blit<C: Canvas>(&mut self, src_canvas: &C, dst_x: i64, dst_y: i64, tint: Option<&Color>)
        requires
            old(self).wf(),
            src_canvas.wf(),
        ensures
            final(self).wf(),
            final(self).spec_width() == old(self).spec_width(),
            final(self).spec_height() == old(self).spec_height(),
            final(self).pixels().len() == old(self).pixels().len(),
            forall|px: int, py: int|
                0 <= px < old(self).spec_width() && 0 <= py < old(self).spec_height()
                    ==> #[trigger] final(self).pixels()[idx(old(self).spec_width() as int, px, py)]
                    == if in_rect(
                    dst_x as int,
                    dst_y as int,
                    src_canvas.spec_width() as int,
                    src_canvas.spec_height() as int,
                    px,
                    py,
                ) {
                    blit_color(
                        src_canvas.pixels()[idx(
                            src_canvas.spec_width() as int,
                            px - dst_x,
                            py - dst_y,
                        )],
                        match tint {
                            Some(t) => Some(*t),
                            None => None,
                        },
                    )
                } else {
                    old(self).pixels()[idx(old(self).spec_width() as int, px, py)]
                },
    {
        let w = src_canvas.width();
        let h = src_canvas.height();
        self.blit_rect(src_canvas, 0, 0, w, h, dst_x, dst_y, tint)
    }

    /// Copies the region (src_x, src_y, width, height) of `src_canvas` to
    /// (dst_x, dst_y), scaling each channel by the tint's when one is given.
    /// The destination is clipped to this canvas; the region must lie inside
    /// the source.
    fn blit_rect<C: Canvas>(
        &mut self,
        src_canvas: &C,
        src_x: u32,
        src_y: u32,
        width: u32,
        height: u32,
        dst_x: i64,
        dst_y: i64,
        tint: Option<&Color>,
    )
        requires
            old(self).wf(),
            src_canvas.wf(),
            src_x + width <= src_canvas.spec_width(),
            src_y + height <= src_canvas.spec_height(),
        ensures
            final(self).wf(),
            final(self).spec_width() == old(self).spec_width(),
            final(self).spec_height() == old(self).spec_height(),
            final(self).pixels().len() == old(self).pixels().len(),
            forall|px: int, py: int|
                0 <= px < old(self).spec_width() && 0 <= py < old(self).spec_height()
                    ==> #[trigger] final(self).pixels()[idx(old(self).spec_width() as int, px, py)]
                    == if in_rect(dst_x as int, dst_y as int, width as int, height as int, px, py) {
                    blit_color(
                        src_canvas.pixels()[idx(
                            src_canvas.spec_width() as int,
                            src_x + px - dst_x,
                            src_y + py - dst_y,
                        )],
                        match tint {
                            Some(t) => Some(*t),
                            None => None,
                        },
                    )
                } else {
                    old(self).pixels()[idx(old(self).spec_width() as int, px, py)]
                },
    {
        let ghost old_pixels = self.pixels();
        let ghost dw = self.spec_width() as int;
        let ghost dh = self.spec_height() as int;
        let ghost sw = src_canvas.spec_width() as int;
        let ghost tint_v: Option<Color> = match tint {
            Some(t) => Some(*t),
            None => None,
        };
        proof {
            self.lemma_wf();
            src_canvas.lemma_wf();
        }
        if let Some((nx, ny, nw, nh)) = self.clip_rect(dst_x, dst_y, width, height) {
            let self_width = self.width();
            let src_width = src_canvas.width();
            // offset of the visible part inside the requested region
            let off_x: u32 = (nx as i64 - dst_x) as u32;
            let off_y: u32 = (ny as i64 - dst_y) as u32;
            let mut y: u32 = 0;
            while y < nh
                invariant
                    self.wf(),
                    self.spec_width() == dw,
                    self.spec_height() == dh,
                    self.pixels().len() == old_pixels.len(),
                    old_pixels.len() == dw * dh,
                    old_pixels.len() <= usize::MAX,
                    src_canvas.wf(),
                    src_canvas.pixels().len() == sw * src_canvas.spec_height(),
                    src_canvas.pixels().len() <= usize::MAX,
                    self_width == dw,
                    src_width == sw,
                    clip_spec(
                        dst_x as int,
                        dst_y as int,
                        width as int,
                        height as int,
                        dw,
                        dh,
                    ) == Some((nx as int, ny as int, nw as int, nh as int)),
                    off_x == nx - dst_x,
                    off_y == ny - dst_y,
                    tint_v == match tint {
                        Some(t) => Some(*t),
                        None => None,
                    },
                    src_x + width <= sw,
                    src_y + height <= src_canvas.spec_height(),
                    y <= nh,
                    forall|px: int, py: int|
                        0 <= px < dw && 0 <= py < dh ==> #[trigger] self.pixels()[idx(dw, px, py)]
                            == if in_rect(nx as int, ny as int, nw as int, y as int, px, py) {
                            blit_color(
                                src_canvas.pixels()[idx(sw, src_x + px - dst_x, src_y + py - dst_y)],
                                tint_v,
                            )
                        } else {
                            old_pixels[idx(dw, px, py)]
                        },
                decreases nh - y,
            {
                let ghost before = self.pixels();
                let row_y = ny + y;
                let sy = src_y + off_y + y;
                proof {
                    lemma_idx_bounds(dw, dh, nx as int, row_y as int);
                    lemma_idx_bounds(sw, src_canvas.spec_height() as int, (src_x + off_x) as int, sy as int);
                }
                let src_start: usize = sy as usize * src_width as usize + (src_x + off_x) as usize;
                let src_end: usize = src_start + nw as usize;
                let dst_start: usize = row_y as usize * self_width as usize + nx as usize;
                let dst_end: usize = dst_start + nw as usize;
                let row = src_canvas.get_range(src_start..src_end);
                let mut out: Vec<Color> = Vec::new();
                let mut k: usize = 0;
                while k < row.len()
                    invariant
                        k <= row@.len(),
                        out@.len() == k,
                        tint_v == match tint {
                            Some(t) => Some(*t),
                            None => None,
                        },
                        forall|j: int| 0 <= j < k ==> #[trigger] out@[j] == blit_color(row@[j], tint_v),
                    decreases row@.len() - k,
                {
                    let c = match tint {
                        Some(t) => row[k].tint(t),
                        None => row[k],
                    };
                    out.push(c);
                    k = k + 1;
                }
                self.set_range(dst_start..dst_end, out.as_slice());
                proof {
                    assert forall|px: int, py: int|
                        0 <= px < dw && 0 <= py < dh implies #[trigger] self.pixels()[idx(dw, px, py)]
                            == if in_rect(nx as int, ny as int, nw as int, y + 1, px, py) {
                            blit_color(
                                src_canvas.pixels()[idx(sw, src_x + px - dst_x, src_y + py - dst_y)],
                                tint_v,
                            )
                        } else {
                            old_pixels[idx(dw, px, py)]
                        } by {
                        lemma_idx_bounds(dw, dh, px, py);
                        lemma_idx_row(dw, px, py, row_y as int, nx as int, nx + nw);
                        if py == row_y && nx <= px < nx + nw {
                            let k = px - nx;
                            assert(idx(dw, px, py) - dst_start == k);
                            assert(src_start + k == idx(sw, src_x + px - dst_x, src_y + py - dst_y));
                            assert(row@[k] == src_canvas.pixels()[src_start + k]);
                            assert(self.pixels()[idx(dw, px, py)] == out@[k]);
                        }
                    }
                }
                y = y + 1;
            }
        }
    }
}

impl<T: Canvas> Blit for T {
}

} // verus!
