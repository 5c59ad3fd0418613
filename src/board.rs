//! A board of falling tetrominoes drawn with one pixel per block: each
//! piece falls one pixel per update until something is below it or it
//! reaches the stop row.
use vstd::prelude::*;

use crate::canvas::{idx, in_rect, Canvas};
use crate::color::Color;
use crate::tetromino::{Rotation, Shape};

verus! {

/// A falling piece; (x, y) is the lower left corner of its lowest filled pixel row.
#[derive(Debug, Clone, Copy, PartialEq, Eq, Structural)]
pub struct Tetromino {
    pub shape: Shape,
    pub rotation: Rotation,
    pub x: i64,
    pub y: i64,
    pub color: Color,
    pub stopped: bool,
}

/// The pixels, relative to a piece's position, that must be free for it to fall.
pub open spec fn collision_points(shape: Shape, rotation: Rotation) -> Seq<(int, int)> {
    match (shape, rotation) {
        (Shape::L, Rotation::NoRotation) => seq![(0, 0), (1, -1), (2, -1)],
        (Shape::L, Rotation::Degrees90) => seq![(0, 0), (-1, -2)],
        (Shape::L, Rotation::Degrees180) => seq![(0, 0), (1, 0), (2, 0)],
        (Shape::L, Rotation::Degrees270) => seq![(0, 0), (1, 0)],
        (Shape::Square, _) => seq![(0, 0), (1, 0)],
        (Shape::T, Rotation::NoRotation) => seq![(0, 0), (1, -1), (-1, -1)],
        (Shape::T, Rotation::Degrees90) => seq![(0, 0), (-1, -1)],
        (Shape::T, Rotation::Degrees180) => seq![(0, 0), (1, 0), (2, 0)],
        (Shape::T, Rotation::Degrees270) => seq![(0, 0), (1, -1)],
        (Shape::Straight, Rotation::NoRotation) | (Shape::Straight, Rotation::Degrees180) => seq![(0, 0), (1, 0), (2, 0), (3, 0)],
        (Shape::Straight, Rotation::Degrees90) | (Shape::Straight, Rotation::Degrees270) => seq![(0, 0)],
        (Shape::Skew, Rotation::NoRotation) | (Shape::Skew, Rotation::Degrees180) => seq![(0, 0), (1, 0), (2, -1)],
        (Shape::Skew, Rotation::Degrees90) | (Shape::Skew, Rotation::Degrees270) => seq![(0, 0), (-1, -1)],
    }
}

/// The rectangles (dx, dy, width, height), relative to a piece's position, that draw it.
pub open spec fn shape_rects(shape: Shape, rotation: Rotation) -> Seq<(int, int, int, int)> {
    match (shape, rotation) {
        (Shape::L, Rotation::NoRotation) => seq![(0, -2, 1, 2), (1, -2, 2, 1)],
        (Shape::L, Rotation::Degrees90) => seq![(0, -3, 1, 3), (-1, -3, 1, 1)],
        (Shape::L, Rotation::Degrees180) => seq![(0, -1, 3, 1), (2, -2, 1, 1)],
        (Shape::L, Rotation::Degrees270) => seq![(0, -3, 1, 3), (1, -1, 1, 1)],
        (Shape::Square, _) => seq![(0, -2, 2, 2)],
        (Shape::T, Rotation::NoRotation) => seq![(-1, -2, 3, 1), (0, -1, 1, 1)],
        (Shape::T, Rotation::Degrees90) => seq![(0, -3, 1, 3), (-1, -2, 1, 1)],
        (Shape::T, Rotation::Degrees180) => seq![(0, -1, 3, 1), (1, -2, 1, 1)],
        (Shape::T, Rotation::Degrees270) => seq![(0, -3, 1, 3), (1, -2, 1, 1)],
        (Shape::Straight, Rotation::NoRotation) | (Shape::Straight, Rotation::Degrees180) => seq![(0, -1, 4, 1)],
        (Shape::Straight, Rotation::Degrees90) | (Shape::Straight, Rotation::Degrees270) => seq![(0, -4, 1, 4)],
        (Shape::Skew, Rotation::NoRotation) | (Shape::Skew, Rotation::Degrees180) => seq![(0, -1, 2, 1), (1, -2, 2, 1)],
        (Shape::Skew, Rotation::Degrees90) | (Shape::Skew, Rotation::Degrees270) => seq![(0, -2, 1, 2), (-1, -3, 1, 2)],
    }
}

/// Whether (px, py) is a pixel of `canvas` that is not black.
pub open spec fn occupied<C: Canvas>(canvas: C, px: int, py: int) -> bool {
    &&& 0 <= px < canvas.spec_width()
    &&& 0 <= py < canvas.spec_height()
    &&& canvas.pixels()[idx(canvas.spec_width() as int, px, py)] != Color { r: 0, g: 0, b: 0, a: 255 }
}

/// Whether something on `canvas` is in the way of `t`.
pub open spec fn collides<C: Canvas>(t: Tetromino, canvas: C) -> bool {
    let pts = collision_points(t.shape, t.rotation);
    exists|i: int| 0 <= i < pts.len() && #[trigger] occupied(canvas, t.x + pts[i].0, t.y + pts[i].1)
}

/// Coordinates far enough from the limits of `i64` for a piece's pixels.
pub open spec fn coords_in_range(x: int, y: int) -> bool {
    -0x4000_0000_0000_0000 <= x <= 0x4000_0000_0000_0000 && -0x4000_0000_0000_0000 <= y
        <= 0x4000_0000_0000_0000
}

fn collision_points_of(shape: Shape, rotation: Rotation) -> (r: Vec<(i8, i8)>)
    ensures
        r@.len() == collision_points(shape, rotation).len(),
        forall|i: int|
            0 <= i < r@.len() ==> #[trigger] r@[i].0 == collision_points(shape, rotation)[i].0
                && r@[i].1 == collision_points(shape, rotation)[i].1,
{
    let r: Vec<(i8, i8)> = match (shape, rotation) {
            (Shape::L, Rotation::NoRotation) => vec![(0, 0), (1, -1), (2, -1)],
            (Shape::L, Rotation::Degrees90) => vec![(0, 0), (-1, -2)],
            (Shape::L, Rotation::Degrees180) => vec![(0, 0), (1, 0), (2, 0)],
            (Shape::L, Rotation::Degrees270) => vec![(0, 0), (1, 0)],
            (Shape::Square, _) => vec![(0, 0), (1, 0)],
            (Shape::T, Rotation::NoRotation) => vec![(0, 0), (1, -1), (-1, -1)],
            (Shape::T, Rotation::Degrees90) => vec![(0, 0), (-1, -1)],
            (Shape::T, Rotation::Degrees180) => vec![(0, 0), (1, 0), (2, 0)],
            (Shape::T, Rotation::Degrees270) => vec![(0, 0), (1, -1)],
            (Shape::Straight, Rotation::NoRotation) | (Shape::Straight, Rotation::Degrees180) => vec![(0, 0), (1, 0), (2, 0), (3, 0)],
            (Shape::Straight, Rotation::Degrees90) | (Shape::Straight, Rotation::Degrees270) => vec![(0, 0)],
            (Shape::Skew, Rotation::NoRotation) | (Shape::Skew, Rotation::Degrees180) => vec![(0, 0), (1, 0), (2, -1)],
            (Shape::Skew, Rotation::Degrees90) | (Shape::Skew, Rotation::Degrees270) => vec![(0, 0), (-1, -1)],
    };
    proof {
        let s = collision_points(shape, rotation);
        assert(r@.len() == s.len());
        assert forall|i: int| 0 <= i < r@.len() implies #[trigger] r@[i].0 == s[i].0 && r@[i].1
            == s[i].1 by {}
    }
    r
}

fn shape_rects_of(shape: Shape, rotation: Rotation) -> (r: Vec<(i8, i8, u8, u8)>)
    ensures
        r@.len() == shape_rects(shape, rotation).len(),
        forall|i: int|
            0 <= i < r@.len() ==> {
                let s = #[trigger] shape_rects(shape, rotation)[i];
                r@[i].0 == s.0 && r@[i].1 == s.1 && r@[i].2 == s.2 && r@[i].3 == s.3
            },
{
    let r: Vec<(i8, i8, u8, u8)> = match (shape, rotation) {
            (Shape::L, Rotation::NoRotation) => vec![(0, -2, 1, 2), (1, -2, 2, 1)],
            (Shape::L, Rotation::Degrees90) => vec![(0, -3, 1, 3), (-1, -3, 1, 1)],
            (Shape::L, Rotation::Degrees180) => vec![(0, -1, 3, 1), (2, -2, 1, 1)],
            (Shape::L, Rotation::Degrees270) => vec![(0, -3, 1, 3), (1, -1, 1, 1)],
            (Shape::Square, _) => vec![(0, -2, 2, 2)],
            (Shape::T, Rotation::NoRotation) => vec![(-1, -2, 3, 1), (0, -1, 1, 1)],
            (Shape::T, Rotation::Degrees90) => vec![(0, -3, 1, 3), (-1, -2, 1, 1)],
            (Shape::T, Rotation::Degrees180) => vec![(0, -1, 3, 1), (1, -2, 1, 1)],
            (Shape::T, Rotation::Degrees270) => vec![(0, -3, 1, 3), (1, -2, 1, 1)],
            (Shape::Straight, Rotation::NoRotation) | (Shape::Straight, Rotation::Degrees180) => vec![(0, -1, 4, 1)],
            (Shape::Straight, Rotation::Degrees90) | (Shape::Straight, Rotation::Degrees270) => vec![(0, -4, 1, 4)],
            (Shape::Skew, Rotation::NoRotation) | (Shape::Skew, Rotation::Degrees180) => vec![(0, -1, 2, 1), (1, -2, 2, 1)],
            (Shape::Skew, Rotation::Degrees90) | (Shape::Skew, Rotation::Degrees270) => vec![(0, -2, 1, 2), (-1, -3, 1, 2)],
    };
    proof {
        let s = shape_rects(shape, rotation);
        assert(r@.len() == s.len());
        assert forall|i: int| 0 <= i < r@.len() implies {
            let t = #[trigger] shape_rects(shape, rotation)[i];
            r@[i].0 == t.0 && r@[i].1 == t.1 && r@[i].2 == t.2 && r@[i].3 == t.3
        } by {}
    }
    r
}

/// Whether anything on `canvas` is in the way of `tetromino` falling.
pub fn would_tetromino_collide_with_canvas<C: Canvas>(tetromino: &Tetromino, canvas: &C) -> (r: bool)
    requires
        canvas.wf(),
        coords_in_range(tetromino.x as int, tetromino.y as int),
    ensures
        r == collides(*tetromino, *canvas),
{
    let empty = Color::from_rgb(0, 0, 0);
    let points = collision_points_of(tetromino.shape, tetromino.rotation);
    let ghost pts = collision_points(tetromino.shape, tetromino.rotation);
    let mut found = false;
    let mut i: usize = 0;
    while i < points.len()
        invariant
            canvas.wf(),
            coords_in_range(tetromino.x as int, tetromino.y as int),
            i <= points@.len(),
            points@.len() == pts.len(),
            pts == collision_points(tetromino.shape, tetromino.rotation),
            forall|j: int|
                0 <= j < points@.len() ==> #[trigger] points@[j].0 == pts[j].0 && points@[j].1
                    == pts[j].1,
            empty == (Color { r: 0, g: 0, b: 0, a: 255 }),
            found == exists|j: int|
                0 <= j < i && #[trigger] occupied(*canvas, tetromino.x + pts[j].0, tetromino.y + pts[j].1),
        decreases points@.len() - i,
    {
        let (dx, dy) = points[i];
        let free = canvas.is_empty_or_color(tetromino.x + dx as i64, tetromino.y + dy as i64, &empty);
        proof {
            if !free {
                assert(occupied(*canvas, tetromino.x + pts[i as int].0, tetromino.y + pts[i as int].1));
            }
        }
        found = found || !free;
        i = i + 1;
    }
    found
}

/// `rects` at a piece's position `(x, y)`, in its color.
pub open spec fn placed_rects(t: Tetromino) -> Seq<(int, int, int, int, Color)> {
    shape_rects(t.shape, t.rotation).map_values(
        |r: (int, int, int, int)| (t.x + r.0, t.y + r.1, r.2, r.3, t.color),
    )
}

/// The rectangles that draw `tets`, piece after piece.
pub open spec fn board_rects(tets: Seq<Tetromino>) -> Seq<(int, int, int, int, Color)>
    decreases tets.len(),
{
    if tets.len() == 0 {
        Seq::empty()
    } else {
        board_rects(tets.drop_last()) + placed_rects(tets.last())
    }
}

/// The color at (px, py), which held `old`, after filling `rects` in order.
pub open spec fn painted(rects: Seq<(int, int, int, int, Color)>, old: Color, px: int, py: int) -> Color
    decreases rects.len(),
{
    if rects.len() == 0 {
        old
    } else {
        let r = rects.last();
        if in_rect(r.0, r.1, r.2, r.3, px, py) {
            r.4
        } else {
            painted(rects.drop_last(), old, px, py)
        }
    }
}

/// `t` after one update: it falls a pixel unless it is stopped or something
/// is in its way, and it stops on reaching row `stop`.
pub open spec fn fallen<C: Canvas>(t: Tetromino, canvas: C, stop: i64) -> Tetromino {
    let y = if !t.stopped && !collides(t, canvas) {
        t.y + 1
    } else {
        t.y as int
    };
    Tetromino { y: y as i64, stopped: t.stopped || y == stop, ..t }
}

/// The falling pieces and the row at which they stop.
pub struct Board {
    tetrominos: Vec<Tetromino>,
    virtual_y_stop: i64,
}

impl Board {
    /// The pieces, in the order they were added.
    pub closed spec fn pieces(&self) -> Seq<Tetromino> {
        self.tetrominos@
    }

    /// The row at which pieces stop.
    pub closed spec fn stop_row(&self) -> i64 {
        self.virtual_y_stop
    }

    /// An empty board whose pieces stop at row 40.
    pub fn new() -> (r: Self)
        ensures
            r.pieces().len() == 0,
            r.stop_row() == 40,
    {
        Board { tetrominos: Vec::new(), virtual_y_stop: 40 }
    }

    /// Adds a falling piece.
    pub fn add_tetromino(&mut self, x: i64, y: i64, color: Color, shape: Shape, rotation: Rotation)
        ensures
            final(self).pieces() == old(self).pieces().push(
                Tetromino { x, y, color, shape, rotation, stopped: false },
            ),
            final(self).stop_row() == old(self).stop_row(),
    {
        self.tetrominos.push(Tetromino { x, y, color, shape, rotation, stopped: false });
    }

    /// Draws every piece, in the order they were added.
    pub fn render<C: Canvas>(&self, canvas: &mut C)
        requires
            old(canvas).wf(),
            forall|i: int|
                0 <= i < self.pieces().len() ==> coords_in_range(
                    #[trigger] self.pieces()[i].x as int,
                    self.pieces()[i].y as int,
                ),
        ensures
            final(canvas).wf(),
            final(canvas).spec_width() == old(canvas).spec_width(),
            final(canvas).spec_height() == old(canvas).spec_height(),
            final(canvas).pixels().len() == old(canvas).pixels().len(),
            forall|px: int, py: int|
                0 <= px < old(canvas).spec_width() && 0 <= py < old(canvas).spec_height()
                    ==> #[trigger] final(canvas).pixels()[idx(old(canvas).spec_width() as int, px, py)]
                    == painted(
                    board_rects(self.pieces()),
                    old(canvas).pixels()[idx(old(canvas).spec_width() as int, px, py)],
                    px,
                    py,
                ),
    {
        let ghost w = canvas.spec_width() as int;
        let ghost h = canvas.spec_height() as int;
        let ghost old_pixels = canvas.pixels();
        let ghost tets = self.tetrominos@;
        let mut k: usize = 0;
        while k < self.tetrominos.len()
            invariant
                canvas.wf(),
                canvas.spec_width() == w,
                canvas.spec_height() == h,
                canvas.pixels().len() == old_pixels.len(),
                tets == self.tetrominos@,
                k <= tets.len(),
                forall|i: int|
                    0 <= i < self.pieces().len() ==> coords_in_range(
                        #[trigger] self.pieces()[i].x as int,
                        self.pieces()[i].y as int,
                    ),
                forall|px: int, py: int|
                    0 <= px < w && 0 <= py < h ==> #[trigger] canvas.pixels()[idx(w, px, py)] == painted(
                        board_rects(tets.take(k as int)),
                        old_pixels[idx(w, px, py)],
                        px,
                        py,
                    ),
            decreases tets.len() - k,
        {
            let t = self.tetrominos[k];
            assert(coords_in_range(self.pieces()[k as int].x as int, self.pieces()[k as int].y as int));
            let rects = shape_rects_of(t.shape, t.rotation);
            let ghost placed = placed_rects(t);
            let ghost before = board_rects(tets.take(k as int));
            proof {
                assert(tets.take(k + 1).drop_last() =~= tets.take(k as int));
                assert(tets.take(k + 1).last() == t);
            }
            let mut j: usize = 0;
            while j < rects.len()
                invariant
                    canvas.wf(),
                    canvas.spec_width() == w,
                    canvas.spec_height() == h,
                    canvas.pixels().len() == old_pixels.len(),
                    coords_in_range(t.x as int, t.y as int),
                    j <= rects@.len(),
                    placed == placed_rects(t),
                    rects@.len() == placed.len(),
                    forall|i: int|
                        0 <= i < rects@.len() ==> {
                            let s = #[trigger] shape_rects(t.shape, t.rotation)[i];
                            rects@[i].0 == s.0 && rects@[i].1 == s.1 && rects@[i].2 == s.2
                                && rects@[i].3 == s.3
                        },
                    forall|px: int, py: int|
                        0 <= px < w && 0 <= py < h ==> #[trigger] canvas.pixels()[idx(w, px, py)]
                            == painted(before + placed.take(j as int), old_pixels[idx(w, px, py)], px, py),
                decreases rects@.len() - j,
            {
                let (dx, dy, rw, rh) = rects[j];
                canvas.filled_rect(t.x + dx as i64, t.y + dy as i64, rw as u32, rh as u32, &t.color);
                proof {
                    let s = shape_rects(t.shape, t.rotation)[j as int];
                    assert(placed[j as int] == (t.x + s.0, t.y + s.1, s.2, s.3, t.color));
                    assert((before + placed.take(j + 1)).drop_last() =~= before + placed.take(j as int));
                    assert((before + placed.take(j + 1)).last() == placed[j as int]);
                }
                j = j + 1;
            }
            proof {
                assert(placed.take(j as int) =~= placed);
            }
            k = k + 1;
        }
        proof {
            assert(tets.take(k as int) =~= tets);
        }
    }

    /// Lets every piece fall by one update against what `canvas` shows.
    pub fn update<C: Canvas>(&mut self, canvas: &C)
        requires
            canvas.wf(),
            forall|i: int|
                0 <= i < old(self).pieces().len() ==> coords_in_range(
                    #[trigger] old(self).pieces()[i].x as int,
                    old(self).pieces()[i].y as int,
                ),
        ensures
            final(self).stop_row() == old(self).stop_row(),
            final(self).pieces().len() == old(self).pieces().len(),
            forall|i: int|
                0 <= i < old(self).pieces().len() ==> #[trigger] final(self).pieces()[i] == fallen(
                    old(self).pieces()[i],
                    *canvas,
                    old(self).stop_row(),
                ),
    {
        let mut i: usize = 0;
        while i < self.tetrominos.len()
            invariant
                canvas.wf(),
                self.virtual_y_stop == old(self).virtual_y_stop,
                self.tetrominos@.len() == old(self).tetrominos@.len(),
                i <= self.tetrominos@.len(),
                forall|j: int|
                    0 <= j < self.tetrominos@.len() ==> #[trigger] self.tetrominos@[j] == if j < i {
                        fallen(old(self).tetrominos@[j], *canvas, old(self).virtual_y_stop)
                    } else {
                        old(self).tetrominos@[j]
                    },
                forall|j: int|
                    0 <= j < old(self).tetrominos@.len() ==> coords_in_range(
                        #[trigger] old(self).tetrominos@[j].x as int,
                        old(self).tetrominos@[j].y as int,
                    ),
            decreases self.tetrominos@.len() - i,
        {
            let mut t = self.tetrominos[i];
            if !t.stopped && !would_tetromino_collide_with_canvas(&t, canvas) {
                t.y = t.y + 1;
            }
            if t.y == self.virtual_y_stop {
                t.stopped = true;
            }
            self.tetrominos.set(i, t);
            i = i + 1;
        }
    }
}

} // verus!
