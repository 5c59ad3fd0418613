//! The game objects of a small breakout game on a 100 by 100 playfield: a
//! paddle, a ball, and bricks.
use vstd::prelude::*;

use crate::canvas::{idx, in_rect, Canvas};
use crate::color::Color;

verus! {

/// The width of the playfield in pixels.
pub const PLAYFIELD_WIDTH: usize = 100;

/// The height of the playfield in pixels.
pub const PLAYFIELD_HEIGHT: usize = 100;

/// `n / d` rounded to the nearest integer, halves away from zero.
pub open spec fn round_div(n: int, d: int) -> int {
    if n >= 0 {
        (2 * n + d) / (2 * d)
    } else {
        -((2 * -n + d) / (2 * d))
    }
}

/// `v` limited to [lo, hi].
pub open spec fn clamp(v: int, lo: int, hi: int) -> int {
    if v < lo {
        lo
    } else if v > hi {
        hi
    } else {
        v
    }
}

/// Whether `canvas2` is `canvas1` with the rectangle (x, y, w, h) filled
/// with `color`, clipped to the canvas.
pub open spec fn drawn_rect<C: Canvas>(
    canvas1: C,
    canvas2: C,
    x: int,
    y: int,
    w: int,
    h: int,
    color: Color,
) -> bool {
    &&& canvas2.wf()
    &&& canvas2.spec_width() == canvas1.spec_width()
    &&& canvas2.spec_height() == canvas1.spec_height()
    &&& canvas2.pixels().len() == canvas1.pixels().len()
    &&& forall|px: int, py: int|
        0 <= px < canvas1.spec_width() && 0 <= py < canvas1.spec_height() ==> #[trigger] canvas2.pixels()[idx(
            canvas1.spec_width() as int,
            px,
            py,
        )] == if in_rect(x, y, w, h, px, py) {
            color
        } else {
            canvas1.pixels()[idx(canvas1.spec_width() as int, px, py)]
        }
}

/// The paddle at the bottom of the playfield.
pub struct Paddle {
    pub position: (usize, usize),
    pub dimensions: (usize, usize),
    pub color: Color,
}

impl Paddle {
    /// A paddle of the given size, centered at the bottom of the playfield.
    pub fn new(width: usize, height: usize, color: Color) -> (r: Self)
        requires
            width / 2 <= PLAYFIELD_WIDTH / 2,
            height <= PLAYFIELD_HEIGHT,
        ensures
            r.position == ((PLAYFIELD_WIDTH / 2 - width / 2) as usize, (PLAYFIELD_HEIGHT
                - height) as usize),
            r.dimensions == (width, height),
            r.color == color,
    {
        Paddle {
            position: (PLAYFIELD_WIDTH / 2 - width / 2, PLAYFIELD_HEIGHT - height),
            dimensions: (width, height),
            color,
        }
    }

    /// Draws the paddle.
    pub fn render<C: Canvas>(&self, canvas: &mut C)
        requires
            old(canvas).wf(),
        ensures
            drawn_rect(
                *old(canvas),
                *final(canvas),
                self.position.0 as i64 as int,
                self.position.1 as i64 as int,
                self.dimensions.0 as u32 as int,
                self.dimensions.1 as u32 as int,
                self.color,
            ),
    {
        canvas.filled_rect(
            self.position.0 as i64,
            self.position.1 as i64,
            self.dimensions.0 as u32,
            self.dimensions.1 as u32,
            &self.color,
        );
    }

    /// Moves the paddle one pixel left, unless it is at the left edge.
    pub fn move_left(&mut self)
        ensures
            final(self).position.0 == if old(self).position.0 > 0 {
                (old(self).position.0 - 1) as usize
            } else {
                old(self).position.0
            },
            final(self).position.1 == old(self).position.1,
            final(self).dimensions == old(self).dimensions,
            final(self).color == old(self).color,
    {
        if self.position.0 > 0 {
            self.position.0 = self.position.0 - 1;
        }
    }

    /// Moves the paddle one pixel right, unless it is at the right edge.
    pub fn move_right(&mut self)
        requires
            old(self).dimensions.0 <= PLAYFIELD_WIDTH,
        ensures
            final(self).position.0 == if old(self).position.0 < PLAYFIELD_WIDTH - old(
                self,
            ).dimensions.0 {
                (old(self).position.0 + 1) as usize
            } else {
                old(self).position.0
            },
            final(self).position.1 == old(self).position.1,
            final(self).dimensions == old(self).dimensions,
            final(self).color == old(self).color,
    {
        if self.position.0 < PLAYFIELD_WIDTH - self.dimensions.0 {
            self.position.0 = self.position.0 + 1;
        }
    }
}

/// The ball.
pub struct Ball {
    pub position: (usize, usize),
    pub dimensions: (usize, usize),
    pub speed: (isize, isize),
    pub color: Color,
    /// Whether the ball rests on the paddle.
    pub attached: bool,
}

/// Where a ball of width `w` and height `h` rests on `paddle`: centered on
/// it, just above it.
pub open spec fn resting_position(paddle: Paddle, w: int, h: int) -> (int, int) {
    (paddle.position.0 + paddle.dimensions.0 / 2 - w / 2, paddle.position.1 - h)
}

/// The ball `b` after one update against `p`. A ball resting on the paddle
/// follows it. A moving ball moves by its speed; it bounces off the side
/// walls and the top; below the bottom it comes to rest on the paddle; on
/// the paddle it goes up, sideways by up to three pixels per update
/// depending on where it hit. Its position stays on the playfield.
pub open spec fn ball_after(b: Ball, p: Paddle) -> Ball {
    if b.attached {
        let rest = resting_position(p, b.dimensions.0 as int, b.dimensions.1 as int);
        Ball { position: (rest.0 as usize, rest.1 as usize), ..b }
    } else {
        let nx = b.position.0 + b.speed.0;
        let ny = b.position.1 + b.speed.1;
        let sx1 = if nx < 0 || nx > PLAYFIELD_WIDTH - b.dimensions.0 {
            -b.speed.0
        } else {
            b.speed.0 as int
        };
        let sy1 = if ny < 0 {
            -b.speed.1
        } else {
            b.speed.1 as int
        };
        let bottom = ny > PLAYFIELD_WIDTH - b.dimensions.1;
        let sx2 = if bottom {
            0
        } else {
            sx1
        };
        let sy2 = if bottom {
            0
        } else {
            sy1
        };
        let hit = nx >= p.position.0 && nx <= p.position.0 + p.dimensions.0 && ny >= p.position.1;
        let sx3 = if hit {
            round_div(6 * (nx - p.position.0) - 3 * p.dimensions.0, p.dimensions.0 as int)
        } else {
            sx2
        };
        let sy3 = if hit {
            -1
        } else {
            sy2
        };
        Ball {
            position: (
                clamp(nx, 0, PLAYFIELD_WIDTH as int) as usize,
                clamp(ny, 0, PLAYFIELD_HEIGHT as int) as usize,
            ),
            speed: (sx3 as isize, sy3 as isize),
            attached: b.attached || bottom,
            ..b
        }
    }
}

/// The speed that a hit `distance` pixels from the paddle's left end, on a
/// paddle `width` pixels wide, gives the ball: 3 * (2 * distance / width - 1),
/// rounded.
fn bounce_speed(distance: isize, width: isize) -> (r: isize)
    requires
        0 <= distance <= width,
        0 < width <= 1_000_000,
    ensures
        r == round_div(6 * distance - 3 * width, width as int),
{
    let n: isize = 6 * distance - 3 * width;
    let d: isize = width;
    if n >= 0 {
        (2 * n + d) / (2 * d)
    } else {
        -((2 * -n + d) / (2 * d))
    }
}

impl Ball {
    /// A ball of the given size resting on `paddle`.
    pub fn new(paddle: &Paddle, width: usize, height: usize, color: Color) -> (r: Self)
        requires
            paddle.position.0 + paddle.dimensions.0 / 2 <= usize::MAX,
            width / 2 <= paddle.position.0 + paddle.dimensions.0 / 2,
            height <= paddle.position.1,
        ensures
            r.position == ((resting_position(*paddle, width as int, height as int).0) as usize, (
            resting_position(*paddle, width as int, height as int).1) as usize),
            r.dimensions == (width, height),
            r.speed == (0isize, 0isize),
            r.color == color,
            r.attached,
    {
        let position = (
            paddle.position.0 + paddle.dimensions.0 / 2 - width / 2,
            paddle.position.1 - height,
        );
        Ball { position, dimensions: (width, height), speed: (0, 0), color, attached: true }
    }

    /// Draws the ball.
    pub fn render<C: Canvas>(&self, canvas: &mut C)
        requires
            old(canvas).wf(),
        ensures
            drawn_rect(
                *old(canvas),
                *final(canvas),
                self.position.0 as i64 as int,
                self.position.1 as i64 as int,
                self.dimensions.0 as u32 as int,
                self.dimensions.1 as u32 as int,
                self.color,
            ),
    {
        canvas.filled_rect(
            self.position.0 as i64,
            self.position.1 as i64,
            self.dimensions.0 as u32,
            self.dimensions.1 as u32,
            &self.color,
        );
    }

    /// Moves the ball by one update against `paddle`.
    pub fn update(&mut self, paddle: &Paddle)
        requires
            old(self).attached ==> {
                &&& paddle.position.0 + paddle.dimensions.0 / 2 <= usize::MAX
                &&& old(self).dimensions.0 / 2 <= paddle.position.0 + paddle.dimensions.0 / 2
                &&& old(self).dimensions.1 <= paddle.position.1
            },
            !old(self).attached ==> {
                &&& old(self).position.0 <= PLAYFIELD_WIDTH
                &&& old(self).position.1 <= PLAYFIELD_HEIGHT
                &&& -1_000_000 <= old(self).speed.0 <= 1_000_000
                &&& -1_000_000 <= old(self).speed.1 <= 1_000_000
                &&& old(self).dimensions.0 <= PLAYFIELD_WIDTH
                &&& old(self).dimensions.1 <= PLAYFIELD_WIDTH
                &&& paddle.position.0 <= 1_000_000
                &&& 0 < paddle.dimensions.0 <= 1_000_000
                &&& paddle.position.1 <= 1_000_000
            },
        ensures
            *final(self) == ball_after(*old(self), *paddle),
    {
        if self.attached {
            self.position = (
                paddle.position.0 + paddle.dimensions.0 / 2 - self.dimensions.0 / 2,
                paddle.position.1 - self.dimensions.1,
            );
            return;
        }
        let nx: isize = self.position.0 as isize + self.speed.0;
        let ny: isize = self.position.1 as isize + self.speed.1;
        if nx < 0 || nx > PLAYFIELD_WIDTH as isize - self.dimensions.0 as isize {
            self.speed.0 = -self.speed.0;
        }
        if ny < 0 {
            self.speed.1 = -self.speed.1;
        }
        if ny > (PLAYFIELD_WIDTH - self.dimensions.1) as isize {
            self.attached = true;
            self.speed = (0, 0);
        }
        let px = paddle.position.0 as isize;
        let pw = paddle.dimensions.0 as isize;
        if nx >= px && nx <= px + pw && ny >= paddle.position.1 as isize {
            self.speed = (bounce_speed(nx - px, pw), -1);
        }
        self.position.0 = if nx < 0 {
            0
        } else if nx > PLAYFIELD_WIDTH as isize {
            PLAYFIELD_WIDTH
        } else {
            nx as usize
        };
        self.position.1 = if ny < 0 {
            0
        } else if ny > PLAYFIELD_HEIGHT as isize {
            PLAYFIELD_HEIGHT
        } else {
            ny as usize
        };
    }
}

/// A brick.
pub struct Brick {
    pub position: (usize, usize),
    pub dimensions: (usize, usize),
    pub color: Color,
    pub destroyed: bool,
}

impl Brick {
    /// An intact brick at (x, y) of the given size.
    pub fn new(x: usize, y: usize, width: usize, height: usize, color: Color) -> (r: Self)
        ensures
            r.position == (x, y),
            r.dimensions == (width, height),
            r.color == color,
            !r.destroyed,
    {
        Brick { position: (x, y), dimensions: (width, height), color, destroyed: false }
    }

    /// Draws the brick, unless it is destroyed.
    pub fn render<C: Canvas>(&self, canvas: &mut C)
        requires
            old(canvas).wf(),
        ensures
            self.destroyed ==> *final(canvas) == *old(canvas),
            !self.destroyed ==> drawn_rect(
                *old(canvas),
                *final(canvas),
                self.position.0 as i64 as int,
                self.position.1 as i64 as int,
                self.dimensions.0 as u32 as int,
                self.dimensions.1 as u32 as int,
                self.color,
            ),
    {
        if self.destroyed {
            return;
        }
        canvas.filled_rect(
            self.position.0 as i64,
            self.position.1 as i64,
            self.dimensions.0 as u32,
            self.dimensions.1 as u32,
            &self.color,
        );
    }

    /// Marks the brick destroyed.
    pub fn destroy(&mut self)
        ensures
            final(self).destroyed,
            final(self).position == old(self).position,
            final(self).dimensions == old(self).dimensions,
            final(self).color == old(self).color,
    {
        self.destroyed = true;
    }

    /// Whether the brick is intact and the ball's position lies within it
    /// (edges included).
    pub fn colides_with_ball(&self, ball: &Ball) -> (r: bool)
        requires
            self.position.0 + self.dimensions.0 <= usize::MAX,
            self.position.1 + self.dimensions.1 <= usize::MAX,
        ensures
            r == (!self.destroyed && self.position.0 <= ball.position.0 <= self.position.0
                + self.dimensions.0 && self.position.1 <= ball.position.1 <= self.position.1
                + self.dimensions.1),
    {
        !self.destroyed && ball.position.0 >= self.position.0 && ball.position.0 <= self.position.0
            + self.dimensions.0 && ball.position.1 >= self.position.1 && ball.position.1
            <= self.position.1 + self.dimensions.1
    }
}

} // verus!
