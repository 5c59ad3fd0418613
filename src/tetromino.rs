//! Tetromino pieces, as a falling-block clock draws them.
use vstd::prelude::*;

use crate::canvas::{idx, in_rect, Blit, Canvas};
use crate::color::{tinted, Color};

verus! {

/// The shape of a tetromino.
#[derive(Debug, Clone, Copy, PartialEq, Eq, Structural)]
pub enum Shape {
    L,
    Square,
    T,
    Straight,
    Skew,
}

/// The rotation of a tetromino.
#[derive(Debug, Clone, Copy, PartialEq, Eq, Structural)]
pub enum Rotation {
    Degrees90,
    Degrees180,
    Degrees270,
    NoRotation,
}

/// The color of a tetromino.
#[derive(Debug, Clone, Copy, PartialEq, Eq, Structural)]
pub enum TetrominoColor {
    Red,
    Green,
    Blue,
    White,
    Yellow,
    Cyan,
    Magenta,
    Orange,
}

/// The color numbered `n` (0 red, 1 green, 2 blue, 3 white, 4 yellow,
/// 5 cyan, 6 magenta, 7 orange); white for any other number.
pub open spec fn color_for_number(n: u8) -> TetrominoColor {
    if n == 0 {
        TetrominoColor::Red
    } else if n == 1 {
        TetrominoColor::Green
    } else if n == 2 {
        TetrominoColor::Blue
    } else if n == 4 {
        TetrominoColor::Yellow
    } else if n == 5 {
        TetrominoColor::Cyan
    } else if n == 6 {
        TetrominoColor::Magenta
    } else if n == 7 {
        TetrominoColor::Orange
    } else {
        TetrominoColor::White
    }
}

/// The opaque color that a tetromino color is drawn in.
pub open spec fn rgb_of(c: TetrominoColor) -> Color {
    let (r, g, b) = match c {
        TetrominoColor::Red => (255u8, 0u8, 0u8),
        TetrominoColor::Green => (0u8, 255u8, 0u8),
        TetrominoColor::Blue => (0u8, 0u8, 255u8),
        TetrominoColor::White => (255u8, 255u8, 255u8),
        TetrominoColor::Yellow => (255u8, 255u8, 0u8),
        TetrominoColor::Cyan => (0u8, 255u8, 255u8),
        TetrominoColor::Magenta => (255u8, 0u8, 255u8),
        TetrominoColor::Orange => (255u8, 165u8, 0u8),
    };
    Color { r, g, b, a: 255 }
}

impl TetrominoColor {
    /// The color numbered `num_color`; white for numbers above 7.
    pub fn from_num_color(num_color: u8) -> (r: Self)
        ensures
            r == color_for_number(num_color),
    {
        match num_color {
            0 => TetrominoColor::Red,
            1 => TetrominoColor::Green,
            2 => TetrominoColor::Blue,
            3 => TetrominoColor::White,
            4 => TetrominoColor::Yellow,
            5 => TetrominoColor::Cyan,
            6 => TetrominoColor::Magenta,
            7 => TetrominoColor::Orange,
            _ => TetrominoColor::White,
        }
    }

    /// The color this tetromino color is drawn in.
    pub fn as_color(&self) -> (r: Color)
        ensures
            r == rgb_of(*self),
    {
        match self {
            TetrominoColor::Red => Color::from_rgb(255, 0, 0),
            TetrominoColor::Green => Color::from_rgb(0, 255, 0),
            TetrominoColor::Blue => Color::from_rgb(0, 0, 255),
            TetrominoColor::White => Color::from_rgb(255, 255, 255),
            TetrominoColor::Yellow => Color::from_rgb(255, 255, 0),
            TetrominoColor::Cyan => Color::from_rgb(0, 255, 255),
            TetrominoColor::Magenta => Color::from_rgb(255, 0, 255),
            TetrominoColor::Orange => Color::from_rgb(255, 165, 0),
        }
    }
}

/// The kind of a tetromino in the clock's animations.
#[derive(Debug, Clone, Copy, PartialEq, Eq, Structural)]
pub enum TetrominoType {
    Square,
    LShape,
    LShapeReverse,
    IShape,
    SShape,
    SShapeReverse,
    HalfCross,
    CornerShape,
}

/// The kind numbered `n` (0 square, 1 L, 2 reverse L, 3 I, 4 S, 5 reverse S,
/// 6 half cross, 7 corner); square for any other number.
pub open spec fn type_for_number(n: u32) -> TetrominoType {
    if n == 1 {
        TetrominoType::LShape
    } else if n == 2 {
        TetrominoType::LShapeReverse
    } else if n == 3 {
        TetrominoType::IShape
    } else if n == 4 {
        TetrominoType::SShape
    } else if n == 5 {
        TetrominoType::SShapeReverse
    } else if n == 6 {
        TetrominoType::HalfCross
    } else if n == 7 {
        TetrominoType::CornerShape
    } else {
        TetrominoType::Square
    }
}

impl TetrominoType {
    /// The kind numbered `num`; square for numbers above 7.
    pub fn from_num_type(num: u32) -> (r: Self)
        ensures
            r == type_for_number(num),
    {
        match num {
            0 => TetrominoType::Square,
            1 => TetrominoType::LShape,
            2 => TetrominoType::LShapeReverse,
            3 => TetrominoType::IShape,
            4 => TetrominoType::SShape,
            5 => TetrominoType::SShapeReverse,
            6 => TetrominoType::HalfCross,
            7 => TetrominoType::CornerShape,
            _ => TetrominoType::Square,
        }
    }
}

/// One step of a digit's animation: which tetromino falls, in which color,
/// at which column (in blocks), to which row it falls, and its rotation.
#[derive(Debug, Clone, Copy, PartialEq, Eq, Structural)]
pub struct AnimStep {
    pub tt: TetrominoType,
    pub tcolor: TetrominoColor,
    pub x_pos: i64,
    pub y_stop: u32,
    pub rotation: u8,
}

impl AnimStep {
    /// A step from its numeric description: kind number, color number,
    /// column, stop row and rotation.
    pub fn from_numeric(num_type: u32, num_color: u8, x_pos: u32, y_stop: u32, num_rot: u8) -> (r: Self)
        ensures
            r == (AnimStep {
                tt: type_for_number(num_type),
                tcolor: color_for_number(num_color),
                x_pos: x_pos as i64,
                y_stop,
                rotation: num_rot,
            }),
    {
        AnimStep {
            tt: TetrominoType::from_num_type(num_type),
            tcolor: TetrominoColor::from_num_color(num_color),
            x_pos: x_pos as i64,
            y_stop,
            rotation: num_rot,
        }
    }
}

/// Where the blocks of a tetromino of kind `tt` with rotation `rotation`
/// go, relative to its position, for blocks `bw` by `bh` pixels: the
/// position is the lower left block, and the piece grows right and up.
/// Rotations a kind does not have give no blocks; a square ignores rotation.
pub open spec fn block_offsets(tt: TetrominoType, rotation: u8, bw: int, bh: int) -> Seq<(int, int)> {
    let up1 = -bh;
    let up2 = -2 * bh;
    let up3 = -3 * bh;
    let up_w = -bw;
    match tt {
        TetrominoType::Square => seq![(0, 0), (bw, 0), (0, up_w), (bw, up1)],
        TetrominoType::LShape => if rotation == 0 {
            seq![(0, 0), (bw, 0), (0, up1), (0, up2)]
        } else if rotation == 1 {
            seq![(0, 0), (0, up1), (bw, up1), (2 * bw, up1)]
        } else if rotation == 2 {
            seq![(bw, 0), (bw, up1), (bw, up2), (0, up2)]
        } else if rotation == 3 {
            seq![(0, 0), (bw, 0), (2 * bw, 0), (2 * bw, up1)]
        } else {
            Seq::empty()
        },
        TetrominoType::LShapeReverse => if rotation == 0 {
            seq![(0, 0), (bw, 0), (bw, up1), (bw, up2)]
        } else if rotation == 1 {
            seq![(0, 0), (bw, 0), (2 * bw, 0), (0, up1)]
        } else if rotation == 2 {
            seq![(0, 0), (0, up1), (0, up2), (bw, up2)]
        } else if rotation == 3 {
            seq![(0, up1), (bw, up1), (2 * bw, up1), (2 * bw, 0)]
        } else {
            Seq::empty()
        },
        TetrominoType::IShape => if rotation == 0 || rotation == 2 {
            seq![(0, 0), (bw, 0), (2 * bw, 0), (3 * bw, 0)]
        } else if rotation == 1 || rotation == 3 {
            seq![(0, 0), (0, up1), (0, up2), (0, up3)]
        } else {
            Seq::empty()
        },
        TetrominoType::SShape => if rotation == 0 || rotation == 2 {
            seq![(bw, 0), (0, up1), (bw, up1), (0, up2)]
        } else if rotation == 1 || rotation == 3 {
            seq![(0, 0), (bw, 0), (bw, up1), (2 * bw, up1)]
        } else {
            Seq::empty()
        },
        TetrominoType::SShapeReverse => if rotation == 0 || rotation == 2 {
            seq![(0, 0), (0, up1), (bw, up1), (bw, up2)]
        } else if rotation == 1 || rotation == 3 {
            seq![(bw, 0), (2 * bw, 0), (0, up1), (bw, up1)]
        } else {
            Seq::empty()
        },
        TetrominoType::HalfCross => if rotation == 0 {
            seq![(0, 0), (bw, 0), (2 * bw, 0), (bw, up1)]
        } else if rotation == 1 {
            seq![(0, 0), (0, up1), (0, up2), (bw, up1)]
        } else if rotation == 2 {
            seq![(bw, 0), (0, up1), (bw, up1), (2 * bw, up1)]
        } else if rotation == 3 {
            seq![(bw, 0), (0, up1), (bw, up1), (bw, up2)]
        } else {
            Seq::empty()
        },
        TetrominoType::CornerShape => if rotation == 0 {
            seq![(0, 0), (bw, 0), (0, up1)]
        } else if rotation == 1 {
            seq![(0, 0), (0, up1), (bw, up1)]
        } else if rotation == 2 {
            seq![(bw, 0), (bw, up1), (0, up1)]
        } else if rotation == 3 {
            seq![(0, 0), (bw, 0), (bw, up1)]
        } else {
            Seq::empty()
        },
    }
}

/// The color that drawing blocks at `offsets` from (x, y) leaves at (px, py),
/// which held `old`: the last block covering it, tinted, or `old` if none does.
pub open spec fn drawn_pixel(
    offsets: Seq<(int, int)>,
    old: Color,
    block: Seq<Color>,
    bw: int,
    bh: int,
    x: int,
    y: int,
    px: int,
    py: int,
    tint: Color,
) -> Color
    decreases offsets.len(),
{
    if offsets.len() == 0 {
        old
    } else {
        let bx = x + offsets.last().0;
        let by = y + offsets.last().1;
        if in_rect(bx, by, bw, bh, px, py) {
            tinted(block[idx(bw, px - bx, py - by)], tint)
        } else {
            drawn_pixel(offsets.drop_last(), old, block, bw, bh, x, y, px, py, tint)
        }
    }
}

impl TetrominoType {
    /// The block offsets of this kind with the given rotation, for blocks
    /// `bw` by `bh` pixels.
    pub fn block_offsets(&self, rotation: u8, bw: i64, bh: i64) -> (r: Vec<(i64, i64)>)
        requires
            0 <= bw <= u32::MAX,
            0 <= bh <= u32::MAX,
        ensures
            r@.len() == block_offsets(*self, rotation, bw as int, bh as int).len(),
            forall|i: int|
                0 <= i < r@.len() ==> #[trigger] r@[i].0 == block_offsets(
                    *self,
                    rotation,
                    bw as int,
                    bh as int,
                )[i].0 && r@[i].1 == block_offsets(*self, rotation, bw as int, bh as int)[i].1,
    {
        let up1: i64 = -bh;
        let up2: i64 = 0 - 2 * bh;
        let up3: i64 = 0 - 3 * bh;
        let up_w: i64 = -bw;
        let r: Vec<(i64, i64)> = match self {
            TetrominoType::Square => vec![(0, 0), (bw, 0), (0, up_w), (bw, up1)],
            TetrominoType::LShape => if rotation == 0 {
                vec![(0, 0), (bw, 0), (0, up1), (0, up2)]
            } else if rotation == 1 {
                vec![(0, 0), (0, up1), (bw, up1), (2 * bw, up1)]
            } else if rotation == 2 {
                vec![(bw, 0), (bw, up1), (bw, up2), (0, up2)]
            } else if rotation == 3 {
                vec![(0, 0), (bw, 0), (2 * bw, 0), (2 * bw, up1)]
            } else {
                Vec::new()
            },
            TetrominoType::LShapeReverse => if rotation == 0 {
                vec![(0, 0), (bw, 0), (bw, up1), (bw, up2)]
            } else if rotation == 1 {
                vec![(0, 0), (bw, 0), (2 * bw, 0), (0, up1)]
            } else if rotation == 2 {
                vec![(0, 0), (0, up1), (0, up2), (bw, up2)]
            } else if rotation == 3 {
                vec![(0, up1), (bw, up1), (2 * bw, up1), (2 * bw, 0)]
            } else {
                Vec::new()
            },
            TetrominoType::IShape => if rotation == 0 || rotation == 2 {
                vec![(0, 0), (bw, 0), (2 * bw, 0), (3 * bw, 0)]
            } else if rotation == 1 || rotation == 3 {
                vec![(0, 0), (0, up1), (0, up2), (0, up3)]
            } else {
                Vec::new()
            },
            TetrominoType::SShape => if rotation == 0 || rotation == 2 {
                vec![(bw, 0), (0, up1), (bw, up1), (0, up2)]
            } else if rotation == 1 || rotation == 3 {
                vec![(0, 0), (bw, 0), (bw, up1), (2 * bw, up1)]
            } else {
                Vec::new()
            },
            TetrominoType::SShapeReverse => if rotation == 0 || rotation == 2 {
                vec![(0, 0), (0, up1), (bw, up1), (bw, up2)]
            } else if rotation == 1 || rotation == 3 {
                vec![(bw, 0), (2 * bw, 0), (0, up1), (bw, up1)]
            } else {
                Vec::new()
            },
            TetrominoType::HalfCross => if rotation == 0 {
                vec![(0, 0), (bw, 0), (2 * bw, 0), (bw, up1)]
            } else if rotation == 1 {
                vec![(0, 0), (0, up1), (0, up2), (bw, up1)]
            } else if rotation == 2 {
                vec![(bw, 0), (0, up1), (bw, up1), (2 * bw, up1)]
            } else if rotation == 3 {
                vec![(bw, 0), (0, up1), (bw, up1), (bw, up2)]
            } else {
                Vec::new()
            },
            TetrominoType::CornerShape => if rotation == 0 {
                vec![(0, 0), (bw, 0), (0, up1)]
            } else if rotation == 1 {
                vec![(0, 0), (0, up1), (bw, up1)]
            } else if rotation == 2 {
                vec![(bw, 0), (bw, up1), (0, up1)]
            } else if rotation == 3 {
                vec![(0, 0), (bw, 0), (bw, up1)]
            } else {
                Vec::new()
            },
        };
        proof {
            let s = block_offsets(*self, rotation, bw as int, bh as int);
            assert(r@.len() == s.len());
            assert forall|i: int| 0 <= i < r@.len() implies #[trigger] r@[i].0 == s[i].0 && r@[i].1
                == s[i].1 by {
            }
        }
        r
    }

    /// Draws a tetromino of this kind: a copy of `block`, tinted with
    /// `color`, at each of its block offsets from (x, y), in order.
    pub fn draw<TargetCanvas: Canvas, BlockCanvas: Canvas>(
        &self,
        canvas: &mut TargetCanvas,
        block: &BlockCanvas,
        x: i64,
        y: i64,
        color: &Color,
        rotation: u8,
    )
        requires
            old(canvas).wf(),
            block.wf(),
            -0x4000_0000_0000_0000 <= x <= 0x4000_0000_0000_0000,
            -0x4000_0000_0000_0000 <= y <= 0x4000_0000_0000_0000,
        ensures
            final(canvas).wf(),
            final(canvas).spec_width() == old(canvas).spec_width(),
            final(canvas).spec_height() == old(canvas).spec_height(),
            final(canvas).pixels().len() == old(canvas).pixels().len(),
            forall|px: int, py: int|
                0 <= px < old(canvas).spec_width() && 0 <= py < old(canvas).spec_height()
                    ==> #[trigger] final(canvas).pixels()[idx(old(canvas).spec_width() as int, px, py)]
                    == drawn_pixel(
                    block_offsets(
                        *self,
                        rotation,
                        block.spec_width() as int,
                        block.spec_height() as int,
                    ),
                    old(canvas).pixels()[idx(old(canvas).spec_width() as int, px, py)],
                    block.pixels(),
                    block.spec_width() as int,
                    block.spec_height() as int,
                    x as int,
                    y as int,
                    px,
                    py,
                    *color,
                ),
    {
        let bw = block.width() as i64;
        let bh = block.height() as i64;
        let offsets = self.block_offsets(rotation, bw, bh);
        let ghost spec_offsets = block_offsets(*self, rotation, bw as int, bh as int);
        let ghost w = canvas.spec_width() as int;
        let ghost h = canvas.spec_height() as int;
        let ghost old_pixels = canvas.pixels();
        let mut k: usize = 0;
        while k < offsets.len()
            invariant
                canvas.wf(),
                block.wf(),
                canvas.spec_width() == w,
                canvas.spec_height() == h,
                canvas.pixels().len() == old_pixels.len(),
                bw == block.spec_width(),
                bh == block.spec_height(),
                0 <= bw <= u32::MAX,
                0 <= bh <= u32::MAX,
                -0x4000_0000_0000_0000 <= x <= 0x4000_0000_0000_0000,
                -0x4000_0000_0000_0000 <= y <= 0x4000_0000_0000_0000,
                k <= offsets@.len(),
                offsets@.len() == spec_offsets.len(),
                forall|i: int|
                    0 <= i < offsets@.len() ==> #[trigger] offsets@[i].0 == spec_offsets[i].0
                        && offsets@[i].1 == spec_offsets[i].1,
                spec_offsets == block_offsets(*self, rotation, bw as int, bh as int),
                forall|px: int, py: int|
                    0 <= px < w && 0 <= py < h ==> #[trigger] canvas.pixels()[idx(w, px, py)]
                        == drawn_pixel(
                        spec_offsets.take(k as int),
                        old_pixels[idx(w, px, py)],
                        block.pixels(),
                        bw as int,
                        bh as int,
                        x as int,
                        y as int,
                        px,
                        py,
                        *color,
                    ),
            decreases offsets@.len() - k,
        {
            let (dx, dy) = offsets[k];
            assert(-4 * 0x1_0000_0000 <= dx <= 4 * 0x1_0000_0000 && -4 * 0x1_0000_0000 <= dy <= 4
                * 0x1_0000_0000) by {
                assert(offsets@[k as int].0 == spec_offsets[k as int].0);
                assert(offsets@[k as int].1 == spec_offsets[k as int].1);
            }
            canvas.blit(block, x + dx, y + dy, Some(color));
            proof {
                assert(spec_offsets.take(k + 1).drop_last() =~= spec_offsets.take(k as int));
                assert(spec_offsets.take(k + 1).last() == spec_offsets[k as int]);
            }
            k = k + 1;
        }
        proof {
            assert(spec_offsets.take(k as int) =~= spec_offsets);
        }
    }
}

} // verus!
