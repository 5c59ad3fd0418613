//! The animations that draw the digits 0 to 9 out of falling tetrominoes,
//! one step per piece.
use vstd::prelude::*;

use crate::tetromino::{color_for_number, type_for_number, AnimStep};

verus! {

/// The steps of digit `digit`'s animation, each as (kind number, color
/// number, column, stop row, rotation).
pub open spec fn digit_steps(digit: u8) -> Seq<(u32, u8, u32, u32, u8)> {
    if digit == 0 {
        seq![(2, 5, 4, 16, 0), (4, 7, 2, 16, 1), (3, 4, 0, 16, 1), (6, 6, 1, 16, 1), (5, 1, 4, 14, 0), (6, 6, 0, 13, 3), (5, 1, 4, 12, 0), (5, 1, 0, 11, 0), (6, 6, 4, 10, 1), (6, 6, 0, 9, 1), (5, 1, 1, 8, 1), (2, 5, 3, 8, 3)]
    } else if digit == 1 {
        seq![(2, 5, 4, 16, 0), (3, 4, 4, 15, 1), (3, 4, 5, 13, 3), (2, 5, 4, 11, 2), (0, 0, 4, 8, 0)]
    } else if digit == 2 {
        seq![(0, 0, 4, 16, 0), (3, 4, 0, 16, 1), (1, 2, 1, 16, 3), (1, 2, 1, 15, 0), (3, 4, 1, 12, 2), (1, 2, 0, 12, 1), (2, 5, 3, 12, 3), (0, 0, 4, 10, 0), (3, 4, 1, 8, 0), (2, 5, 3, 8, 3), (1, 2, 0, 8, 1)]
    } else if digit == 3 {
        seq![(1, 2, 3, 16, 3), (2, 5, 0, 16, 1), (3, 4, 1, 15, 2), (0, 0, 4, 14, 0), (3, 4, 1, 12, 2), (1, 2, 0, 12, 1), (3, 4, 5, 12, 3), (2, 5, 3, 11, 0), (3, 4, 1, 8, 0), (1, 2, 0, 8, 1), (2, 5, 3, 8, 3)]
    } else if digit == 4 {
        seq![(0, 0, 4, 16, 0), (0, 0, 4, 14, 0), (3, 4, 1, 12, 0), (1, 2, 0, 12, 1), (2, 5, 0, 10, 0), (2, 5, 3, 12, 3), (3, 4, 4, 10, 3), (2, 5, 0, 9, 2), (3, 4, 5, 10, 1)]
    } else if digit == 5 {
        seq![(0, 0, 0, 16, 0), (2, 5, 2, 16, 1), (2, 5, 3, 15, 0), (3, 4, 5, 16, 1), (3, 4, 1, 12, 0), (1, 2, 0, 12, 1), (2, 5, 3, 12, 3), (0, 0, 0, 10, 0), (3, 4, 1, 8, 2), (1, 2, 0, 8, 1), (2, 5, 3, 8, 3)]
    } else if digit == 6 {
        seq![(2, 5, 0, 16, 1), (5, 1, 2, 16, 1), (6, 6, 0, 15, 3), (6, 6, 4, 16, 3), (5, 1, 4, 14, 0), (3, 4, 1, 12, 2), (2, 5, 0, 13, 2), (3, 4, 2, 11, 0), (0, 0, 0, 10, 0), (3, 4, 1, 8, 0), (1, 2, 0, 8, 1), (2, 5, 3, 8, 3)]
    } else if digit == 7 {
        seq![(0, 0, 4, 16, 0), (1, 2, 4, 14, 0), (3, 4, 5, 13, 1), (2, 5, 4, 11, 2), (3, 4, 1, 8, 2), (2, 5, 3, 8, 3), (1, 2, 0, 8, 1)]
    } else if digit == 8 {
        seq![(3, 4, 1, 16, 0), (6, 6, 0, 16, 1), (3, 4, 5, 16, 1), (1, 2, 2, 15, 3), (4, 7, 0, 14, 0), (1, 2, 1, 12, 3), (6, 6, 4, 13, 1), (2, 5, 0, 11, 1), (4, 7, 0, 10, 0), (4, 7, 4, 11, 0), (5, 1, 0, 8, 1), (5, 1, 2, 8, 1), (1, 2, 4, 9, 2)]
    } else {
        seq![(0, 0, 0, 16, 0), (3, 4, 2, 16, 0), (1, 2, 2, 15, 3), (1, 2, 4, 15, 2), (3, 4, 1, 12, 2), (3, 4, 5, 12, 3), (5, 1, 0, 12, 0), (1, 2, 2, 11, 3), (5, 1, 4, 9, 0), (6, 6, 0, 10, 1), (5, 1, 0, 8, 1), (6, 6, 2, 8, 2)]
    }
}

/// The animation step described by the numbers `t`.
pub open spec fn step_of(t: (u32, u8, u32, u32, u8)) -> AnimStep {
    AnimStep {
        tt: type_for_number(t.0),
        tcolor: color_for_number(t.1),
        x_pos: t.2 as i64,
        y_stop: t.3,
        rotation: t.4,
    }
}

fn digit_numbers(digit: u8) -> (r: Vec<(u32, u8, u32, u32, u8)>)
    requires
        digit <= 9,
    ensures
        r@ == digit_steps(digit),
{
    let r: Vec<(u32, u8, u32, u32, u8)> = match digit {
        0 => vec![(2, 5, 4, 16, 0), (4, 7, 2, 16, 1), (3, 4, 0, 16, 1), (6, 6, 1, 16, 1), (5, 1, 4, 14, 0), (6, 6, 0, 13, 3), (5, 1, 4, 12, 0), (5, 1, 0, 11, 0), (6, 6, 4, 10, 1), (6, 6, 0, 9, 1), (5, 1, 1, 8, 1), (2, 5, 3, 8, 3)],
        1 => vec![(2, 5, 4, 16, 0), (3, 4, 4, 15, 1), (3, 4, 5, 13, 3), (2, 5, 4, 11, 2), (0, 0, 4, 8, 0)],
        2 => vec![(0, 0, 4, 16, 0), (3, 4, 0, 16, 1), (1, 2, 1, 16, 3), (1, 2, 1, 15, 0), (3, 4, 1, 12, 2), (1, 2, 0, 12, 1), (2, 5, 3, 12, 3), (0, 0, 4, 10, 0), (3, 4, 1, 8, 0), (2, 5, 3, 8, 3), (1, 2, 0, 8, 1)],
        3 => vec![(1, 2, 3, 16, 3), (2, 5, 0, 16, 1), (3, 4, 1, 15, 2), (0, 0, 4, 14, 0), (3, 4, 1, 12, 2), (1, 2, 0, 12, 1), (3, 4, 5, 12, 3), (2, 5, 3, 11, 0), (3, 4, 1, 8, 0), (1, 2, 0, 8, 1), (2, 5, 3, 8, 3)],
        4 => vec![(0, 0, 4, 16, 0), (0, 0, 4, 14, 0), (3, 4, 1, 12, 0), (1, 2, 0, 12, 1), (2, 5, 0, 10, 0), (2, 5, 3, 12, 3), (3, 4, 4, 10, 3), (2, 5, 0, 9, 2), (3, 4, 5, 10, 1)],
        5 => vec![(0, 0, 0, 16, 0), (2, 5, 2, 16, 1), (2, 5, 3, 15, 0), (3, 4, 5, 16, 1), (3, 4, 1, 12, 0), (1, 2, 0, 12, 1), (2, 5, 3, 12, 3), (0, 0, 0, 10, 0), (3, 4, 1, 8, 2), (1, 2, 0, 8, 1), (2, 5, 3, 8, 3)],
        6 => vec![(2, 5, 0, 16, 1), (5, 1, 2, 16, 1), (6, 6, 0, 15, 3), (6, 6, 4, 16, 3), (5, 1, 4, 14, 0), (3, 4, 1, 12, 2), (2, 5, 0, 13, 2), (3, 4, 2, 11, 0), (0, 0, 0, 10, 0), (3, 4, 1, 8, 0), (1, 2, 0, 8, 1), (2, 5, 3, 8, 3)],
        7 => vec![(0, 0, 4, 16, 0), (1, 2, 4, 14, 0), (3, 4, 5, 13, 1), (2, 5, 4, 11, 2), (3, 4, 1, 8, 2), (2, 5, 3, 8, 3), (1, 2, 0, 8, 1)],
        8 => vec![(3, 4, 1, 16, 0), (6, 6, 0, 16, 1), (3, 4, 5, 16, 1), (1, 2, 2, 15, 3), (4, 7, 0, 14, 0), (1, 2, 1, 12, 3), (6, 6, 4, 13, 1), (2, 5, 0, 11, 1), (4, 7, 0, 10, 0), (4, 7, 4, 11, 0), (5, 1, 0, 8, 1), (5, 1, 2, 8, 1), (1, 2, 4, 9, 2)],
        9 => vec![(0, 0, 0, 16, 0), (3, 4, 2, 16, 0), (1, 2, 2, 15, 3), (1, 2, 4, 15, 2), (3, 4, 1, 12, 2), (3, 4, 5, 12, 3), (5, 1, 0, 12, 0), (1, 2, 2, 11, 3), (5, 1, 4, 9, 0), (6, 6, 0, 10, 1), (5, 1, 0, 8, 1), (6, 6, 2, 8, 2)],
        _ => Vec::new(),
    };
    assert(r@ =~= digit_steps(digit));
    r
}

/// The animation of the digit `digit`, which must be at most 9.
pub fn from_digit(digit: u8) -> (r: Vec<AnimStep>)
    requires
        digit <= 9,
    ensures
        r@.len() == digit_steps(digit).len(),
        forall|i: int| 0 <= i < r@.len() ==> #[trigger] r@[i] == step_of(digit_steps(digit)[i]),
{
    let numbers = digit_numbers(digit);
    let mut steps: Vec<AnimStep> = Vec::new();
    let mut i: usize = 0;
    while i < numbers.len()
        invariant
            i <= numbers@.len(),
            numbers@ == digit_steps(digit),
            steps@.len() == i,
            forall|j: int| 0 <= j < i ==> #[trigger] steps@[j] == step_of(digit_steps(digit)[j]),
        decreases numbers@.len() - i,
    {
        let (num_type, num_color, x_pos, y_stop, num_rot) = numbers[i];
        steps.push(AnimStep::from_numeric(num_type, num_color, x_pos, y_stop, num_rot));
        i = i + 1;
    }
    steps
}

} // verus!
