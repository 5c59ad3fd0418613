use pixel_loop::canvas::Canvas;
use pixel_loop::color::Color;
use pixel_loop::in_memory::InMemoryCanvas;
use pixel_loop::shell_smash::{Ball, Brick, Paddle};
use pixel_loop::number_animations::from_digit;
use pixel_loop::tetromino::{AnimStep, TetrominoColor, TetrominoType};

fn white() -> Color {
    Color::from_rgb(255, 255, 255)
}

#[test]
fn paddle_starts_centered_at_the_bottom() {
    let paddle = Paddle::new(17, 2, white());
    assert_eq!(paddle.position, (42, 98));
    assert_eq!(paddle.dimensions, (17, 2));
}

#[test]
fn paddle_moves_within_the_playfield() {
    let mut paddle = Paddle::new(17, 2, white());
    paddle.move_left();
    assert_eq!(paddle.position.0, 41);
    paddle.position.0 = 0;
    paddle.move_left();
    assert_eq!(paddle.position.0, 0);
    paddle.position.0 = 83;
    paddle.move_right();
    assert_eq!(paddle.position.0, 83);
    paddle.position.0 = 82;
    paddle.move_right();
    assert_eq!(paddle.position.0, 83);
}

#[test]
fn ball_rests_on_the_paddle_and_follows_it() {
    let mut paddle = Paddle::new(17, 2, white());
    let mut ball = Ball::new(&paddle, 1, 1, Color::from_rgb(255, 128, 0));
    assert_eq!(ball.position, (50, 97));
    assert!(ball.attached);
    paddle.move_right();
    ball.update(&paddle);
    assert_eq!(ball.position, (51, 97));
}

#[test]
fn ball_moves_and_bounces() {
    let paddle = Paddle::new(17, 2, white());
    let mut ball = Ball::new(&paddle, 1, 1, white());
    ball.attached = false;
    ball.speed = (0, -1);
    ball.update(&paddle);
    assert_eq!(ball.position, (50, 96));
    ball.position = (99, 50);
    ball.speed = (1, 1);
    ball.update(&paddle);
    assert_eq!(ball.speed, (-1, 1));
    assert_eq!(ball.position, (100, 51));
    ball.position = (10, 0);
    ball.speed = (1, -1);
    ball.update(&paddle);
    assert_eq!(ball.speed, (1, 1));
    assert_eq!(ball.position, (11, 0));
}

#[test]
fn ball_hitting_the_paddle_goes_up() {
    let paddle = Paddle::new(17, 2, white());
    let mut ball = Ball::new(&paddle, 1, 1, white());
    ball.attached = false;
    ball.position = (50, 97);
    ball.speed = (0, 1);
    ball.update(&paddle);
    assert_eq!(ball.speed, (0, -1));
    ball.position = (58, 97);
    ball.speed = (1, 1);
    ball.update(&paddle);
    assert_eq!(ball.speed, (3, -1));
    ball.position = (43, 97);
    ball.speed = (-1, 1);
    ball.update(&paddle);
    assert_eq!(ball.speed, (-3, -1));
}

#[test]
fn ball_below_the_bottom_comes_to_rest() {
    let paddle = Paddle::new(17, 2, white());
    let mut ball = Ball::new(&paddle, 1, 1, white());
    ball.attached = false;
    ball.position = (10, 99);
    ball.speed = (0, 1);
    ball.update(&paddle);
    assert!(ball.attached);
    assert_eq!(ball.speed, (0, 0));
    assert_eq!(ball.position, (10, 100));
}

#[test]
fn bricks_collide_render_and_break() {
    let paddle = Paddle::new(17, 2, white());
    let mut ball = Ball::new(&paddle, 1, 1, white());
    let mut brick = Brick::new(5, 5, 7, 2, Color::from_rgb(255, 48, 128));
    ball.position = (12, 7);
    assert!(brick.colides_with_ball(&ball));
    ball.position = (13, 7);
    assert!(!brick.colides_with_ball(&ball));
    ball.position = (5, 5);
    assert!(brick.colides_with_ball(&ball));

    let mut canvas = InMemoryCanvas::new(20, 10, &Color::from_rgb(0, 0, 0));
    brick.render(&mut canvas);
    assert_eq!(*canvas.get(11, 6), Color::from_rgb(255, 48, 128));
    assert_eq!(*canvas.get(12, 6), Color::from_rgb(0, 0, 0));

    brick.destroy();
    assert!(!brick.colides_with_ball(&ball));
    let mut fresh = InMemoryCanvas::new(20, 10, &Color::from_rgb(0, 0, 0));
    brick.render(&mut fresh);
    assert_eq!(*fresh.get(6, 6), Color::from_rgb(0, 0, 0));
}

#[test]
fn paddle_and_ball_render() {
    let paddle = Paddle::new(17, 2, white());
    let ball = Ball::new(&paddle, 1, 1, Color::from_rgb(255, 128, 0));
    let mut canvas = InMemoryCanvas::new(100, 100, &Color::from_rgb(0, 0, 0));
    paddle.render(&mut canvas);
    ball.render(&mut canvas);
    assert_eq!(*canvas.get(42, 98), white());
    assert_eq!(*canvas.get(58, 99), white());
    assert_eq!(*canvas.get(59, 99), Color::from_rgb(0, 0, 0));
    assert_eq!(*canvas.get(50, 97), Color::from_rgb(255, 128, 0));
}

#[test]
fn tetromino_colors_and_types() {
    assert_eq!(TetrominoColor::from_num_color(0), TetrominoColor::Red);
    assert_eq!(TetrominoColor::from_num_color(7), TetrominoColor::Orange);
    assert_eq!(TetrominoColor::from_num_color(200), TetrominoColor::White);
    assert_eq!(TetrominoColor::Orange.as_color(), Color::from_rgb(255, 165, 0));
    assert_eq!(TetrominoColor::Cyan.as_color(), Color::from_rgb(0, 255, 255));
    assert_eq!(TetrominoType::from_num_type(6), TetrominoType::HalfCross);
    assert_eq!(TetrominoType::from_num_type(99), TetrominoType::Square);
    let step = AnimStep::from_numeric(2, 5, 4, 16, 1);
    assert_eq!(step.tt, TetrominoType::LShapeReverse);
    assert_eq!(step.tcolor, TetrominoColor::Cyan);
    assert_eq!((step.x_pos, step.y_stop, step.rotation), (4, 16, 1));
}

#[test]
fn tetromino_draw_places_tinted_blocks() {
    let block = InMemoryCanvas::new(2, 2, &white());
    let black = Color::from_rgb(0, 0, 0);
    let red = Color::from_rgb(255, 0, 0);
    let mut canvas = InMemoryCanvas::new(8, 8, &black);
    TetrominoType::Square.draw(&mut canvas, &block, 0, 6, &red, 0);
    for y in 0..8u32 {
        for x in 0..8u32 {
            let expected = if x < 4 && y >= 4 { red } else { black };
            assert_eq!(*canvas.get(x, y), expected, "pixel ({x}, {y})");
        }
    }
    let mut other = InMemoryCanvas::new(8, 8, &black);
    TetrominoType::IShape.draw(&mut other, &block, 0, 6, &red, 1);
    for y in 0..8u32 {
        for x in 0..8u32 {
            let expected = if x < 2 { red } else { black };
            assert_eq!(*other.get(x, y), expected, "pixel ({x}, {y})");
        }
    }
    let mut untouched = InMemoryCanvas::new(8, 8, &black);
    TetrominoType::LShape.draw(&mut untouched, &block, 0, 6, &red, 7);
    assert!(untouched.get_range(0..64).iter().all(|c| *c == black));
}

#[test]
fn tetromino_block_offsets() {
    assert_eq!(TetrominoType::CornerShape.block_offsets(2, 16, 16), vec![(16, 0), (16, -16), (0, -16)]);
    assert_eq!(TetrominoType::Square.block_offsets(3, 4, 5), vec![(0, 0), (4, 0), (0, -4), (4, -5)]);
    assert!(TetrominoType::HalfCross.block_offsets(4, 16, 16).is_empty());
}

#[test]
fn digit_animations() {
    let one = from_digit(1);
    assert_eq!(one.len(), 5);
    assert_eq!(one[0], AnimStep::from_numeric(2, 5, 4, 16, 0));
    assert_eq!(one[4], AnimStep::from_numeric(0, 0, 4, 8, 0));
    let lengths: Vec<usize> = (0..10u8).map(|d| from_digit(d).len()).collect();
    assert_eq!(lengths, vec![12, 5, 11, 11, 9, 11, 12, 7, 13, 12]);
    assert_eq!(from_digit(8)[12], AnimStep::from_numeric(1, 2, 4, 9, 2));
}
