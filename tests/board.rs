use pixel_loop::board::{would_tetromino_collide_with_canvas, Board, Tetromino};
use pixel_loop::canvas::Canvas;
use pixel_loop::color::Color;
use pixel_loop::in_memory::InMemoryCanvas;
use pixel_loop::tetromino::{Rotation, Shape};

fn black() -> Color {
    Color::from_rgb(0, 0, 0)
}

fn red() -> Color {
    Color::from_rgb(255, 0, 0)
}

fn red_pixels(canvas: &InMemoryCanvas) -> Vec<(u32, u32)> {
    let mut v = vec![];
    for y in 0..canvas.height() {
        for x in 0..canvas.width() {
            if *canvas.get(x, y) == red() {
                v.push((x, y));
            }
        }
    }
    v
}

#[test]
fn board_renders_pieces() {
    let mut board = Board::new();
    board.add_tetromino(2, 5, red(), Shape::Square, Rotation::Degrees90);
    board.add_tetromino(6, 10, red(), Shape::L, Rotation::NoRotation);
    let mut canvas = InMemoryCanvas::new(10, 50, &black());
    board.render(&mut canvas);
    assert_eq!(
        red_pixels(&canvas),
        vec![(2, 3), (3, 3), (2, 4), (3, 4), (6, 8), (7, 8), (8, 8), (6, 9)]
    );
}

#[test]
fn pieces_fall_until_blocked() {
    let mut board = Board::new();
    board.add_tetromino(2, 5, red(), Shape::Straight, Rotation::Degrees90);
    let mut ground = InMemoryCanvas::new(10, 50, &black());
    ground.set(2, 7, &Color::from_rgb(1, 1, 1));
    board.update(&ground);
    board.update(&ground);
    board.update(&ground);
    board.update(&ground);
    let mut canvas = InMemoryCanvas::new(10, 50, &black());
    board.render(&mut canvas);
    assert_eq!(red_pixels(&canvas), vec![(2, 3), (2, 4), (2, 5), (2, 6)]);
}

#[test]
fn pieces_stop_at_the_stop_row() {
    let mut board = Board::new();
    board.add_tetromino(0, 38, red(), Shape::Straight, Rotation::NoRotation);
    let empty = InMemoryCanvas::new(10, 60, &black());
    for _ in 0..5 {
        board.update(&empty);
    }
    let mut canvas = InMemoryCanvas::new(10, 60, &black());
    board.render(&mut canvas);
    assert_eq!(red_pixels(&canvas), vec![(0, 39), (1, 39), (2, 39), (3, 39)]);
}

#[test]
fn collision_checks_the_cells_below() {
    let t = Tetromino { shape: Shape::T, rotation: Rotation::NoRotation, x: 3, y: 3, color: red(), stopped: false };
    let mut canvas = InMemoryCanvas::new(8, 8, &black());
    assert!(!would_tetromino_collide_with_canvas(&t, &canvas));
    canvas.set(2, 2, &red());
    assert!(would_tetromino_collide_with_canvas(&t, &canvas));
    let edge = Tetromino { x: 7, ..t };
    let empty = InMemoryCanvas::new(8, 8, &black());
    assert!(!would_tetromino_collide_with_canvas(&edge, &empty));
}
