use vstd::prelude::*;

verus! {

/// Width of the playfield in pixels.
pub const SCREEN_WIDTH: i32 = 600;
/// Height of the playfield in pixels.
pub const SCREEN_HEIGHT: i32 = 650;
/// Side length of one grid cell; every position is a multiple of this.
pub const BLOCK_SIZE: i32 = 25;
/// x coordinate of the tail of the starting snake.
pub const START_X: i32 = 150;
/// y coordinate of the starting snake.
pub const START_Y: i32 = 150;

/// Direction of travel of the snake's head.
#[derive(Clone, Copy, PartialEq, Eq, Structural, Debug)]
pub enum Direction {
    Up,
    Down,
    Left,
    Right,
}

/// An RGB color tag carried by each drawable block.
#[derive(Clone, Copy, PartialEq, Eq, Structural, Debug)]
pub struct Color {
    pub r: u8,
    pub g: u8,
    pub b: u8,
}

/// One grid-aligned cell: a position plus the color it is drawn with.
#[derive(Clone, Copy, PartialEq, Eq, Structural, Debug)]
pub struct Block {
    pub x: i32,
    pub y: i32,
    pub color: Color,
}

/// The color every snake segment is drawn with.
pub open spec fn snake_color() -> Color {
    Color { r: 123, g: 145, b: 123 }
}

/// The color the food is drawn with.
pub open spec fn apple_color() -> Color {
    Color { r: 214, g: 41, b: 41 }
}

/// The x coordinate one cell of travel from `x` in direction `d`.
pub open spec fn moved_x(x: int, d: Direction) -> int {
    match d {
        Direction::Left => x - BLOCK_SIZE,
        Direction::Right => x + BLOCK_SIZE,
        _ => x,
    }
}

/// The y coordinate one cell of travel from `y` in direction `d`.
pub open spec fn moved_y(y: int, d: Direction) -> int {
    match d {
        Direction::Up => y - BLOCK_SIZE,
        Direction::Down => y + BLOCK_SIZE,
        _ => y,
    }
}

/// The direction opposite to `d`.
pub open spec fn opposite(d: Direction) -> Direction {
    match d {
        Direction::Up => Direction::Down,
        Direction::Down => Direction::Up,
        Direction::Left => Direction::Right,
        Direction::Right => Direction::Left,
    }
}

/// Law: one cell of travel in direction `d` followed by one cell of travel
/// in the opposite direction returns a position to where it started.
pub proof fn lemma_step_then_opposite_returns(x: int, y: int, d: Direction)
    ensures
        moved_x(moved_x(x, d), opposite(d)) == x,
        moved_y(moved_y(y, d), opposite(d)) == y,
{
}

} // verus!
