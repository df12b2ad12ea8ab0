use vstd::prelude::*;

verus! {

use crate::geometry::{Block, Color, Direction};
use crate::geometry::{moved_x, moved_y, opposite, snake_color};
use crate::geometry::{BLOCK_SIZE, SCREEN_HEIGHT, SCREEN_WIDTH};

/// How many segments nearest the head the self-collision scan skips: they
/// are geometrically too close to ever legitimately overlap the head under
/// normal movement, and skipping them avoids false positives from the
/// body's own previous-tick position.  Kept equal to `START_LENGTH`.
pub const SELF_COLLISION_SKIP: usize = 3;

/// How many segments a snake has at startup.
pub const START_LENGTH: usize = 3;

/// Whether two blocks occupy the same grid cell (colors are not compared).
pub open spec fn same_cell(a: Block, b: Block) -> bool {
    a.x == b.x && a.y == b.y
}

/// The body after one simultaneous shift in direction `d`: the head advances
/// one cell, every other segment takes the position the segment ahead of it
/// occupied, and every segment keeps its own color.
pub open spec fn shift_seq(s: Seq<Block>, d: Direction) -> Seq<Block> {
    Seq::new(
        s.len(),
        |i: int|
            if i == 0 {
                Block {
                    x: moved_x(s[0].x as int, d) as i32,
                    y: moved_y(s[0].y as int, d) as i32,
                    color: s[0].color,
                }
            } else {
                Block { x: s[i - 1].x, y: s[i - 1].y, color: s[i].color }
            },
    )
}

/// Whether the head has left the inclusive playfield bounds.  The check is
/// on the block's origin corner, not its far edge.
pub open spec fn wall_hit(head: Block) -> bool {
    head.x < 0 || head.x > SCREEN_WIDTH || head.y < 0 || head.y > SCREEN_HEIGHT
}

/// Whether the head overlaps any body segment beyond the exclusion window
/// of the `SELF_COLLISION_SKIP` segments nearest it.
pub open spec fn self_hit(s: Seq<Block>) -> bool {
    exists|i: int|
        SELF_COLLISION_SKIP <= i < s.len() && same_cell(#[trigger] s[i], s[0])
}

/// Whether two blocks are exactly one cell apart along one axis.
pub open spec fn adjacent(a: Block, b: Block) -> bool {
    ||| (a.x == b.x && (a.y - b.y == BLOCK_SIZE || b.y - a.y == BLOCK_SIZE))
    ||| (a.y == b.y && (a.x - b.x == BLOCK_SIZE || b.x - a.x == BLOCK_SIZE))
}

/// Whether consecutive segments are each exactly one cell apart: the body
/// is a connected chain with no gaps.
pub open spec fn connected_chain(s: Seq<Block>) -> bool {
    forall|i: int| 0 <= i < s.len() - 1 ==> adjacent(#[trigger] s[i], s[i + 1])
}

/// Advance the whole body one cell in `direction` as a simultaneous shift:
/// every segment reads its predecessor's old position before any write, so
/// no segment ever sees an in-tick transient position.
pub fn move_player(snake: &mut Vec<Block>, direction: &Direction)
    requires
        old(snake)@.len() >= 1,
        i32::MIN <= moved_x(old(snake)@[0].x as int, *direction) <= i32::MAX,
        i32::MIN <= moved_y(old(snake)@[0].y as int, *direction) <= i32::MAX,
    ensures
        final(snake)@ == shift_seq(old(snake)@, *direction),
{
    let ghost orig = snake@;
    let d = *direction;
    let head = snake[0];
    let (mut future_x, mut future_y): (i32, i32) = match d {
        Direction::Up => (head.x, head.y - BLOCK_SIZE),
        Direction::Down => (head.x, head.y + BLOCK_SIZE),
        Direction::Left => (head.x - BLOCK_SIZE, head.y),
        Direction::Right => (head.x + BLOCK_SIZE, head.y),
    };
    let n = snake.len();
    let mut i: usize = 0;
    while i < n
        invariant
            n == orig.len(),
            snake@.len() == n,
            i <= n,
            forall|j: int| 0 <= j < i ==> snake@[j] == shift_seq(orig, d)[j],
            forall|j: int| i <= j < n ==> snake@[j] == orig[j],
            i < n ==> future_x as int == (if i == 0 {
                moved_x(orig[0].x as int, d)
            } else {
                orig[i - 1].x as int
            }),
            i < n ==> future_y as int == (if i == 0 {
                moved_y(orig[0].y as int, d)
            } else {
                orig[i - 1].y as int
            }),
        decreases n - i,
    {
        let cur = snake[i];
        snake[i] = Block { x: future_x, y: future_y, color: cur.color };
        future_x = cur.x;
        future_y = cur.y;
        i = i + 1;
    }
    assert(snake@ =~= shift_seq(orig, d));
}

/// Test the head against the walls and against the body beyond the
/// exclusion window; either match means game over.
pub fn collision(snake: &Vec<Block>) -> (r: bool)
    requires
        snake@.len() >= 1,
    ensures
        r == (wall_hit(snake@[0]) || self_hit(snake@)),
{
    let mut hit = false;
    let head = snake[0];

    if head.x < 0 || head.x > SCREEN_WIDTH {
        hit = true;
    } else if head.y < 0 || head.y > SCREEN_HEIGHT {
        hit = true;
    }

    let n = snake.len();
    let mut i: usize = SELF_COLLISION_SKIP;
    while i < n
        invariant
            n == snake@.len(),
            n >= 1,
            SELF_COLLISION_SKIP <= i,
            i <= n || i == SELF_COLLISION_SKIP,
            head == snake@[0],
            hit == (wall_hit(snake@[0]) || exists|j: int|
                SELF_COLLISION_SKIP <= j < i && same_cell(#[trigger] snake@[j], snake@[0])),
        decreases n - i,
    {
        if snake[i].x == head.x && snake[i].y == head.y {
            hit = true;
        }
        i = i + 1;
    }
    hit
}

/// Whether the head has landed on the apple: exact grid-cell equality.
pub fn score(snake: &Vec<Block>, apple: &Block) -> (r: bool)
    requires
        snake@.len() >= 1,
    ensures
        r == same_cell(snake@[0], *apple),
{
    let head = snake[0];
    head.x == apple.x && head.y == apple.y
}

/// Build the segment appended on growth: one cell beyond the current tail,
/// opposite the direction of travel, so it trails the body.
pub fn add_block(snake: &Vec<Block>, direction: &Direction) -> (b: Block)
    requires
        snake@.len() >= 1,
        i32::MIN <= moved_x(snake@[snake@.len() - 1].x as int, opposite(*direction)) <= i32::MAX,
        i32::MIN <= moved_y(snake@[snake@.len() - 1].y as int, opposite(*direction)) <= i32::MAX,
    ensures
        b.x as int == moved_x(snake@[snake@.len() - 1].x as int, opposite(*direction)),
        b.y as int == moved_y(snake@[snake@.len() - 1].y as int, opposite(*direction)),
        b.color == snake_color(),
{
    let last = snake[snake.len() - 1];
    let color = Color { r: 123, g: 145, b: 123 };

    match direction {
        Direction::Up => Block { x: last.x, y: last.y + BLOCK_SIZE, color },
        Direction::Down => Block { x: last.x, y: last.y - BLOCK_SIZE, color },
        Direction::Left => Block { x: last.x + BLOCK_SIZE, y: last.y, color },
        Direction::Right => Block { x: last.x - BLOCK_SIZE, y: last.y, color },
    }
}

/// Law: a shift in any direction keeps the body a connected chain with
/// consecutive segments exactly one cell apart, when no growth occurs.
pub proof fn lemma_move_preserves_chain(s: Seq<Block>, d: Direction)
    requires
        s.len() >= 1,
        connected_chain(s),
        i32::MIN <= moved_x(s[0].x as int, d) <= i32::MAX,
        i32::MIN <= moved_y(s[0].y as int, d) <= i32::MAX,
    ensures
        connected_chain(shift_seq(s, d)),
{
    let t = shift_seq(s, d);
    assert forall|i: int| 0 <= i < t.len() - 1 implies adjacent(#[trigger] t[i], t[i + 1]) by {
        if i == 0 {
            assert(t[1] == (Block { x: s[0].x, y: s[0].y, color: s[1].color }));
            assert(adjacent(t[0], t[1]));
        } else {
            assert(adjacent(s[i - 1], s[i]));
        }
    }
}

/// Law: a match between the head and any of the `SELF_COLLISION_SKIP`
/// segments nearest it is never signaled as a self-collision.
pub proof fn lemma_near_head_never_self_hit(s: Seq<Block>)
    requires
        forall|i: int| SELF_COLLISION_SKIP <= i < s.len() ==> !same_cell(#[trigger] s[i], s[0]),
    ensures
        !self_hit(s),
{
}

} // verus!
