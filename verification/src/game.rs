use vstd::prelude::*;

verus! {

use crate::geometry::{Block, Color, Direction};
use crate::geometry::{apple_color, moved_x, moved_y, opposite, snake_color};
use crate::geometry::{BLOCK_SIZE, SCREEN_HEIGHT, SCREEN_WIDTH, START_X, START_Y};
use crate::snake::{add_block, collision, move_player, score};
use crate::snake::{adjacent, connected_chain, lemma_move_preserves_chain};
use crate::snake::{same_cell, self_hit, shift_seq, wall_hit};
use crate::snake::START_LENGTH;
use crate::spawn::{aligned, random_point, valid_food_pos};

/// The two states of the game loop; `GameOver` is terminal.
#[derive(Clone, Copy, PartialEq, Eq, Structural, Debug)]
pub enum Status {
    Running,
    GameOver,
}

/// The one input event a tick may consume: a quit intent or a new
/// direction of travel.
#[derive(Clone, Copy, PartialEq, Eq, Structural, Debug)]
pub enum GameInput {
    Quit,
    Turn(Direction),
}

/// Everything the game loop owns: the body, the food, the direction of
/// travel, the score and whether the game is still running.
pub struct GameState {
    pub snake: Vec<Block>,
    pub apple: Block,
    pub direction: Direction,
    pub scores: u32,
    pub status: Status,
}

/// Whether a block's origin corner lies on the playfield (inclusive bounds,
/// exactly the complement of `wall_hit`).
pub open spec fn in_board(b: Block) -> bool {
    0 <= b.x <= SCREEN_WIDTH && 0 <= b.y <= SCREEN_HEIGHT
}

/// Whether a block lies within one cell of the playfield: where a segment
/// appended at the tail's far side can land.
pub open spec fn in_margin(b: Block) -> bool {
    -BLOCK_SIZE <= b.x <= SCREEN_WIDTH + BLOCK_SIZE && -BLOCK_SIZE <= b.y <= SCREEN_HEIGHT
        + BLOCK_SIZE
}

/// The segment appended when the snake grows: one cell beyond the tail of
/// the already-moved body `s`, opposite the direction of travel `d`.
pub open spec fn grow_block(s: Seq<Block>, d: Direction) -> Block {
    Block {
        x: moved_x(s[s.len() - 1].x as int, opposite(d)) as i32,
        y: moved_y(s[s.len() - 1].y as int, opposite(d)) as i32,
        color: snake_color(),
    }
}

/// The direction a tick travels in: a turn input replaces the stored
/// direction, anything else keeps it.
pub open spec fn effective_direction(pre: GameState, input: Option<GameInput>) -> Direction {
    match input {
        Some(GameInput::Turn(d)) => d,
        _ => pre.direction,
    }
}

/// Whether two states hold exactly the same values, field for field.
pub open spec fn same_state(a: GameState, b: GameState) -> bool {
    &&& a.snake@ == b.snake@
    &&& a.apple == b.apple
    &&& a.direction == b.direction
    &&& a.scores == b.scores
    &&& a.status == b.status
}

impl GameState {
    /// The invariant a running game keeps: a nonempty grid-aligned body
    /// whose head and interior lie on the playfield, whose tail lies at
    /// most one cell outside it, consecutive segments one cell apart, and
    /// food at a position the spawner could have produced.
    pub open spec fn running_inv(self) -> bool {
        &&& self.snake@.len() >= 1
        &&& in_board(self.snake@[0])
        &&& forall|i: int| 0 <= i < self.snake@.len() - 1 ==> in_board(#[trigger] self.snake@[i])
        &&& in_margin(self.snake@[self.snake@.len() - 1])
        &&& forall|i: int|
            0 <= i < self.snake@.len() ==> aligned(#[trigger] self.snake@[i].x as int) && aligned(
                self.snake@[i].y as int,
            )
        &&& connected_chain(self.snake@)
        &&& valid_food_pos(self.apple.x as int, self.apple.y as int)
    }

    /// Well-formedness: the running invariant, or the terminal state.
    pub open spec fn wf(self) -> bool {
        self.status == Status::GameOver || self.running_inv()
    }
}

/// The complete per-tick transition: what one call of `tick_with` does to a
/// state, given the input event consumed and the position `(ax, ay)` the
/// food respawns at if it is eaten.
pub open spec fn tick_rel(
    pre: GameState,
    input: Option<GameInput>,
    ax: int,
    ay: int,
    post: GameState,
) -> bool {
    if pre.status == Status::GameOver {
        same_state(post, pre)
    } else if input == Some(GameInput::Quit) {
        &&& post.snake@ == pre.snake@
        &&& post.apple == pre.apple
        &&& post.direction == pre.direction
        &&& post.scores == pre.scores
        &&& post.status == Status::GameOver
    } else {
        let d = effective_direction(pre, input);
        let moved = shift_seq(pre.snake@, d);
        let hit = wall_hit(moved[0]) || self_hit(moved);
        let ate = same_cell(moved[0], pre.apple);
        &&& post.direction == d
        &&& post.status == (if hit {
            Status::GameOver
        } else {
            Status::Running
        })
        &&& post.scores == pre.scores + (if ate {
            1int
        } else {
            0int
        })
        &&& post.apple == (if ate {
            Block { x: ax as i32, y: ay as i32, color: apple_color() }
        } else {
            pre.apple
        })
        &&& post.snake@ == (if ate {
            moved.push(grow_block(moved, d))
        } else {
            moved
        })
    }
}

/// A grid-aligned coordinate stays grid-aligned after one cell of travel.
proof fn lemma_aligned_moved(v: int, d: Direction)
    requires
        aligned(v),
    ensures
        aligned(moved_x(v, d)),
        aligned(moved_y(v, d)),
{
}

/// Facts about the body right after a shift from a well-formed running
/// state: lengths, bounds, alignment and connectedness.
proof fn lemma_moved_in_bounds(pre: GameState, d: Direction)
    requires
        pre.running_inv(),
    ensures
        ({
            let moved = shift_seq(pre.snake@, d);
            &&& moved.len() == pre.snake@.len()
            &&& moved[0].x as int == moved_x(pre.snake@[0].x as int, d)
            &&& moved[0].y as int == moved_y(pre.snake@[0].y as int, d)
            &&& in_margin(moved[0])
            &&& forall|i: int| 1 <= i < moved.len() ==> in_board(#[trigger] moved[i])
            &&& forall|i: int|
                0 <= i < moved.len() ==> aligned(#[trigger] moved[i].x as int) && aligned(
                    moved[i].y as int,
                )
            &&& connected_chain(moved)
        }),
{
    let s = pre.snake@;
    let moved = shift_seq(s, d);
    assert(in_board(s[0]));
    lemma_move_preserves_chain(s, d);
    assert forall|i: int| 1 <= i < moved.len() implies in_board(#[trigger] moved[i]) by {
        assert(moved[i] == (Block { x: s[i - 1].x, y: s[i - 1].y, color: s[i].color }));
        if i - 1 == 0 {
            assert(in_board(s[0]));
        } else {
            assert(in_board(s[i - 1]));
        }
    }
    assert forall|i: int|
        0 <= i < moved.len() implies aligned(#[trigger] moved[i].x as int) && aligned(
        moved[i].y as int,
    ) by {
        if i == 0 {
            lemma_aligned_moved(s[0].x as int, d);
            lemma_aligned_moved(s[0].y as int, d);
        } else {
            assert(aligned(s[i - 1].x as int) && aligned(s[i - 1].y as int));
        }
    }
}

/// The running invariant holds again after a tick that survives its
/// collision check, whether or not the body grew.
proof fn lemma_post_running_inv(pre: GameState, d: Direction, post: GameState)
    requires
        pre.running_inv(),
        ({
            let moved = shift_seq(pre.snake@, d);
            &&& !wall_hit(moved[0])
            &&& post.snake@ == (if same_cell(moved[0], pre.apple) {
                moved.push(grow_block(moved, d))
            } else {
                moved
            })
        }),
        valid_food_pos(post.apple.x as int, post.apple.y as int),
    ensures
        post.running_inv(),
{
    let s = pre.snake@;
    let moved = shift_seq(s, d);
    let t = post.snake@;
    lemma_moved_in_bounds(pre, d);
    assert(in_board(moved[0]));
    let ate = same_cell(moved[0], pre.apple);
    if ate {
        let n = moved.len();
        let gb = grow_block(moved, d);
        // The tail of the shifted body is on the board: for a longer body it
        // is a former interior segment, for a single-segment body it is the
        // head itself.
        assert(in_board(moved[n - 1])) by {
            if n >= 2 {
                assert(moved[n - 1] == (Block {
                    x: s[n - 2].x,
                    y: s[n - 2].y,
                    color: s[n - 1].color,
                }));
                assert(in_board(s[n - 2]));
            }
        }
        assert(in_margin(gb));
        assert(aligned(gb.x as int) && aligned(gb.y as int)) by {
            lemma_aligned_moved(moved[n - 1].x as int, opposite(d));
            lemma_aligned_moved(moved[n - 1].y as int, opposite(d));
        }
        assert(adjacent(moved[n - 1], gb));
        assert(t.len() == n + 1);
        assert forall|i: int| 0 <= i < t.len() - 1 implies in_board(#[trigger] t[i]) by {
            assert(t[i] == moved[i]);
        }
        assert forall|i: int|
            0 <= i < t.len() implies aligned(#[trigger] t[i].x as int) && aligned(
            t[i].y as int,
        ) by {
            if i < n {
                assert(t[i] == moved[i]);
            } else {
                assert(t[i] == gb);
            }
        }
        assert(connected_chain(t)) by {
            assert forall|i: int| 0 <= i < t.len() - 1 implies adjacent(
                #[trigger] t[i],
                t[i + 1],
            ) by {
                if i < n - 1 {
                    assert(t[i] == moved[i] && t[i + 1] == moved[i + 1]);
                    assert(adjacent(moved[i], moved[i + 1]));
                } else {
                    assert(t[i] == moved[n - 1] && t[i + 1] == gb);
                }
            }
        }
    } else {
        assert(t.len() >= 1);
        assert(in_margin(t[t.len() - 1])) by {
            if t.len() >= 2 {
                assert(in_board(moved[t.len() - 1]));
            }
        }
        assert forall|i: int| 0 <= i < t.len() - 1 implies in_board(#[trigger] t[i]) by {
            if i >= 1 {
                assert(in_board(moved[i]));
            }
        }
    }
}

/// Law: on a running tick that is not a quit, landing the head on the food
/// grows the body by exactly one segment and the score by exactly one, and
/// the food moves to the freshly drawn position — so whenever that draw
/// differs from the old food position, the food position changes.  A tick
/// that eats nothing leaves body length, score and food untouched.
pub proof fn lemma_eating_grows(
    pre: GameState,
    input: Option<GameInput>,
    ax: int,
    ay: int,
    post: GameState,
)
    requires
        pre.status == Status::Running,
        pre.snake@.len() >= 1,
        input != Some(GameInput::Quit),
        valid_food_pos(ax, ay),
        tick_rel(pre, input, ax, ay, post),
    ensures
        same_cell(shift_seq(pre.snake@, effective_direction(pre, input))[0], pre.apple) ==> {
            &&& post.snake@.len() == pre.snake@.len() + 1
            &&& post.scores == pre.scores + 1
            &&& post.apple.x == ax && post.apple.y == ay
            &&& (ax != pre.apple.x || ay != pre.apple.y) ==> !same_cell(post.apple, pre.apple)
        },
        !same_cell(shift_seq(pre.snake@, effective_direction(pre, input))[0], pre.apple) ==> {
            &&& post.snake@.len() == pre.snake@.len()
            &&& post.scores == pre.scores
            &&& post.apple == pre.apple
        },
{
}

/// Law: in any well-formed running state the food position is grid-aligned
/// and lies strictly within the one-cell border of the playfield.
pub proof fn lemma_food_valid(g: GameState)
    requires
        g.wf(),
        g.status == Status::Running,
    ensures
        aligned(g.apple.x as int),
        aligned(g.apple.y as int),
        BLOCK_SIZE <= g.apple.x < SCREEN_WIDTH - BLOCK_SIZE,
        BLOCK_SIZE <= g.apple.y < SCREEN_HEIGHT - BLOCK_SIZE,
{
}

impl GameState {
    /// The start-of-game state: a three-segment snake lying level at the
    /// starting position with its head to the right, heading right, score
    /// zero, running, and food at a random valid position.
    pub fn new() -> (g: GameState)
        ensures
            g.wf(),
            g.status == Status::Running,
            g.direction == Direction::Right,
            g.scores == 0,
            g.snake@.len() == START_LENGTH,
            forall|i: int|
                0 <= i < START_LENGTH ==> #[trigger] g.snake@[i] == (Block {
                    x: (START_X + (START_LENGTH - 1 - i) * BLOCK_SIZE) as i32,
                    y: START_Y,
                    color: snake_color(),
                }),
            valid_food_pos(g.apple.x as int, g.apple.y as int),
            g.apple.color == apple_color(),
    {
        let color = Color { r: 123, g: 145, b: 123 };
        let mut snake: Vec<Block> = Vec::new();
        snake.push(Block { x: START_X + 2 * BLOCK_SIZE, y: START_Y, color });
        snake.push(Block { x: START_X + BLOCK_SIZE, y: START_Y, color });
        snake.push(Block { x: START_X, y: START_Y, color });

        let p = random_point();
        let apple = Block { x: p.0, y: p.1, color: Color { r: 214, g: 41, b: 41 } };

        let g = GameState {
            snake,
            apple,
            direction: Direction::Right,
            scores: 0,
            status: Status::Running,
        };
        g
    }

    /// One tick of the update engine, with the food's respawn position
    /// passed in: consume the input event, move the body, detect wall and
    /// self collision, then detect food consumption and conditionally
    /// grow the body and place the food at `(apple_x, apple_y)`.
    pub fn tick_with(&mut self, input: Option<GameInput>, apple_x: i32, apple_y: i32)
        requires
            old(self).wf(),
            old(self).scores < u32::MAX,
            valid_food_pos(apple_x as int, apple_y as int),
        ensures
            tick_rel(*old(self), input, apple_x as int, apple_y as int, *final(self)),
            final(self).wf(),
    {
        match self.status {
            Status::GameOver => {
                return;
            },
            Status::Running => {},
        }
        match input {
            Some(GameInput::Quit) => {
                self.status = Status::GameOver;
                return;
            },
            Some(GameInput::Turn(d)) => {
                self.direction = d;
            },
            None => {},
        }
        let ghost pre = *old(self);
        let d = self.direction;
        move_player(&mut self.snake, &d);
        let ghost moved = shift_seq(pre.snake@, d);
        proof {
            assert(self.snake@ == moved);
            lemma_moved_in_bounds(pre, d);
        }

        if collision(&self.snake) {
            self.status = Status::GameOver;
        }

        if score(&self.snake, &self.apple) {
            self.scores = self.scores + 1;
            self.apple = Block { x: apple_x, y: apple_y, color: Color { r: 214, g: 41, b: 41 } };
            let new_block = add_block(&self.snake, &d);
            proof {
                assert(same_cell(moved[0], pre.apple));
                assert(in_board(moved[moved.len() - 1]));
                assert(new_block == grow_block(moved, d));
            }
            self.snake.push(new_block);
            proof {
                assert(self.snake@ == moved.push(grow_block(moved, d)));
            }
        }
        proof {
            if self.status == Status::Running {
                lemma_post_running_inv(pre, d, *self);
            }
        }
    }

    /// One tick of the update engine, respawning eaten food at a fresh
    /// random position.
    pub fn tick(&mut self, input: Option<GameInput>)
        requires
            old(self).wf(),
            old(self).scores < u32::MAX,
        ensures
            final(self).wf(),
            exists|ax: int, ay: int|
                valid_food_pos(ax, ay) && #[trigger] tick_rel(
                    *old(self),
                    input,
                    ax,
                    ay,
                    *final(self),
                ),
    {
        let p = random_point();
        self.tick_with(input, p.0, p.1);
        proof {
            assert(valid_food_pos(p.0 as int, p.1 as int) && tick_rel(
                *old(self),
                input,
                p.0 as int,
                p.1 as int,
                *self,
            ));
        }
    }
}

} // verus!
