use snake_game::game::{GameInput, GameState, Status};
use snake_game::geometry::{Block, Color, Direction};
use snake_game::geometry::{BLOCK_SIZE, SCREEN_HEIGHT, SCREEN_WIDTH};
use snake_game::{add_block, collision, move_player, random_point, score};

fn snake_color() -> Color {
    Color { r: 123, g: 145, b: 123 }
}

fn apple_color() -> Color {
    Color { r: 214, g: 41, b: 41 }
}

fn seg(x: i32, y: i32) -> Block {
    Block { x, y, color: snake_color() }
}

/// A three-segment snake heading right, head first.
fn row_snake(head_x: i32, y: i32) -> Vec<Block> {
    vec![
        seg(head_x, y),
        seg(head_x - BLOCK_SIZE, y),
        seg(head_x - 2 * BLOCK_SIZE, y),
    ]
}

fn state(snake: Vec<Block>, apple_x: i32, apple_y: i32, direction: Direction) -> GameState {
    GameState {
        snake,
        apple: Block { x: apple_x, y: apple_y, color: apple_color() },
        direction,
        scores: 0,
        status: Status::Running,
    }
}

#[test]
fn move_shifts_every_segment() {
    let mut snake = row_snake(150, 150);
    move_player(&mut snake, &Direction::Right);
    assert_eq!(snake.len(), 3);
    assert_eq!((snake[0].x, snake[0].y), (175, 150));
    assert_eq!((snake[1].x, snake[1].y), (150, 150));
    assert_eq!((snake[2].x, snake[2].y), (125, 150));
}

#[test]
fn move_each_direction_offsets_head_one_cell() {
    for (d, dx, dy) in [
        (Direction::Up, 0, -BLOCK_SIZE),
        (Direction::Down, 0, BLOCK_SIZE),
        (Direction::Left, -BLOCK_SIZE, 0),
        (Direction::Right, BLOCK_SIZE, 0),
    ] {
        let mut snake = row_snake(300, 300);
        move_player(&mut snake, &d);
        assert_eq!((snake[0].x, snake[0].y), (300 + dx, 300 + dy));
    }
}

#[test]
fn move_keeps_body_a_connected_chain() {
    let mut snake = row_snake(150, 150);
    for d in [Direction::Right, Direction::Down, Direction::Down, Direction::Left] {
        move_player(&mut snake, &d);
        for i in 0..snake.len() - 1 {
            let dx = (snake[i].x - snake[i + 1].x).abs();
            let dy = (snake[i].y - snake[i + 1].y).abs();
            assert_eq!(dx + dy, BLOCK_SIZE, "gap between segments {} and {}", i, i + 1);
        }
    }
}

#[test]
fn move_then_opposite_returns_head() {
    let pairs = [
        (Direction::Up, Direction::Down),
        (Direction::Down, Direction::Up),
        (Direction::Left, Direction::Right),
        (Direction::Right, Direction::Left),
    ];
    for (d, back) in pairs {
        let mut snake = row_snake(150, 150);
        move_player(&mut snake, &d);
        move_player(&mut snake, &back);
        assert_eq!((snake[0].x, snake[0].y), (150, 150));
    }
}

#[test]
fn collision_detects_each_wall() {
    assert!(collision(&vec![seg(-1, 100)]));
    assert!(collision(&vec![seg(-25, 100)]));
    assert!(collision(&vec![seg(SCREEN_WIDTH + 1, 100)]));
    assert!(collision(&vec![seg(100, -25)]));
    assert!(collision(&vec![seg(100, SCREEN_HEIGHT + 25)]));
    assert!(!collision(&vec![seg(0, 0)]));
    assert!(!collision(&vec![seg(SCREEN_WIDTH, SCREEN_HEIGHT)]));
}

#[test]
fn collision_detects_body_overlap_beyond_window() {
    let snake = vec![
        seg(100, 100),
        seg(125, 100),
        seg(125, 125),
        seg(100, 125),
        seg(100, 100),
    ];
    assert!(collision(&snake));
}

#[test]
fn collision_ignores_three_segments_nearest_head() {
    let snake = vec![seg(100, 100), seg(100, 100), seg(100, 100)];
    assert!(!collision(&snake));
    let snake = vec![seg(100, 100), seg(125, 100), seg(100, 100), seg(125, 125)];
    assert!(!collision(&snake));
}

#[test]
fn score_requires_exact_cell_match() {
    let snake = row_snake(150, 150);
    assert!(score(&snake, &Block { x: 150, y: 150, color: apple_color() }));
    assert!(!score(&snake, &Block { x: 175, y: 150, color: apple_color() }));
    assert!(!score(&snake, &Block { x: 150, y: 125, color: apple_color() }));
}

#[test]
fn add_block_trails_opposite_the_heading() {
    let snake = row_snake(150, 150);
    let tail = (snake[2].x, snake[2].y);
    let cases = [
        (Direction::Up, 0, BLOCK_SIZE),
        (Direction::Down, 0, -BLOCK_SIZE),
        (Direction::Left, BLOCK_SIZE, 0),
        (Direction::Right, -BLOCK_SIZE, 0),
    ];
    for (d, dx, dy) in cases {
        let b = add_block(&snake, &d);
        assert_eq!((b.x, b.y), (tail.0 + dx, tail.1 + dy));
        assert_eq!(b.color, snake_color());
    }
}

#[test]
fn random_point_is_aligned_and_inside_margins() {
    for _ in 0..200 {
        let (x, y) = random_point();
        assert_eq!(x % BLOCK_SIZE, 0);
        assert_eq!(y % BLOCK_SIZE, 0);
        assert!(BLOCK_SIZE <= x && x < SCREEN_WIDTH - BLOCK_SIZE);
        assert!(BLOCK_SIZE <= y && y < SCREEN_HEIGHT - BLOCK_SIZE);
    }
}

#[test]
fn random_point_varies() {
    let first = random_point();
    let mut saw_other = false;
    for _ in 0..200 {
        if random_point() != first {
            saw_other = true;
        }
    }
    assert!(saw_other);
}

#[test]
fn new_game_matches_startup_layout() {
    let g = GameState::new();
    assert_eq!(g.status, Status::Running);
    assert_eq!(g.scores, 0);
    assert!(matches!(g.direction, Direction::Right));
    assert_eq!(g.snake.len(), 3);
    assert_eq!((g.snake[0].x, g.snake[0].y), (200, 150));
    assert_eq!((g.snake[1].x, g.snake[1].y), (175, 150));
    assert_eq!((g.snake[2].x, g.snake[2].y), (150, 150));
    for s in &g.snake {
        assert_eq!(s.color, snake_color());
    }
    assert_eq!(g.apple.color, apple_color());
    assert_eq!(g.apple.x % BLOCK_SIZE, 0);
    assert_eq!(g.apple.y % BLOCK_SIZE, 0);
    assert!(BLOCK_SIZE <= g.apple.x && g.apple.x < SCREEN_WIDTH - BLOCK_SIZE);
    assert!(BLOCK_SIZE <= g.apple.y && g.apple.y < SCREEN_HEIGHT - BLOCK_SIZE);
}

#[test]
fn four_ticks_right_moves_head_four_cells() {
    let mut g = state(row_snake(150, 150), 500, 500, Direction::Right);
    for _ in 0..4 {
        g.tick_with(None, 150, 150);
    }
    assert_eq!(g.status, Status::Running);
    assert_eq!((g.snake[0].x, g.snake[0].y), (250, 150));
    assert_eq!(g.snake.len(), 3);
    assert_eq!(g.scores, 0);
}

#[test]
fn leaving_the_left_edge_ends_the_game() {
    let mut g = state(
        vec![seg(0, 150), seg(25, 150), seg(50, 150)],
        500,
        500,
        Direction::Left,
    );
    g.tick_with(None, 150, 150);
    assert_eq!(g.status, Status::GameOver);
    assert_eq!(g.snake[0].x, -BLOCK_SIZE);
    assert!(g.snake[0].x < 0);
}

#[test]
fn eating_food_scores_grows_and_respawns() {
    let mut g = state(
        vec![seg(475, 500), seg(450, 500), seg(425, 500)],
        500,
        500,
        Direction::Right,
    );
    let old_apple = (g.apple.x, g.apple.y);
    g.tick_with(None, 150, 175);
    assert_eq!(g.status, Status::Running);
    assert_eq!(g.scores, 1);
    assert_eq!(g.snake.len(), 4);
    assert_eq!((g.snake[0].x, g.snake[0].y), (500, 500));
    assert_eq!((g.snake[3].x, g.snake[3].y), (425, 500));
    assert_eq!((g.apple.x, g.apple.y), (150, 175));
    assert_ne!((g.apple.x, g.apple.y), old_apple);
    assert_eq!(g.apple.color, apple_color());
}

#[test]
fn turning_figure_eight_never_false_self_collision() {
    // A four-segment snake filling a 2 x 2 box, driven once around that box
    // and then once around the adjacent box, tracing a figure eight: every
    // tick the head enters a free cell or the cell its body just vacated,
    // which the exclusion window must never flag.
    let mut g = state(
        vec![seg(125, 100), seg(100, 100), seg(100, 125), seg(125, 125)],
        500,
        500,
        Direction::Down,
    );
    let laps = [
        Direction::Down,
        Direction::Left,
        Direction::Up,
        Direction::Right,
        Direction::Right,
        Direction::Down,
        Direction::Left,
        Direction::Up,
    ];
    for d in laps {
        g.tick_with(Some(GameInput::Turn(d)), 150, 175);
        assert_eq!(g.status, Status::Running);
        assert_eq!(g.snake.len(), 4);
    }
}

#[test]
fn reversing_into_the_neck_is_not_flagged() {
    let mut g = state(
        vec![seg(150, 150), seg(125, 150), seg(100, 150), seg(75, 150)],
        500,
        500,
        Direction::Right,
    );
    g.tick_with(Some(GameInput::Turn(Direction::Left)), 150, 175);
    assert_eq!(g.status, Status::Running);
    assert_eq!((g.snake[0].x, g.snake[0].y), (125, 150));
}

#[test]
fn quit_input_ends_the_game_in_place() {
    let mut g = state(row_snake(150, 150), 500, 500, Direction::Right);
    g.tick_with(Some(GameInput::Quit), 150, 150);
    assert_eq!(g.status, Status::GameOver);
    assert_eq!((g.snake[0].x, g.snake[0].y), (150, 150));
    assert_eq!(g.scores, 0);
}

#[test]
fn game_over_is_terminal() {
    let mut g = state(row_snake(150, 150), 500, 500, Direction::Right);
    g.status = Status::GameOver;
    g.tick_with(None, 150, 150);
    assert_eq!(g.status, Status::GameOver);
    assert_eq!((g.snake[0].x, g.snake[0].y), (150, 150));
    assert_eq!(g.snake.len(), 3);
}

#[test]
fn turn_input_changes_stored_direction() {
    let mut g = state(row_snake(150, 150), 500, 500, Direction::Right);
    g.tick_with(Some(GameInput::Turn(Direction::Down)), 150, 150);
    assert!(matches!(g.direction, Direction::Down));
    assert_eq!((g.snake[0].x, g.snake[0].y), (150, 175));
}

#[test]
fn tick_with_random_spawn_keeps_food_valid() {
    let mut g = GameState::new();
    for _ in 0..6 {
        g.tick(None);
        assert_eq!(g.apple.x % BLOCK_SIZE, 0);
        assert_eq!(g.apple.y % BLOCK_SIZE, 0);
        assert!(BLOCK_SIZE <= g.apple.x && g.apple.x < SCREEN_WIDTH - BLOCK_SIZE);
        assert!(BLOCK_SIZE <= g.apple.y && g.apple.y < SCREEN_HEIGHT - BLOCK_SIZE);
        assert_eq!(g.status, Status::Running);
    }
    assert_eq!((g.snake[0].x, g.snake[0].y), (350, 150));
}

#[test]
fn self_collision_ends_the_game() {
    // Five segments in a hook; turning the head down lands it on the cell
    // the fourth body segment still occupies, past the exclusion window.
    let mut g = state(
        vec![
            seg(100, 100),
            seg(125, 100),
            seg(125, 125),
            seg(100, 125),
            seg(75, 125),
        ],
        500,
        500,
        Direction::Left,
    );
    g.tick_with(Some(GameInput::Turn(Direction::Down)), 150, 175);
    assert_eq!(g.status, Status::GameOver);
}
