use rusty_snake::game::{ate_itself, pointer_in_reset, InputSample, MainState};
use rusty_snake::grid::{body_touching_apple, free_cells_of, wrap, Cell, FIELD_HEIGHT, FIELD_WIDTH};
use rusty_snake::heading::{resolve_heading, Heading};

fn cell(col: i32, row: i32) -> Cell {
    Cell::new(col * 40, row * 40)
}

fn keys(up: bool, down: bool, left: bool, right: bool) -> InputSample {
    InputSample { up, down, left, right, pointer_x: 0, pointer_y: 0, primary_pressed: false }
}

fn idle() -> InputSample {
    keys(false, false, false, false)
}

fn pointer(x: i32, y: i32, pressed: bool) -> InputSample {
    InputSample { up: false, down: false, left: false, right: false, pointer_x: x, pointer_y: y, primary_pressed: pressed }
}

fn state(head: Cell, dir: Heading, body: Vec<Cell>, apple: Cell) -> MainState {
    MainState { snake_head_pos: head, apple_pos: apple, dir, body, game_over: false }
}

fn on_apple_grid(c: Cell) -> bool {
    c.x >= 0 && c.x < 2000 && c.y >= 0 && c.y < 1520 && c.x % 40 == 0 && c.y % 40 == 0
}

#[test]
fn head_moves_one_cell_right() {
    let mut s = state(cell(4, 5), Heading::Right, vec![cell(3, 5), cell(2, 5)], cell(20, 20));
    s.tick(&idle());
    assert_eq!(s.snake_head_pos, cell(5, 5));
    assert_eq!(s.body, vec![cell(4, 5), cell(3, 5)]);
    assert!(!s.game_over);
    assert_eq!(s.apple_pos, cell(20, 20));
}

#[test]
fn fresh_game_first_tick() {
    let mut s = MainState::new();
    assert_eq!(s.snake_head_pos, cell(4, 5));
    assert!(s.body.is_empty());
    assert_eq!(s.dir, Heading::Right);
    assert!(!s.game_over);
    assert!(on_apple_grid(s.apple_pos));
    if s.apple_pos != cell(5, 5) {
        s.tick(&idle());
        assert_eq!(s.snake_head_pos, cell(5, 5));
        assert!(s.body.is_empty());
        assert!(!s.game_over);
    }
}

#[test]
fn eating_apple_grows_body_by_one() {
    let mut s = state(cell(9, 10), Heading::Right, vec![cell(8, 10), cell(7, 10)], cell(10, 10));
    s.tick(&idle());
    assert_eq!(s.snake_head_pos, cell(10, 10));
    assert_eq!(s.body, vec![cell(9, 10), cell(8, 10), cell(7, 10)]);
    assert!(!s.body.contains(&s.apple_pos));
    assert!(on_apple_grid(s.apple_pos));
    assert!(!s.game_over);
}

#[test]
fn eaten_apple_moves_to_a_free_cell() {
    let mut s = state(cell(9, 10), Heading::Right, vec![cell(0, 0), cell(1, 0)], cell(10, 10));
    assert!(s.step(&idle()));
    assert_eq!(s.body, vec![cell(9, 10), cell(0, 0), cell(1, 0)]);
    s.place_apple(0);
    assert_eq!(s.apple_pos, cell(2, 0));
    assert_ne!(s.apple_pos, cell(10, 10));
    assert!(!s.body.contains(&s.apple_pos));
    s.place_apple(1896);
    assert_eq!(s.apple_pos, cell(49, 37));
    s.place_apple(1897);
    assert_eq!(s.apple_pos, cell(49, 37));
}

#[test]
fn no_growth_without_apple() {
    let mut s = state(cell(9, 10), Heading::Down, vec![cell(9, 9), cell(9, 8), cell(9, 7)], cell(30, 30));
    for _ in 0..5 {
        let before = s.body.len();
        s.tick(&idle());
        assert_eq!(s.body.len(), before);
    }
    assert_eq!(s.snake_head_pos, cell(9, 15));
}

#[test]
fn head_on_body_ends_game() {
    let mut s = state(cell(6, 7), Heading::Right, vec![cell(5, 7), cell(7, 7), cell(8, 7)], cell(30, 30));
    s.tick(&idle());
    assert_eq!(s.snake_head_pos, cell(7, 7));
    assert!(s.body.contains(&cell(7, 7)));
    assert!(s.game_over);
}

#[test]
fn game_over_persists_until_reset() {
    let mut s = state(cell(6, 7), Heading::Right, vec![cell(5, 7), cell(7, 7), cell(8, 7)], cell(30, 30));
    s.tick(&idle());
    assert!(s.game_over);
    let head = s.snake_head_pos;
    let body = s.body.clone();
    for sample in [idle(), keys(true, false, false, false), pointer(1000, 1100, false), pointer(600, 1100, true)] {
        assert!(!s.step(&sample));
        assert!(s.game_over);
        assert_eq!(s.snake_head_pos, head);
        assert_eq!(s.body, body);
        assert_eq!(s.apple_pos, cell(30, 30));
    }
}

#[test]
fn reset_starts_new_game() {
    let mut s = state(cell(7, 7), Heading::Up, vec![cell(7, 8), cell(7, 7)], cell(30, 30));
    s.game_over = true;
    s.tick(&pointer(1000, 1100, true));
    assert!(s.body.is_empty());
    assert_eq!(s.snake_head_pos, Cell::new(FIELD_WIDTH, FIELD_HEIGHT / 2));
    assert_eq!(s.dir, Heading::Right);
    assert_eq!((s.dir.dx(), s.dir.dy()), (1, 0));
    assert!(!s.game_over);
    assert!(on_apple_grid(s.apple_pos));
}

#[test]
fn reset_is_deterministic() {
    let mut a = state(cell(7, 7), Heading::Up, vec![cell(7, 8), cell(7, 7)], cell(30, 30));
    let mut b = state(cell(1, 2), Heading::Left, vec![cell(1, 2)], cell(3, 3));
    a.game_over = true;
    b.game_over = true;
    let press = pointer(701, 1199, true);
    assert!(a.step(&press));
    assert!(b.step(&press));
    assert_eq!(a.snake_head_pos, b.snake_head_pos);
    assert_eq!(a.body, b.body);
    assert_eq!(a.dir, b.dir);
    assert_eq!(a.game_over, b.game_over);
    a.game_over = true;
    a.tick(&press);
    assert_eq!(a.snake_head_pos, b.snake_head_pos);
    assert_eq!(a.body, b.body);
    assert_eq!(a.dir, b.dir);
}

#[test]
fn restart_cell_wraps_on_first_step() {
    let mut s = state(Cell::new(FIELD_WIDTH, FIELD_HEIGHT / 2), Heading::Right, vec![], cell(30, 30));
    s.tick(&idle());
    assert_eq!(s.snake_head_pos, Cell::new(0, 760));
}

#[test]
fn wraparound_on_every_edge() {
    let mut s = state(cell(49, 3), Heading::Right, vec![], cell(30, 30));
    s.tick(&idle());
    assert_eq!(s.snake_head_pos, cell(0, 3));
    let mut s = state(cell(0, 3), Heading::Left, vec![], cell(30, 30));
    s.tick(&idle());
    assert_eq!(s.snake_head_pos, cell(49, 3));
    let mut s = state(cell(5, 37), Heading::Down, vec![], cell(30, 30));
    s.tick(&idle());
    assert_eq!(s.snake_head_pos, cell(5, 0));
    let mut s = state(cell(5, 0), Heading::Up, vec![], cell(30, 30));
    s.tick(&idle());
    assert_eq!(s.snake_head_pos, cell(5, 37));
}

#[test]
fn wrap_maps_edges() {
    assert_eq!(wrap(FIELD_WIDTH, FIELD_WIDTH), 0);
    assert_eq!(wrap(-40, FIELD_WIDTH), FIELD_WIDTH - 40);
    assert_eq!(wrap(FIELD_HEIGHT, FIELD_HEIGHT), 0);
    assert_eq!(wrap(-40, FIELD_HEIGHT), FIELD_HEIGHT - 40);
    assert_eq!(wrap(1960, FIELD_WIDTH), 1960);
    assert_eq!(wrap(0, FIELD_HEIGHT), 0);
}

#[test]
fn keys_never_reverse_heading() {
    let all = [Heading::Up, Heading::Down, Heading::Left, Heading::Right];
    for h in all {
        for bits in 0..16u8 {
            let r = resolve_heading(h, bits & 1 != 0, bits & 2 != 0, bits & 4 != 0, bits & 8 != 0);
            assert!(r.dx() != -h.dx() || r.dy() != -h.dy());
        }
    }
}

#[test]
fn single_keys_turn() {
    assert_eq!(resolve_heading(Heading::Right, true, false, false, false), Heading::Up);
    assert_eq!(resolve_heading(Heading::Right, false, true, false, false), Heading::Down);
    assert_eq!(resolve_heading(Heading::Up, false, false, true, false), Heading::Left);
    assert_eq!(resolve_heading(Heading::Up, false, false, false, true), Heading::Right);
    assert_eq!(resolve_heading(Heading::Right, false, false, true, false), Heading::Right);
    assert_eq!(resolve_heading(Heading::Down, true, false, false, false), Heading::Down);
    assert_eq!(resolve_heading(Heading::Left, false, false, false, false), Heading::Left);
}

#[test]
fn down_needs_no_horizontal_key() {
    // Down is ignored while Left or Right is held.
    assert_eq!(resolve_heading(Heading::Right, false, true, true, false), Heading::Right);
    assert_eq!(resolve_heading(Heading::Left, false, true, false, true), Heading::Left);
}

#[test]
fn up_held_blocks_horizontal_keys() {
    // Left and Right are ignored while Up is held, even where Up itself is refused.
    assert_eq!(resolve_heading(Heading::Down, true, false, true, false), Heading::Down);
    assert_eq!(resolve_heading(Heading::Left, true, false, false, true), Heading::Up);
}

#[test]
fn free_cells_of_empty_body() {
    let free = free_cells_of(&vec![]);
    assert_eq!(free.len(), 1900);
    assert_eq!(free[0], cell(0, 0));
    assert_eq!(free[1], cell(1, 0));
    assert_eq!(free[50], cell(0, 1));
    assert_eq!(free[1899], cell(49, 37));
}

#[test]
fn free_cells_skip_body() {
    let body = vec![cell(0, 0), cell(49, 37), cell(3, 3), Cell::new(2000, 760)];
    let free = free_cells_of(&body);
    assert_eq!(free.len(), 1897);
    assert_eq!(free[0], cell(1, 0));
    assert!(!free.contains(&cell(3, 3)));
    assert_eq!(free[1896], cell(48, 37));
}

#[test]
fn body_touch_and_self_bite() {
    let body = vec![cell(1, 1), cell(2, 1)];
    assert!(body_touching_apple(&body, cell(2, 1)));
    assert!(!body_touching_apple(&body, cell(3, 1)));
    assert!(!body_touching_apple(&vec![], cell(0, 0)));
    let mut over = false;
    ate_itself(&body, cell(3, 1), &mut over);
    assert!(!over);
    ate_itself(&body, cell(1, 1), &mut over);
    assert!(over);
    ate_itself(&body, cell(3, 1), &mut over);
    assert!(over);
}

#[test]
fn reset_region_is_open() {
    assert!(pointer_in_reset(1000, 1100));
    assert!(pointer_in_reset(701, 1001));
    assert!(pointer_in_reset(1299, 1199));
    assert!(!pointer_in_reset(700, 1100));
    assert!(!pointer_in_reset(1300, 1100));
    assert!(!pointer_in_reset(1000, 1000));
    assert!(!pointer_in_reset(1000, 1200));
}

#[test]
fn apples_vary_between_games() {
    let first = MainState::new().apple_pos;
    let mut differs = false;
    for _ in 0..40 {
        let s = MainState::new();
        assert!(on_apple_grid(s.apple_pos));
        if s.apple_pos != first {
            differs = true;
        }
    }
    assert!(differs);
}

#[test]
fn apple_never_lands_on_body() {
    for _ in 0..50 {
        let body: Vec<Cell> = (0..49).map(|c| cell(c, 0)).chain((0..49).map(|c| cell(c, 1))).collect();
        let mut s = state(cell(49, 2), Heading::Up, body, cell(49, 1));
        s.tick(&idle());
        assert_eq!(s.snake_head_pos, cell(49, 1));
        assert_eq!(s.body.len(), 99);
        assert!(!s.body.contains(&s.apple_pos));
        assert!(on_apple_grid(s.apple_pos));
    }
}
