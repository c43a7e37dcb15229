use crate::chance::random_below;
use crate::grid::{
    body_touching_apple, free_cells, free_cells_of, lemma_free_cell_is_uncovered,
    lemma_free_cells_exist, on_apple_grid, wrap, wrapped, Cell, CELL_SIZE, FIELD_HEIGHT,
    FIELD_WIDTH,
};
use crate::heading::{resolve_heading, resolved_heading, Heading};
use vstd::prelude::*;

verus! {

/// Left edge of the reset button, in screen pixels (the edge itself is outside).
pub const RESET_LEFT: i32 = 700;

/// Right edge of the reset button (outside).
pub const RESET_RIGHT: i32 = 1300;

/// Top edge of the reset button (outside).
pub const RESET_TOP: i32 = 1000;

/// Bottom edge of the reset button (outside).
pub const RESET_BOTTOM: i32 = 1200;

/// What the host samples once per tick: the four direction keys, the pointer
/// position in screen pixels and the primary pointer button.
#[derive(Clone, Copy, Debug, PartialEq, Eq, Structural)]
pub struct InputSample {
    pub up: bool,
    pub down: bool,
    pub left: bool,
    pub right: bool,
    pub pointer_x: i32,
    pub pointer_y: i32,
    pub primary_pressed: bool,
}

/// Whether a point lies strictly inside the reset button.
pub open spec fn in_reset_region(x: int, y: int) -> bool {
    RESET_LEFT < x < RESET_RIGHT && RESET_TOP < y < RESET_BOTTOM
}

/// Whether a sample asks for a new game: pointer on the reset button, button held.
pub open spec fn reset_requested(i: InputSample) -> bool {
    in_reset_region(i.pointer_x as int, i.pointer_y as int) && i.primary_pressed
}

/// Whether the pointer lies on the reset button (which also picks the
/// button's hover colours).
pub fn pointer_in_reset(x: i32, y: i32) -> (r: bool)
    ensures
        r == in_reset_region(x as int, y as int),
{
    RESET_LEFT < x && x < RESET_RIGHT && RESET_TOP < y && y < RESET_BOTTOM
}

/// Where the head starts in a fresh game: column four, row five.
pub open spec fn start_cell() -> Cell {
    Cell { x: (4 * CELL_SIZE) as i32, y: (5 * CELL_SIZE) as i32 }
}

/// Where the head stands after a reset: the right edge of the field, half-way
/// down; a first step to the right wraps it to column zero.
pub open spec fn restart_cell() -> Cell {
    Cell { x: FIELD_WIDTH, y: (FIELD_HEIGHT / 2) as i32 }
}

/// The head one cell further along `h`, wrapped onto the field.
pub open spec fn next_head(head: Cell, h: Heading) -> Cell {
    Cell {
        x: wrapped(head.x + h.spec_dx() * CELL_SIZE, FIELD_WIDTH as int) as i32,
        y: wrapped(head.y + h.spec_dy() * CELL_SIZE, FIELD_HEIGHT as int) as i32,
    }
}

/// The body after a step: the old head becomes the first segment and the tail
/// segment goes, unless an apple was eaten, which keeps it.
pub open spec fn next_body(old_head: Cell, body: Seq<Cell>, eaten: bool) -> Seq<Cell> {
    if eaten {
        seq![old_head] + body
    } else {
        (seq![old_head] + body).drop_last()
    }
}

/// The state of one game as the contracts see it.
pub struct SnakeView {
    pub head: Cell,
    pub body: Seq<Cell>,
    pub apple: Cell,
    pub heading: Heading,
    pub game_over: bool,
}

impl SnakeView {
    /// The same state with the apple moved to `apple`.
    pub open spec fn with_apple(self, apple: Cell) -> SnakeView {
        SnakeView { apple, ..self }
    }
}

/// The heading that a sample selects from the state's heading.
pub open spec fn sampled_heading(s: SnakeView, i: InputSample) -> Heading {
    resolved_heading(s.heading, i.up, i.down, i.left, i.right)
}

/// Whether a live snake's head lands on the apple in this step.
pub open spec fn eats(s: SnakeView, i: InputSample) -> bool {
    next_head(s.head, sampled_heading(s, i)) == s.apple
}

/// One tick of the game, the apple left where it was.
/// While alive: turn, move, grow if the apple was eaten, and end the game if
/// the head landed on the body. Once over: a reset request starts a new game;
/// any other sample leaves everything unchanged.
pub open spec fn advanced(s: SnakeView, i: InputSample) -> SnakeView {
    if s.game_over {
        if reset_requested(i) {
            SnakeView {
                head: restart_cell(),
                body: Seq::empty(),
                apple: s.apple,
                heading: Heading::Right,
                game_over: false,
            }
        } else {
            s
        }
    } else {
        let heading = sampled_heading(s, i);
        let head = next_head(s.head, heading);
        let body = next_body(s.head, s.body, eats(s, i));
        SnakeView { head, body, apple: s.apple, heading, game_over: body.contains(head) }
    }
}

/// Whether the step needs a new apple: it was eaten, or a new game began.
pub open spec fn apple_due(s: SnakeView, i: InputSample) -> bool {
    if s.game_over {
        reset_requested(i)
    } else {
        eats(s, i)
    }
}

/// The whole game: head, body segments (newest first), apple, heading and
/// whether the game is over.
pub struct MainState {
    pub snake_head_pos: Cell,
    pub apple_pos: Cell,
    pub dir: Heading,
    pub body: Vec<Cell>,
    pub game_over: bool,
}

impl View for MainState {
    type V = SnakeView;

    open spec fn view(&self) -> SnakeView {
        SnakeView {
            head: self.snake_head_pos,
            body: self.body@,
            apple: self.apple_pos,
            heading: self.dir,
            game_over: self.game_over,
        }
    }
}

/// Whether the head lies on the field or on its right or bottom edge, which
/// is where the head can be after a step or a reset.
pub open spec fn head_in_bounds(c: Cell) -> bool {
    0 <= c.x <= FIELD_WIDTH && 0 <= c.y <= FIELD_HEIGHT
}

/// Whether some segment of `body` lies on the head; if so, the game is over.
pub fn ate_itself(body: &Vec<Cell>, head_pos: Cell, game_state: &mut bool)
    ensures
        *final(game_state) == (*old(game_state) || body@.contains(head_pos)),
{
    if body_touching_apple(body, head_pos) {
        *game_state = true;
    }
}

impl MainState {
    pub open spec fn wf(&self) -> bool {
        head_in_bounds(self.snake_head_pos)
    }

    /// Whether the head lies within the bounds that a tick asks of it.
    pub fn is_well_formed(&self) -> (r: bool)
        ensures
            r == self.wf(),
    {
        let h = self.snake_head_pos;
        0 <= h.x && h.x <= FIELD_WIDTH && 0 <= h.y && h.y <= FIELD_HEIGHT
    }

    /// Moves the apple to the free cell numbered `draw`, counting the apple
    /// cells free of the body in index order; where there are not that many,
    /// nothing changes.
    pub fn place_apple(&mut self, draw: usize)
        ensures
            final(self)@ == old(self)@.with_apple(
                if draw < free_cells(old(self)@.body).len() {
                    free_cells(old(self)@.body)[draw as int]
                } else {
                    old(self)@.apple
                },
            ),
    {
        let free = free_cells_of(&self.body);
        if draw < free.len() {
            self.apple_pos = free[draw];
        }
    }

    /// One tick with the apple left in place. Returns whether a new apple is
    /// due, because the snake ate this one or a new game began.
    pub fn step(&mut self, input: &InputSample) -> (r: bool)
        requires
            old(self).wf(),
        ensures
            final(self).wf(),
            final(self)@ == advanced(old(self)@, *input),
            r == apple_due(old(self)@, *input),
    {
        if !self.game_over {
            self.dir = resolve_heading(self.dir, input.up, input.down, input.left, input.right);
            let old_head = self.snake_head_pos;
            self.body.insert(0, old_head);
            self.snake_head_pos = Cell {
                x: wrap(old_head.x + self.dir.dx() * CELL_SIZE, FIELD_WIDTH),
                y: wrap(old_head.y + self.dir.dy() * CELL_SIZE, FIELD_HEIGHT),
            };
            let tail = self.body.pop();
            let eaten = self.snake_head_pos == self.apple_pos;
            if eaten {
                match tail {
                    Some(t) => self.body.push(t),
                    None => {},
                }
            }
            proof {
                let s = old(self)@;
                assert(seq![old_head] + s.body =~= s.body.insert(0, old_head));
                if eaten {
                    assert(self.body@ =~= seq![old_head] + s.body);
                }
            }
            ate_itself(&self.body, self.snake_head_pos, &mut self.game_over);
            eaten
        } else if pointer_in_reset(input.pointer_x, input.pointer_y) && input.primary_pressed {
            self.body.clear();
            self.snake_head_pos = Cell { x: FIELD_WIDTH, y: FIELD_HEIGHT / 2 };
            self.dir = Heading::Right;
            self.game_over = false;
            proof {
                assert(self.body@ =~= Seq::<Cell>::empty());
            }
            true
        } else {
            false
        }
    }

    /// A fresh game: the head at the start cell heading right, no body, the
    /// game running, and an apple on a random apple cell.
    pub fn new() -> (r: MainState)
        ensures
            r.wf(),
            r@.head == start_cell(),
            r@.body == Seq::<Cell>::empty(),
            r@.heading == Heading::Right,
            !r@.game_over,
            free_cells(Seq::<Cell>::empty()).contains(r@.apple),
            on_apple_grid(r@.apple),
    {
        let mut state = MainState {
            snake_head_pos: Cell { x: 4 * CELL_SIZE, y: 5 * CELL_SIZE },
            apple_pos: Cell { x: 0, y: 0 },
            dir: Heading::Right,
            body: Vec::new(),
            game_over: false,
        };
        let n = free_cells_of(&state.body).len();
        proof {
            let corner = Cell { x: 0, y: 0 };
            assert(on_apple_grid(corner) && !state.body@.contains(corner));
            lemma_free_cells_exist(state.body@);
        }
        let draw = random_below(n);
        state.place_apple(draw);
        proof {
            assert(state.body@ =~= Seq::<Cell>::empty());
            lemma_free_cell_is_uncovered(state.body@, state.apple_pos);
        }
        state
    }

    /// One tick of the game. While alive the snake turns, moves and grows as
    /// `advanced` says; once over, only a reset request changes anything.
    /// Where a new apple is due and some apple cell is free of the body, the
    /// apple moves to a free cell drawn at random; else it stays.
    pub fn tick(&mut self, input: &InputSample)
        requires
            old(self).wf(),
        ensures
            final(self).wf(),
            final(self)@.with_apple(old(self)@.apple) == advanced(old(self)@, *input),
            ({
                let body = advanced(old(self)@, *input).body;
                if apple_due(old(self)@, *input) && free_cells(body).len() > 0 {
                    free_cells(body).contains(final(self)@.apple)
                } else {
                    final(self)@.apple == old(self)@.apple
                }
            }),
    {
        if self.step(input) {
            let n = free_cells_of(&self.body).len();
            if n > 0 {
                let draw = random_below(n);
                self.place_apple(draw);
            }
        }
    }
}

/// While alive, a step keeps the body's length, except when the apple is
/// eaten: then the body grows by exactly one segment.
pub proof fn lemma_body_length_step(s: SnakeView, i: InputSample)
    requires
        !s.game_over,
    ensures
        advanced(s, i).body.len() == s.body.len() + if eats(s, i) {
            1int
        } else {
            0int
        },
{
}

/// An apple placed after a step never lies on a body segment, and lies on an
/// apple cell.
pub proof fn lemma_new_apple_off_body(s: SnakeView, i: InputSample, apple: Cell)
    requires
        free_cells(advanced(s, i).body).contains(apple),
    ensures
        !advanced(s, i).body.contains(apple),
        on_apple_grid(apple),
{
    lemma_free_cell_is_uncovered(advanced(s, i).body, apple);
}

/// Wraparound: a head driven to the field's width or height reappears at
/// zero; one driven a cell below zero reappears on the last cell.
pub proof fn lemma_wraparound(head: Cell, h: Heading)
    ensures
        head.x + h.spec_dx() * CELL_SIZE == FIELD_WIDTH ==> next_head(head, h).x == 0,
        head.x + h.spec_dx() * CELL_SIZE == -CELL_SIZE ==> next_head(head, h).x == FIELD_WIDTH
            - CELL_SIZE,
        head.y + h.spec_dy() * CELL_SIZE == FIELD_HEIGHT ==> next_head(head, h).y == 0,
        head.y + h.spec_dy() * CELL_SIZE == -CELL_SIZE ==> next_head(head, h).y == FIELD_HEIGHT
            - CELL_SIZE,
{
}

/// Once the game is over, every sample but a reset request leaves the whole
/// state as it is.
pub proof fn lemma_game_over_holds(s: SnakeView, i: InputSample)
    requires
        s.game_over,
        !reset_requested(i),
    ensures
        advanced(s, i) == s,
        !apple_due(s, i),
{
}

/// A reset gives the same head, body, heading and running game whatever state
/// it starts from, so a reset repeated while the button stays held gives the
/// same state each time, apart from the apple.
pub proof fn lemma_reset_deterministic(s: SnakeView, t: SnakeView, i: InputSample)
    requires
        s.game_over,
        t.game_over,
        reset_requested(i),
    ensures
        advanced(s, i).with_apple(t.apple) == advanced(t, i),
        advanced(s, i).head == restart_cell(),
        advanced(s, i).body.len() == 0,
        advanced(s, i).heading == Heading::Right,
        !advanced(s, i).game_over,
{
}

} // verus!
