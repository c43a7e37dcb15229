use vstd::arithmetic::div_mod::{lemma_fundamental_div_mod_converse, lemma_mod_multiples_basic};
use vstd::prelude::*;

verus! {

/// Side of one square cell, in screen pixels.
pub const CELL_SIZE: i32 = 40;

/// Number of cell columns across the playfield.
pub const CELL_MULTIPLIER: i32 = 50;

/// Width of the playfield, in pixels.
pub const FIELD_WIDTH: i32 = 2000;

/// Height of the playfield, in pixels: shorter than its width by twelve rows.
pub const FIELD_HEIGHT: i32 = 1520;

/// Rows on which an apple may be placed: the column count less a margin of twelve.
pub const APPLE_ROWS: i32 = CELL_MULTIPLIER - 12;

/// Number of cells on which an apple may be placed.
pub const APPLE_CELLS: usize = 1900;

/// The top-left corner of one cell, in pixels.
#[derive(Clone, Copy, Debug, PartialEq, Eq, Structural)]
pub struct Cell {
    pub x: i32,
    pub y: i32,
}

impl Cell {
    pub fn new(x: i32, y: i32) -> (r: Cell)
        ensures
            r.x == x,
            r.y == y,
    {
        Cell { x, y }
    }
}

/// One coordinate brought back onto the field after a step: past the low edge
/// it reappears on the last cell, past the last cell it reappears at zero.
pub open spec fn wrapped(v: int, field: int) -> int {
    if v < 0 {
        field - CELL_SIZE
    } else if v > field - CELL_SIZE {
        0
    } else {
        v
    }
}

pub fn wrap(v: i32, field: i32) -> (r: i32)
    requires
        CELL_SIZE <= field,
    ensures
        r == wrapped(v as int, field as int),
{
    if v < 0 {
        field - CELL_SIZE
    } else if v > field - CELL_SIZE {
        0
    } else {
        v
    }
}

/// Whether a cell is one on which an apple may be placed: aligned to the
/// cells, inside all the columns and inside the apple rows.
pub open spec fn on_apple_grid(c: Cell) -> bool {
    &&& 0 <= c.x < FIELD_WIDTH
    &&& 0 <= c.y < APPLE_ROWS * CELL_SIZE
    &&& c.x % CELL_SIZE == 0
    &&& c.y % CELL_SIZE == 0
}

/// The apple cell with index `i`, counting along each row, row after row.
pub open spec fn grid_cell(i: int) -> Cell {
    Cell {
        x: ((i % CELL_MULTIPLIER as int) * CELL_SIZE) as i32,
        y: ((i / CELL_MULTIPLIER as int) * CELL_SIZE) as i32,
    }
}

/// Every apple cell, once each, in index order.
pub open spec fn apple_cells() -> Seq<Cell> {
    Seq::new(APPLE_CELLS as nat, |i: int| grid_cell(i))
}

/// The apple cells that no body segment covers, in index order.
pub open spec fn free_cells(body: Seq<Cell>) -> Seq<Cell> {
    apple_cells().filter(uncovered_by(body))
}

/// Holds of the cells that no segment of `body` covers.
pub open spec fn uncovered_by(body: Seq<Cell>) -> spec_fn(Cell) -> bool {
    |c: Cell| !body.contains(c)
}

proof fn lemma_grid_cell_on_grid(i: int)
    requires
        0 <= i < APPLE_CELLS,
    ensures
        on_apple_grid(grid_cell(i)),
{
    let a = i % 50;
    let b = i / 50;
    assert(0 <= a < 50 && 0 <= b < 38);
    assert(0 <= a * 40 < 2000 && 0 <= b * 40 < 1520) by (nonlinear_arith)
        requires
            0 <= a < 50,
            0 <= b < 38,
    ;
    lemma_mod_multiples_basic(a, 40);
    lemma_mod_multiples_basic(b, 40);
}

proof fn lemma_on_grid_is_grid_cell(c: Cell) -> (i: int)
    requires
        on_apple_grid(c),
    ensures
        0 <= i < APPLE_CELLS,
        grid_cell(i) == c,
{
    let a = c.x / 40;
    let b = c.y / 40;
    lemma_fundamental_div_mod_converse(c.x as int, 40, a, 0);
    lemma_fundamental_div_mod_converse(c.y as int, 40, b, 0);
    assert(0 <= a < 50 && 0 <= b < 38);
    let i = b * 50 + a;
    assert(0 <= i < 1900) by (nonlinear_arith)
        requires
            i == b * 50 + a,
            0 <= a < 50,
            0 <= b < 38,
    ;
    lemma_fundamental_div_mod_converse(i, 50, b, a);
    i
}

/// Each cell left free for an apple is an apple cell that no body segment covers.
pub proof fn lemma_free_cell_is_uncovered(body: Seq<Cell>, c: Cell)
    requires
        free_cells(body).contains(c),
    ensures
        on_apple_grid(c),
        !body.contains(c),
{
    let free = free_cells(body);
    apple_cells().lemma_filter_contains_rev(uncovered_by(body), c);
    let i = choose|i: int| 0 <= i < apple_cells().len() && apple_cells()[i] == c;
    lemma_grid_cell_on_grid(i);
    let j = choose|j: int| 0 <= j < free.len() && free[j] == c;
    apple_cells().lemma_filter_pred(uncovered_by(body), j);
}

/// Some cell is left free for an apple exactly when some apple cell is not
/// covered by the body.
pub proof fn lemma_free_cells_exist(body: Seq<Cell>)
    ensures
        free_cells(body).len() > 0 <==> exists|c: Cell| on_apple_grid(c) && !body.contains(c),
{
    let free = free_cells(body);
    if free.len() > 0 {
        assert(free.contains(free[0]));
        lemma_free_cell_is_uncovered(body, free[0]);
    }
    if exists|c: Cell| on_apple_grid(c) && !body.contains(c) {
        let c = choose|c: Cell| on_apple_grid(c) && !body.contains(c);
        let i = lemma_on_grid_is_grid_cell(c);
        apple_cells().lemma_filter_contains(uncovered_by(body), i);
    }
}

/// Whether some segment of the body lies on the given cell.
pub fn body_touching_apple(body: &Vec<Cell>, apple_pos: Cell) -> (r: bool)
    ensures
        r == body@.contains(apple_pos),
{
    let mut i: usize = 0;
    while i < body.len()
        invariant
            i <= body@.len(),
            forall|j: int| 0 <= j < i ==> body@[j] != apple_pos,
        decreases body@.len() - i,
    {
        if body[i] == apple_pos {
            return true;
        }
        i += 1;
    }
    false
}

/// The apple cells that no segment of `body` covers, in index order.
pub fn free_cells_of(body: &Vec<Cell>) -> (r: Vec<Cell>)
    ensures
        r@ == free_cells(body@),
{
    let mut r: Vec<Cell> = Vec::new();
    let mut i: usize = 0;
    while i < APPLE_CELLS
        invariant
            i <= APPLE_CELLS,
            r@ == Seq::new(i as nat, |k: int| grid_cell(k)).filter(uncovered_by(body@)),
        decreases APPLE_CELLS - i,
    {
        let c = Cell {
            x: ((i % 50) * 40) as i32,
            y: ((i / 50) * 40) as i32,
        };
        assert(c == grid_cell(i as int));
        proof {
            let prefix = Seq::new(i as nat, |k: int| grid_cell(k));
            assert(Seq::new((i + 1) as nat, |k: int| grid_cell(k)) =~= prefix.push(c));
            prefix.lemma_filter_push(c, uncovered_by(body@));
        }
        if !body_touching_apple(body, c) {
            r.push(c);
        }
        i += 1;
    }
    assert(Seq::new(APPLE_CELLS as nat, |k: int| grid_cell(k)) =~= apple_cells());
    r
}

} // verus!
