//! Parsing of the layout description: a fixed-width, fixed-height block of
//! glyphs that defines the initial grid and the spawn positions.
//!
//! The text must hold exactly `HEIGHT` rows of `WIDTH` glyphs, joined by
//! single newline bytes.  Each glyph maps to one cell or spawn marker:
//! `'#'` wall, `'*'` barricade, `' '` empty, `'A'` player start, `'M'`
//! invader spawn.  Anything else is a configuration error reported to the
//! caller, never a crash.

use vstd::prelude::*;
use crate::geom::Position;
use crate::grid::{Cell, Grid};
use crate::{HEIGHT, INVADER_CAPACITY, PLAYER_START_COL, PLAYER_START_ROW, WIDTH};

verus! {

/// Wall glyph, `b'#'`.
pub const WALL_GLYPH: u8 = 35;

/// Barricade glyph, `b'*'`.
pub const BARRICADE_GLYPH: u8 = 42;

/// Empty-cell glyph, `b' '`.
pub const EMPTY_GLYPH: u8 = 32;

/// Player-start glyph, `b'A'`.
pub const PLAYER_GLYPH: u8 = 65;

/// Invader-spawn glyph, `b'M'`.
pub const INVADER_GLYPH: u8 = 77;

/// Newline, `b'\n'`.
pub const NEWLINE: u8 = 10;

/// Bytes per layout row: the glyphs plus the joining newline.
pub const LINE_STRIDE: usize = 81;

/// Total bytes of a well-shaped layout: `HEIGHT` rows of `LINE_STRIDE`
/// bytes, without a trailing newline.
pub const LAYOUT_TEXT_LEN: usize = 1862;

/// Cells of the playfield grid.
pub const GRID_CELLS: usize = 1840;

/// A structured configuration error: the layout text cannot be used.
#[derive(Debug, Copy, Clone, Eq, PartialEq, Structural)]
pub enum LayoutError {
    /// The text is not `HEIGHT` newline-joined rows of `WIDTH` bytes.
    BadShape,
    /// Some cell holds an unrecognized glyph.
    BadGlyph,
}

/// Whether `b` is one of the five cell glyphs.
pub open spec fn glyph_ok(b: u8) -> bool {
    b == WALL_GLYPH || b == BARRICADE_GLYPH || b == EMPTY_GLYPH || b == PLAYER_GLYPH || b
        == INVADER_GLYPH
}

/// The byte of the cell at row `r`, column `c`.
pub open spec fn layout_byte(t: Seq<u8>, r: int, c: int) -> u8 {
    t[r * LINE_STRIDE + c]
}

/// The text has the right length and a newline after every row but the
/// last.
pub open spec fn shape_ok(t: Seq<u8>) -> bool {
    &&& t.len() == LAYOUT_TEXT_LEN
    &&& forall|r: int| 0 <= r < HEIGHT - 1 ==> layout_byte(t, r, WIDTH as int) == NEWLINE
}

/// Every cell holds a recognized glyph.
pub open spec fn glyphs_ok(t: Seq<u8>) -> bool {
    forall|r: int, c: int|
        0 <= r < HEIGHT && 0 <= c < WIDTH ==> glyph_ok(#[trigger] layout_byte(t, r, c))
}

/// A usable layout text.
pub open spec fn layout_ok(t: Seq<u8>) -> bool {
    shape_ok(t) && glyphs_ok(t)
}

/// The cell a glyph classifies: spawn markers leave the cell empty.
pub open spec fn cell_of_glyph(b: u8) -> Cell {
    if b == WALL_GLYPH {
        Cell::Wall
    } else if b == BARRICADE_GLYPH {
        Cell::Barricade
    } else {
        Cell::Empty
    }
}

/// The flat position of cell index `k` in the text.
pub open spec fn byte_of_cell(t: Seq<u8>, k: int) -> u8 {
    layout_byte(t, k / WIDTH as int, k % WIDTH as int)
}

/// The grid contents described by the text, row-major.
pub open spec fn layout_cells(t: Seq<u8>) -> Seq<Cell> {
    Seq::new(GRID_CELLS as nat, |k: int| cell_of_glyph(byte_of_cell(t, k)))
}

/// The invader spawn positions among the first `k` cells, row-major, in
/// order, silently capped at the formation's capacity.
pub open spec fn layout_spawns_upto(t: Seq<u8>, k: int) -> Seq<Position>
    decreases k,
{
    if k <= 0 {
        Seq::empty()
    } else {
        let prev = layout_spawns_upto(t, k - 1);
        if byte_of_cell(t, k - 1) == INVADER_GLYPH && prev.len() < INVADER_CAPACITY {
            prev.push(
                Position { col: ((k - 1) % WIDTH as int) as i16, row: ((k - 1) / WIDTH as int) as i16 },
            )
        } else {
            prev
        }
    }
}

/// All invader spawn positions of the text.
pub open spec fn layout_spawns(t: Seq<u8>) -> Seq<Position> {
    layout_spawns_upto(t, GRID_CELLS as int)
}

/// The first player marker among the first `k` cells, if any.
pub open spec fn first_player_upto(t: Seq<u8>, k: int) -> Option<Position>
    decreases k,
{
    if k <= 0 {
        None
    } else {
        match first_player_upto(t, k - 1) {
            Some(p) => Some(p),
            None => if byte_of_cell(t, k - 1) == PLAYER_GLYPH {
                Some(
                    Position {
                        col: ((k - 1) % WIDTH as int) as i16,
                        row: ((k - 1) / WIDTH as int) as i16,
                    },
                )
            } else {
                None
            },
        }
    }
}

/// The player start the text describes: its first `'A'` marker, or the
/// fixed default position when the layout places none.
pub open spec fn layout_start(t: Seq<u8>) -> Position {
    match first_player_upto(t, GRID_CELLS as int) {
        Some(p) => p,
        None => Position { col: PLAYER_START_COL, row: PLAYER_START_ROW },
    }
}

/// What a layout text describes.
#[verifier::ext_equal]
pub ghost struct LayoutModel {
    pub cells: Seq<Cell>,
    pub start: Position,
    pub spawns: Seq<Position>,
}

/// The model of a well-formed layout text.
pub open spec fn parsed_layout(t: Seq<u8>) -> LayoutModel {
    LayoutModel { cells: layout_cells(t), start: layout_start(t), spawns: layout_spawns(t) }
}

/// The parsed layout: the initial grid and the spawn positions.
#[derive(Debug, Clone, Eq, PartialEq)]
pub struct Layout {
    pub grid: Grid,
    pub start: Position,
    pub spawns: Vec<Position>,
}

impl View for Layout {
    type V = LayoutModel;

    open spec fn view(&self) -> LayoutModel {
        LayoutModel { cells: self.grid@, start: self.start, spawns: self.spawns@ }
    }
}

impl Layout {
    /// Grid complete, start on the playfield, spawns within capacity and on
    /// the playfield.
    pub open spec fn wf(self) -> bool {
        &&& self.grid.wf()
        &&& self.start.spec_is_legal()
        &&& self.spawns.len() <= INVADER_CAPACITY
        &&& forall|i: int| 0 <= i < self.spawns.len() ==> (#[trigger] self.spawns@[i]).spec_is_legal()
    }

    /// A fresh copy of the initial grid.
    pub fn make_grid(&self) -> (r: Grid)
        requires
            self.wf(),
        ensures
            r.wf(),
            r@ == self@.cells,
    {
        let n = self.grid.cells.len();
        let mut cells: Vec<Cell> = Vec::new();
        let mut i: usize = 0;
        while i < n
            invariant
                i <= n,
                n == self.grid.cells.len(),
                cells@.len() == i,
                forall|j: int| 0 <= j < i ==> cells@[j] == self.grid.cells@[j],
            decreases n - i,
        {
            cells.push(self.grid.cells[i]);
            i = i + 1;
        }
        proof {
            assert(cells@ =~= self.grid@);
        }
        Grid { cells }
    }
}

/// The relation between a cell index and its row and column.
proof fn lemma_flat_index(r: int, c: int)
    requires
        0 <= r,
        0 <= c < WIDTH,
    ensures
        (r * WIDTH + c) / (WIDTH as int) == r,
        (r * WIDTH + c) % (WIDTH as int) == c,
{
    assert((r * WIDTH + c) / (WIDTH as int) == r && (r * WIDTH + c) % (WIDTH as int) == c)
        by (nonlinear_arith)
        requires
            0 <= r,
            0 <= c < WIDTH,
    ;
}

/// Parses a layout text.  Succeeds exactly on well-formed texts; a
/// malformed text is reported as a structured error, so a bad layout can
/// never bring the running system down.
pub fn parse_layout(text: &[u8]) -> (r: Result<Layout, LayoutError>)
    ensures
        r is Ok <==> layout_ok(text@),
        r matches Ok(l) ==> l.wf() && l@ == parsed_layout(text@),
        r matches Err(e) ==> e == (if !shape_ok(text@) {
            LayoutError::BadShape
        } else {
            LayoutError::BadGlyph
        }),
{
    if text.len() != LAYOUT_TEXT_LEN {
        return Err(LayoutError::BadShape);
    }
    let mut r: usize = 0;
    while r < (HEIGHT as usize) - 1
        invariant
            text@.len() == LAYOUT_TEXT_LEN,
            r <= (HEIGHT as usize) - 1,
            forall|j: int| 0 <= j < r ==> layout_byte(text@, j, WIDTH as int) == NEWLINE,
        decreases (HEIGHT as usize) - 1 - r,
    {
        if text[r * LINE_STRIDE + (WIDTH as usize)] != NEWLINE {
            proof {
                assert(layout_byte(text@, r as int, WIDTH as int) != NEWLINE);
            }
            return Err(LayoutError::BadShape);
        }
        r = r + 1;
    }
    assert(shape_ok(text@));

    let mut cells: Vec<Cell> = Vec::new();
    let mut spawns: Vec<Position> = Vec::new();
    let mut start: Option<Position> = None;
    let mut row: usize = 0;
    while row < (HEIGHT as usize)
        invariant
            text@.len() == LAYOUT_TEXT_LEN,
            shape_ok(text@),
            row <= HEIGHT,
            cells@.len() == row * (WIDTH as int),
            forall|k: int|
                0 <= k < cells@.len() ==> cells@[k] == cell_of_glyph(byte_of_cell(text@, k)),
            spawns@ == layout_spawns_upto(text@, row * (WIDTH as int)),
            spawns@.len() <= INVADER_CAPACITY,
            start == first_player_upto(text@, row * (WIDTH as int)),
            forall|j: int| 0 <= j < spawns@.len() ==> (#[trigger] spawns@[j]).spec_is_legal(),
            start matches Some(p) ==> p.spec_is_legal(),
            forall|rr: int, cc: int|
                0 <= rr && 0 <= cc < WIDTH && rr * WIDTH + cc < row * WIDTH ==> glyph_ok(
                    #[trigger] layout_byte(text@, rr, cc),
                ),
        decreases (HEIGHT as usize) - row,
    {
        let mut col: usize = 0;
        while col < (WIDTH as usize)
            invariant
                text@.len() == LAYOUT_TEXT_LEN,
                shape_ok(text@),
                row < HEIGHT,
                col <= WIDTH,
                cells@.len() == row * (WIDTH as int) + col,
                forall|k: int|
                    0 <= k < cells@.len() ==> cells@[k] == cell_of_glyph(byte_of_cell(text@, k)),
                spawns@ == layout_spawns_upto(text@, row * (WIDTH as int) + col),
                spawns@.len() <= INVADER_CAPACITY,
                start == first_player_upto(text@, row * (WIDTH as int) + col),
                forall|j: int| 0 <= j < spawns@.len() ==> (#[trigger] spawns@[j]).spec_is_legal(),
                start matches Some(p) ==> p.spec_is_legal(),
                forall|rr: int, cc: int|
                    0 <= rr && 0 <= cc < WIDTH && rr * WIDTH + cc < row * WIDTH + col ==> glyph_ok(
                        #[trigger] layout_byte(text@, rr, cc),
                    ),
            decreases (WIDTH as usize) - col,
        {
            let b = text[row * LINE_STRIDE + col];
            proof {
                lemma_flat_index(row as int, col as int);
                assert(byte_of_cell(text@, row * (WIDTH as int) + col) == b);
            }
            if !(b == WALL_GLYPH || b == BARRICADE_GLYPH || b == EMPTY_GLYPH || b == PLAYER_GLYPH
                || b == INVADER_GLYPH) {
                proof {
                    assert(!glyph_ok(layout_byte(text@, row as int, col as int)));
                }
                return Err(LayoutError::BadGlyph);
            }
            if b == PLAYER_GLYPH {
                if start.is_none() {
                    start = Some(Position { col: col as i16, row: row as i16 });
                }
            } else if b == INVADER_GLYPH {
                if spawns.len() < INVADER_CAPACITY {
                    spawns.push(Position { col: col as i16, row: row as i16 });
                }
            }
            cells.push(cell_of_glyph_exec(b));
            proof {
                assert forall|rr: int, cc: int|
                    0 <= rr && 0 <= cc < WIDTH && rr * WIDTH + cc < row * WIDTH + col + 1
                        implies glyph_ok(#[trigger] layout_byte(text@, rr, cc)) by {
                    if rr * WIDTH + cc == row * WIDTH + col {
                        lemma_flat_index(rr, cc);
                        lemma_flat_index(row as int, col as int);
                    }
                }
            }
            col = col + 1;
        }
        row = row + 1;
    }
    assert(glyphs_ok(text@)) by {
        assert forall|rr: int, cc: int| 0 <= rr < HEIGHT && 0 <= cc < WIDTH implies glyph_ok(
            #[trigger] layout_byte(text@, rr, cc),
        ) by {
            assert(rr * WIDTH + cc < HEIGHT as int * WIDTH as int) by (nonlinear_arith)
                requires
                    0 <= rr < HEIGHT && 0 <= cc < WIDTH,
            ;
        }
    }
    let start_pos = match start {
        Some(p) => p,
        None => Position { col: PLAYER_START_COL, row: PLAYER_START_ROW },
    };
    proof {
        assert(cells@ =~= layout_cells(text@));
    }
    let grid = Grid { cells };
    Ok(Layout { grid, start: start_pos, spawns })
}

/// The cell a glyph classifies.
pub fn cell_of_glyph_exec(b: u8) -> (r: Cell)
    ensures
        r == cell_of_glyph(b),
{
    if b == WALL_GLYPH {
        Cell::Wall
    } else if b == BARRICADE_GLYPH {
        Cell::Barricade
    } else {
        Cell::Empty
    }
}

} // verus!
