use vstd::prelude::*;
use vstd::set_lib::{lemma_int_range, lemma_len_subset, lemma_set_disjoint_lens, set_int_range};
use crate::piece::{PieceKind, Shape, shape_view};

verus! {

/// Width of the grid, in cells.
pub const WIDTH: usize = 10;

/// Height of the grid, in cells; row 0 is the top.
pub const HEIGHT: usize = 20;

pub type Row = [Option<PieceKind>; WIDTH];

/// The model of a grid: `HEIGHT` rows of `WIDTH` cells, each empty or tagged with a kind.
pub type Grid = Seq<Seq<Option<PieceKind>>>;

/// The locked cells of the playing field.
#[derive(Clone, Copy, Debug)]
pub struct Board {
    pub cells: [Row; HEIGHT],
}

impl View for Board {
    type V = Grid;

    open spec fn view(&self) -> Grid {
        Seq::new(HEIGHT as nat, |r: int| self.cells[r]@)
    }
}

pub open spec fn is_grid(g: Grid) -> bool {
    g.len() == HEIGHT && forall|r: int| 0 <= r < HEIGHT ==> #[trigger] g[r].len() == WIDTH
}

pub open spec fn empty_row() -> Seq<Option<PieceKind>> {
    Seq::new(WIDTH as nat, |c: int| None)
}

pub open spec fn row_full(row: Seq<Option<PieceKind>>) -> bool {
    forall|c: int| 0 <= c < WIDTH ==> (#[trigger] row[c]).is_some()
}

/// The rows that are not full, top to bottom, in their original order.
pub open spec fn survivors(rows: Grid) -> Grid
    decreases rows.len(),
{
    if rows.len() == 0 {
        seq![]
    } else {
        let s = survivors(rows.drop_last());
        if row_full(rows.last()) {
            s
        } else {
            s.push(rows.last())
        }
    }
}

/// The grid after removing every full row: the survivors sink to the bottom and
/// empty rows fill the top.
pub open spec fn cleared(g: Grid) -> Grid {
    Seq::new((g.len() - survivors(g).len()) as nat, |i: int| empty_row()) + survivors(g)
}

/// The number of full rows of a grid.
pub open spec fn full_row_count(g: Grid) -> nat {
    (g.len() - survivors(g).len()) as nat
}

/// Whether matrix cell `(row - y, col - x)` is one of the first `n` cells of the
/// shape in row-major order, and filled.
pub open spec fn covers(s: Seq<Seq<bool>>, x: int, y: int, row: int, col: int, n: int) -> bool {
    0 <= row - y < 4 && 0 <= col - x < 4 && (row - y) * 4 + (col - x) < n && s[row - y][col - x]
}

/// The grid with the first `n` cells of a shape anchored at `(x, y)` written as `k`;
/// cells that fall outside the grid are dropped.
pub open spec fn placed_upto(g: Grid, s: Seq<Seq<bool>>, x: int, y: int, k: PieceKind, n: int) -> Grid {
    Seq::new(
        g.len(),
        |row: int|
            Seq::new(
                g[row].len(),
                |col: int|
                    if covers(s, x, y, row, col, n) {
                        Some(k)
                    } else {
                        g[row][col]
                    },
            ),
    )
}

/// The grid with every filled cell of a shape anchored at `(x, y)` written as `k`.
pub open spec fn placed(g: Grid, s: Seq<Seq<bool>>, x: int, y: int, k: PieceKind) -> Grid {
    placed_upto(g, s, x, y, k, 16)
}

/// The cells `(row, col)` with `0 <= row < h` and `0 <= col < w`.
pub open spec fn box_cells(h: int, w: int) -> Set<(int, int)> {
    Set::new(|p: (int, int)| 0 <= p.0 < h && 0 <= p.1 < w)
}

/// The occupied cells of a grid, as `(row, col)` pairs.
pub open spec fn occupied(g: Grid) -> Set<(int, int)> {
    Set::new(|p: (int, int)| 0 <= p.0 < HEIGHT && 0 <= p.1 < WIDTH && g[p.0][p.1].is_some())
}

/// The grid cells `(row, col)` that a shape anchored at `(x, y)` covers.
pub open spec fn piece_cells(s: Seq<Seq<bool>>, x: int, y: int) -> Set<(int, int)> {
    Set::new(|p: (int, int)| covers(s, x, y, p.0, p.1, 16))
}

pub proof fn lemma_box_finite(h: int, w: int)
    requires
        0 <= h,
        0 <= w,
    ensures
        box_cells(h, w).finite(),
    decreases h,
{
    if h == 0 {
        assert(box_cells(h, w) =~= Set::empty());
    } else {
        lemma_box_finite(h - 1, w);
        lemma_int_range(0, w);
        let f = |c: int| (h - 1, c);
        let row = set_int_range(0, w).map(f);
        set_int_range(0, w).lemma_map_finite(f);
        assert forall|p: (int, int)| #[trigger] box_cells(h, w).contains(p) implies box_cells(h - 1, w).union(row).contains(p) by {
            if p.0 == h - 1 {
                assert(set_int_range(0, w).contains(p.1));
                assert(f(p.1) == p);
            }
        }
        assert(box_cells(h, w) =~= box_cells(h - 1, w).union(row));
    }
}

/// The cells that a shape anchored at `(x, y)` covers inside the grid.
pub open spec fn landed_cells(s: Seq<Seq<bool>>, x: int, y: int) -> Set<(int, int)> {
    Set::new(|p: (int, int)| covers(s, x, y, p.0, p.1, 16) && 0 <= p.0 < HEIGHT && 0 <= p.1 < WIDTH)
}

/// Writing a piece whose in-grid cells are all empty adds exactly those cells to the
/// occupied ones (cells outside the grid are dropped), so the occupied count grows by
/// their number; for a piece wholly inside the grid that is all of its cells.
pub proof fn lemma_place_adds_cells(g: Grid, s: Seq<Seq<bool>>, x: int, y: int, k: PieceKind)
    requires
        is_grid(g),
        forall|p: (int, int)| #[trigger] landed_cells(s, x, y).contains(p) ==> g[p.0][p.1].is_none(),
    ensures
        occupied(placed(g, s, x, y, k)) == occupied(g).union(landed_cells(s, x, y)),
        occupied(g).disjoint(landed_cells(s, x, y)),
        occupied(placed(g, s, x, y, k)).len() == occupied(g).len() + landed_cells(s, x, y).len(),
        (forall|p: (int, int)| #[trigger] piece_cells(s, x, y).contains(p) ==> 0 <= p.0 < HEIGHT
            && 0 <= p.1 < WIDTH) ==> landed_cells(s, x, y) == piece_cells(s, x, y),
{
    let b = box_cells(HEIGHT as int, WIDTH as int);
    let lc = landed_cells(s, x, y);
    lemma_box_finite(HEIGHT as int, WIDTH as int);
    assert(occupied(g).subset_of(b));
    assert(lc.subset_of(b));
    lemma_len_subset(occupied(g), b);
    lemma_len_subset(lc, b);
    assert(occupied(placed(g, s, x, y, k)) =~= occupied(g).union(lc));
    lemma_set_disjoint_lens(occupied(g), lc);
    if forall|p: (int, int)| #[trigger] piece_cells(s, x, y).contains(p) ==> 0 <= p.0 < HEIGHT
        && 0 <= p.1 < WIDTH {
        assert(lc =~= piece_cells(s, x, y));
    }
}

/// A grid with no full row is left as it is by clearing.
pub proof fn lemma_cleared_none_full(g: Grid)
    requires
        forall|r: int| 0 <= r < g.len() ==> !row_full(#[trigger] g[r]),
    ensures
        cleared(g) == g,
        full_row_count(g) == 0,
{
    lemma_survivors_none_full(g);
    assert(cleared(g) =~= g);
}

/// A grid without full rows keeps all of them.
pub proof fn lemma_survivors_none_full(rows: Grid)
    requires
        forall|r: int| 0 <= r < rows.len() ==> !row_full(#[trigger] rows[r]),
    ensures
        survivors(rows) == rows,
    decreases rows.len(),
{
    if rows.len() > 0 {
        lemma_survivors_none_full(rows.drop_last());
        assert(rows.drop_last().push(rows.last()) =~= rows);
    }
}

/// With only the bottom row full, clearing removes one row: the row above the
/// bottom becomes the bottom one, and the top row is empty.
pub proof fn lemma_clear_bottom_row(g: Grid)
    requires
        is_grid(g),
        row_full(g[HEIGHT - 1]),
        forall|r: int| 0 <= r < HEIGHT - 1 ==> !row_full(#[trigger] g[r]),
    ensures
        full_row_count(g) == 1,
        cleared(g)[HEIGHT - 1] == g[HEIGHT - 2],
        cleared(g)[0] == empty_row(),
{
    let d = g.drop_last();
    assert forall|r: int| 0 <= r < d.len() implies !row_full(#[trigger] d[r]) by {
        assert(d[r] == g[r]);
    }
    lemma_survivors_none_full(d);
    assert(g.last() == g[HEIGHT - 1]);
    assert(survivors(g) == d);
}

impl Board {
    /// The model of every board is a well-formed grid.
    pub proof fn lemma_is_grid(&self)
        ensures
            is_grid(self@),
    {
        assert forall|r: int| 0 <= r < HEIGHT implies #[trigger] self@[r].len() == WIDTH by {
            assert(self.cells[r]@.len() == WIDTH);
        }
    }

    /// A board with every cell empty.
    pub fn empty() -> (b: Board)
        ensures
            is_grid(b@),
            forall|r: int| 0 <= r < HEIGHT ==> #[trigger] b@[r] == empty_row(),
    {
        let b = Board { cells: [[None; WIDTH]; HEIGHT] };
        assert forall|r: int| 0 <= r < HEIGHT implies #[trigger] b@[r] == empty_row() by {
            assert(b@[r] =~= empty_row());
        }
        b
    }

    /// The cell at `(row, col)`.
    pub fn get(&self, row: usize, col: usize) -> (c: Option<PieceKind>)
        requires
            row < HEIGHT,
            col < WIDTH,
        ensures
            c == self@[row as int][col as int],
    {
        self.cells[row][col]
    }

    /// Writes one cell.
    pub fn set(&mut self, row: usize, col: usize, c: Option<PieceKind>)
        requires
            row < HEIGHT,
            col < WIDTH,
        ensures
            final(self)@ == old(self)@.update(row as int, old(self)@[row as int].update(col as int, c)),
    {
        let mut line = self.cells[row];
        line[col] = c;
        self.cells[row] = line;
        assert(final(self)@ =~= old(self)@.update(row as int, old(self)@[row as int].update(col as int, c)));
    }

    /// Whether every cell of the row is occupied.
    pub fn is_row_full(&self, row: usize) -> (b: bool)
        requires
            row < HEIGHT,
        ensures
            b == row_full(self@[row as int]),
    {
        let mut c: usize = 0;
        while c < WIDTH
            invariant
                c <= WIDTH,
                row < HEIGHT,
                forall|j: int| 0 <= j < c ==> (#[trigger] self@[row as int][j]).is_some(),
            decreases WIDTH - c,
        {
            if self.cells[row][c].is_none() {
                return false;
            }
            c += 1;
        }
        true
    }

    /// Writes every filled cell of `shape`, anchored with its top-left corner at
    /// `(x, y)`, as `kind`; cells outside the grid are dropped.
    pub fn place(&mut self, shape: &Shape, x: i32, y: i32, kind: PieceKind)
        ensures
            final(self)@ == placed(old(self)@, shape_view(*shape), x as int, y as int, kind),
    {
        let ghost g0 = self@;
        let ghost s = shape_view(*shape);
        let mut n: usize = 0;
        proof {
            self.lemma_is_grid();
            assert forall|row: int| 0 <= row < HEIGHT implies #[trigger] self@[row] =~= placed_upto(
                g0, s, x as int, y as int, kind, 0)[row] by {}
        }
        assert(self@ =~= placed_upto(g0, s, x as int, y as int, kind, 0));
        while n < 16
            invariant
                n <= 16,
                s == shape_view(*shape),
                is_grid(g0),
                self@ == placed_upto(g0, s, x as int, y as int, kind, n as int),
            decreases 16 - n,
        {
            let r: usize = n / 4;
            let c: usize = n % 4;
            let row: i64 = y as i64 + r as i64;
            let col: i64 = x as i64 + c as i64;
            let ghost before = self@;
            if shape[r][c] && 0 <= row && row < HEIGHT as i64 && 0 <= col && col < WIDTH as i64 {
                self.set(row as usize, col as usize, Some(kind));
            }
            assert(self@ =~~= placed_upto(g0, s, x as int, y as int, kind, n as int + 1));
            n += 1;
        }
    }

    /// Removes every full row; the rows above each one shift down and empty rows
    /// enter at the top. Returns how many rows were removed.
    pub fn clear_full_rows(&mut self) -> (n: usize)
        ensures
            final(self)@ == cleared(old(self)@),
            n == full_row_count(old(self)@),
            n <= HEIGHT,
    {
        let ghost g = self@;
        let mut kept: Vec<Row> = Vec::new();
        let mut r: usize = 0;
        while r < HEIGHT
            invariant
                r <= HEIGHT,
                g == self@,
                kept@.len() <= r,
                kept@.map_values(|a: Row| a@) == survivors(g.take(r as int)),
            decreases HEIGHT - r,
        {
            let ghost t = g.take(r as int + 1);
            assert(t.drop_last() =~= g.take(r as int));
            assert(t.last() == g[r as int]);
            if !self.is_row_full(r) {
                kept.push(self.cells[r]);
                assert(kept@.map_values(|a: Row| a@) =~= survivors(g.take(r as int)).push(g[r as int]));
            }
            r += 1;
        }
        assert(g.take(HEIGHT as int) =~= g);
        let removed: usize = HEIGHT - kept.len();
        let mut cells: [Row; HEIGHT] = [[None; WIDTH]; HEIGHT];
        let mut i: usize = 0;
        while i < kept.len()
            invariant
                kept@.len() <= HEIGHT,
                removed == HEIGHT - kept@.len(),
                i <= kept@.len(),
                forall|j: int| 0 <= j < removed ==> #[trigger] cells[j]@ == empty_row(),
                forall|j: int| removed <= j < removed + i ==> #[trigger] cells[j]@ == kept@[j - removed]@,
                forall|j: int| removed + i <= j < HEIGHT ==> #[trigger] cells[j]@ == empty_row(),
            decreases kept@.len() - i,
        {
            cells[removed + i] = kept[i];
            i += 1;
        }
        proof {
            assert forall|j: int| 0 <= j < removed implies #[trigger] cells[j]@ == empty_row() by {}
        }
        self.cells = cells;
        proof {
            let sv = survivors(g);
            assert(sv == kept@.map_values(|a: Row| a@));
            assert forall|j: int| 0 <= j < HEIGHT implies #[trigger] self@[j] == cleared(g)[j] by {
                if j < removed {
                    assert(cells[j]@ =~= empty_row());
                } else {
                    assert(cells[j]@ == kept@[j - removed]@);
                }
            }
            assert(self@ =~= cleared(g));
        }
        removed
    }
}

} // verus!
