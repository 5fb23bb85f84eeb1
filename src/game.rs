use vstd::prelude::*;
use rand::Rng;
use crate::board::{
    Board, Grid, HEIGHT, WIDTH, cleared, empty_row, full_row_count, is_grid, landed_cells,
    lemma_cleared_none_full, lemma_place_adds_cells, occupied, piece_cells, placed, row_full,
};
use crate::piece::{
    KIND_COUNT, Piece, PieceKind, is_grid4, kind_index, kind_of_index, lemma_rotate_keeps,
    lemma_spawn_shape, nonempty, rotate_view, rotated, shape_view, spawn_shape,
};

verus! {

/// Column of the anchor of a freshly spawned piece: `WIDTH / 2 - 2`.
pub const SPAWN_X: i32 = 3;

/// Row of the anchor of a freshly spawned piece.
pub const SPAWN_Y: i32 = 0;

/// Whether a piece cell may stand at `(col, row)`: inside the side walls, above the
/// floor, and on an empty cell unless it is above the visible grid.
pub open spec fn cell_free(g: Grid, col: int, row: int) -> bool {
    0 <= col < WIDTH && row < HEIGHT && (row >= 0 ==> g[row][col].is_none())
}

/// Whether every filled cell of `s`, anchored at `(x, y)`, may stand on the grid.
pub open spec fn fits(g: Grid, s: Seq<Seq<bool>>, x: int, y: int) -> bool {
    forall|r: int, c: int|
        0 <= r < 4 && 0 <= c < 4 && #[trigger] s[r][c] ==> cell_free(g, x + c, y + r)
}

/// `a`, or `max` where `a` exceeds it.
pub open spec fn capped(a: nat, max: nat) -> nat {
    if a > max {
        max
    } else {
        a
    }
}

/// Base points for clearing `n` rows at once.
pub open spec fn line_points(n: nat) -> nat {
    if n == 0 {
        0
    } else if n == 1 {
        100
    } else if n == 2 {
        300
    } else if n == 3 {
        500
    } else if n == 4 {
        800
    } else {
        1000
    }
}

/// The level reached after clearing `lines` rows in total.
pub open spec fn level_for(lines: nat) -> nat {
    lines / 10 + 1
}

/// The gravity interval of a level, in milliseconds.
pub open spec fn interval_for(level: nat) -> nat {
    if 800 - (level - 1) * 50 < 100 {
        100
    } else {
        (800 - (level - 1) * 50) as nat
    }
}

/// Points for clearing `n` rows at once at the given level.
pub fn clear_award(n: u32, level: u32) -> (pts: u64)
    ensures
        pts == line_points(n as nat) * level,
{
    let base: u64 = if n == 0 {
        0
    } else if n == 1 {
        100
    } else if n == 2 {
        300
    } else if n == 3 {
        500
    } else if n == 4 {
        800
    } else {
        1000
    };
    assert(base * level <= 1000 * 0x1_0000_0000) by (nonlinear_arith)
        requires
            base <= 1000,
            level < 0x1_0000_0000,
    ;
    base * level as u64
}

/// The level reached after clearing `lines` rows in total: one more than a tenth of them.
pub fn level_for_lines(lines: u32) -> (level: u32)
    ensures
        level == level_for(lines as nat),
{
    lines / 10 + 1
}

/// The gravity interval for a level: 800 ms, 50 ms less per level above the first,
/// never under 100 ms.
pub fn drop_interval_ms(level: u32) -> (ms: u64)
    requires
        level >= 1,
    ensures
        ms == interval_for(level as nat),
{
    let steps: u64 = (level - 1) as u64;
    if steps >= 14 {
        100
    } else {
        800 - steps * 50
    }
}

/// Relies on rand::thread_rng and Rng::gen_range: a value in `0..bound`, which
/// gen_range draws uniformly and panics on only for an empty range.
#[verifier::external_body]
fn draw_below(bound: usize) -> (r: usize)
    requires
        bound > 0,
    ensures
        r < bound,
{
    rand::thread_rng().gen_range(0..bound)
}

/// A piece kind drawn uniformly at random.
pub fn random_kind() -> (k: PieceKind) {
    PieceKind::from_index(draw_below(KIND_COUNT))
}

/// The kind that the `r`-th of the six kinds other than `other` names, in index order.
pub fn other_kind(other: PieceKind, r: usize) -> (k: PieceKind)
    requires
        r < KIND_COUNT - 1,
    ensures
        k != other,
        kind_index(k) == if r < kind_index(other) {
            r as nat
        } else {
            r as nat + 1
        },
{
    let o = other.index();
    let i: usize = if r < o {
        r
    } else {
        r + 1
    };
    PieceKind::from_index(i)
}

/// A player's request to the session.
#[derive(Clone, Copy, Debug, PartialEq, Eq, Structural)]
pub enum Intent {
    MoveLeft,
    MoveRight,
    SoftDrop,
    Rotate,
    HardDrop,
    TogglePause,
    Restart,
    Quit,
}

/// What the driver should do after an intent: go on, start a new session, or stop.
#[derive(Clone, Copy, Debug, PartialEq, Eq, Structural)]
pub enum Command {
    Continue,
    Restart,
    Quit,
}

/// A game session: the locked grid, the falling piece, the next piece, and the
/// score, line and level counters.
#[derive(Clone, Copy, Debug)]
pub struct Game {
    board: Board,
    current: Piece,
    x: i32,
    y: i32,
    next: Piece,
    score: u64,
    lines: u32,
    level: u32,
    game_over: bool,
    paused: bool,
}

impl Game {
    pub closed spec fn grid(&self) -> Grid {
        self.board@
    }

    pub closed spec fn shape(&self) -> Seq<Seq<bool>> {
        shape_view(self.current.shape)
    }

    pub closed spec fn kind(&self) -> PieceKind {
        self.current.kind
    }

    pub closed spec fn pos_x(&self) -> int {
        self.x as int
    }

    pub closed spec fn pos_y(&self) -> int {
        self.y as int
    }

    pub closed spec fn next_kind(&self) -> PieceKind {
        self.next.kind
    }

    pub closed spec fn next_shape(&self) -> Seq<Seq<bool>> {
        shape_view(self.next.shape)
    }

    pub closed spec fn score_of(&self) -> nat {
        self.score as nat
    }

    pub closed spec fn lines_of(&self) -> nat {
        self.lines as nat
    }

    pub closed spec fn level_of(&self) -> nat {
        self.level as nat
    }

    pub closed spec fn is_over(&self) -> bool {
        self.game_over
    }

    pub closed spec fn is_paused(&self) -> bool {
        self.paused
    }

    /// The next piece is in spawn orientation and the level matches the line count.
    pub open spec fn parts_ok(&self) -> bool {
        &&& is_grid4(self.shape())
        &&& nonempty(self.shape())
        &&& self.next_shape() == spawn_shape(self.next_kind())
        &&& self.level_of() == level_for(self.lines_of())
        &&& self.lines_of() <= u32::MAX
        &&& self.score_of() <= u64::MAX
    }

    /// The session invariant: the parts are consistent, and a running game's piece
    /// stands on free cells.
    pub open spec fn wf(&self) -> bool {
        &&& self.parts_ok()
        &&& !self.is_over() ==> fits(self.grid(), self.shape(), self.pos_x(), self.pos_y())
    }

    /// Whether `post` and `pre` agree on everything but the anchor.
    pub open spec fn same_but_anchor(pre: Game, post: Game) -> bool {
        &&& post.grid() == pre.grid()
        &&& post.kind() == pre.kind()
        &&& post.shape() == pre.shape()
        &&& post.next_kind() == pre.next_kind()
        &&& post.next_shape() == pre.next_shape()
        &&& post.score_of() == pre.score_of()
        &&& post.lines_of() == pre.lines_of()
        &&& post.level_of() == pre.level_of()
        &&& post.is_over() == pre.is_over()
        &&& post.is_paused() == pre.is_paused()
    }

    /// Whether `post` is `pre` with its anchor moved by `(dx, dy)`.
    pub open spec fn moved(pre: Game, post: Game, dx: int, dy: int) -> bool {
        &&& Game::same_but_anchor(pre, post)
        &&& post.pos_x() == pre.pos_x() + dx
        &&& post.pos_y() == pre.pos_y() + dy
    }

    /// Whether `post` differs from `pre` at most in the falling piece's shape.
    pub open spec fn same_but_shape(pre: Game, post: Game) -> bool {
        &&& post.grid() == pre.grid()
        &&& post.kind() == pre.kind()
        &&& post.pos_x() == pre.pos_x()
        &&& post.pos_y() == pre.pos_y()
        &&& post.next_kind() == pre.next_kind()
        &&& post.next_shape() == pre.next_shape()
        &&& post.score_of() == pre.score_of()
        &&& post.lines_of() == pre.lines_of()
        &&& post.level_of() == pre.level_of()
        &&& post.is_over() == pre.is_over()
        &&& post.is_paused() == pre.is_paused()
    }

    /// Whether `post` is `pre` with its paused flag flipped.
    pub open spec fn toggled(pre: Game, post: Game) -> bool {
        &&& post.grid() == pre.grid()
        &&& post.kind() == pre.kind()
        &&& post.shape() == pre.shape()
        &&& post.pos_x() == pre.pos_x()
        &&& post.pos_y() == pre.pos_y()
        &&& post.next_kind() == pre.next_kind()
        &&& post.next_shape() == pre.next_shape()
        &&& post.score_of() == pre.score_of()
        &&& post.lines_of() == pre.lines_of()
        &&& post.level_of() == pre.level_of()
        &&& post.is_over() == pre.is_over()
        &&& post.is_paused() == !pre.is_paused()
    }

    /// Whether `post` is `pre` with its next piece promoted to the spawn point and `k`
    /// drawn as the new next piece; the game ends if the promoted piece does not fit.
    pub open spec fn spawned(pre: Game, post: Game, k: PieceKind) -> bool {
        &&& post.grid() == pre.grid()
        &&& post.kind() == pre.next_kind()
        &&& post.shape() == pre.next_shape()
        &&& post.next_kind() == k
        &&& post.next_shape() == spawn_shape(k)
        &&& post.pos_x() == SPAWN_X
        &&& post.pos_y() == SPAWN_Y
        &&& post.score_of() == pre.score_of()
        &&& post.lines_of() == pre.lines_of()
        &&& post.level_of() == pre.level_of()
        &&& post.is_paused() == pre.is_paused()
        &&& post.is_over() == (pre.is_over() || !fits(
            pre.grid(),
            pre.next_shape(),
            SPAWN_X as int,
            SPAWN_Y as int,
        ))
    }

    /// Whether `post` is `pre` with the full rows of its grid removed and the counters
    /// credited: points by the level before the clear, then the level recomputed.
    pub open spec fn cleared_from(pre: Game, post: Game) -> bool {
        let n = full_row_count(pre.grid());
        let lines = capped(pre.lines_of() + n, u32::MAX as nat);
        &&& post.grid() == cleared(pre.grid())
        &&& post.score_of() == capped(pre.score_of() + line_points(n) * pre.level_of(), u64::MAX as nat)
        &&& post.lines_of() == lines
        &&& post.level_of() == level_for(lines)
        &&& post.kind() == pre.kind()
        &&& post.shape() == pre.shape()
        &&& post.next_kind() == pre.next_kind()
        &&& post.next_shape() == pre.next_shape()
        &&& post.pos_x() == pre.pos_x()
        &&& post.pos_y() == pre.pos_y()
        &&& post.is_over() == pre.is_over()
        &&& post.is_paused() == pre.is_paused()
    }

    /// Whether `post` is `pre` after its piece, standing at row `y` of its column and
    /// with the score at `score`, is written into the grid, full rows are cleared and
    /// credited, and a new piece is spawned with `k` drawn as next.
    pub open spec fn locked_from(pre: Game, post: Game, k: PieceKind, y: int, score: nat) -> bool {
        let g1 = placed(pre.grid(), pre.shape(), pre.pos_x(), y, pre.kind());
        let n = full_row_count(g1);
        let g2 = cleared(g1);
        let lines = capped(pre.lines_of() + n, u32::MAX as nat);
        &&& post.grid() == g2
        &&& post.score_of() == capped(score + line_points(n) * pre.level_of(), u64::MAX as nat)
        &&& post.lines_of() == lines
        &&& post.level_of() == level_for(lines)
        &&& post.kind() == pre.next_kind()
        &&& post.shape() == pre.next_shape()
        &&& post.next_kind() == k
        &&& post.next_shape() == spawn_shape(k)
        &&& post.pos_x() == SPAWN_X
        &&& post.pos_y() == SPAWN_Y
        &&& post.is_paused() == pre.is_paused()
        &&& post.is_over() == (pre.is_over() || !fits(
            g2,
            pre.next_shape(),
            SPAWN_X as int,
            SPAWN_Y as int,
        ))
    }

    /// Whether `post` is `pre` after its piece is locked where it stands.
    pub open spec fn locked(pre: Game, post: Game, k: PieceKind) -> bool {
        Game::locked_from(pre, post, k, pre.pos_y(), pre.score_of())
    }

    /// Whether `post` is `pre` after a hard drop of `d` rows: two points per row,
    /// then the lock at the lower row.
    pub open spec fn hard_dropped(pre: Game, post: Game, k: PieceKind, d: nat) -> bool {
        &&& pre.drop_distance(d)
        &&& Game::locked_from(pre, post, k, pre.pos_y() + d, capped(pre.score_of() + 2 * d, u64::MAX as nat))
    }

    /// `self` with its piece `d` rows lower and two points credited per row.
    closed spec fn dropped(self, d: nat) -> Game {
        Game { y: (self.y + d) as i32, score: capped(self.score as nat + 2 * d, u64::MAX as nat) as u64, ..self }
    }

    /// Whether `d` is how far the piece falls: it fits at every row down to `d` rows
    /// below and not one row further.
    pub open spec fn drop_distance(self, d: nat) -> bool {
        &&& forall|i: int|
            0 <= i <= d ==> #[trigger] fits(self.grid(), self.shape(), self.pos_x(), self.pos_y() + i)
        &&& !fits(self.grid(), self.shape(), self.pos_x(), self.pos_y() + d + 1)
    }

    /// A session on the given board with the given falling and next pieces, the
    /// falling one at the spawn point; it starts finished if that piece does not fit.
    pub fn with_board(board: Board, current: PieceKind, next: PieceKind) -> (g: Game)
        ensures
            g.wf(),
            g.grid() == board@,
            g.kind() == current,
            g.shape() == spawn_shape(current),
            g.next_kind() == next,
            g.pos_x() == SPAWN_X,
            g.pos_y() == SPAWN_Y,
            g.score_of() == 0,
            g.lines_of() == 0,
            g.level_of() == 1,
            !g.is_paused(),
            g.is_over() == !fits(board@, spawn_shape(current), SPAWN_X as int, SPAWN_Y as int),
    {
        proof {
            lemma_spawn_shape(current);
            lemma_spawn_shape(next);
        }
        let mut g = Game {
            board,
            current: Piece::of_kind(current),
            x: SPAWN_X,
            y: SPAWN_Y,
            next: Piece::of_kind(next),
            score: 0,
            lines: 0,
            level: 1,
            game_over: false,
            paused: false,
        };
        if !g.is_valid_position(0, 0) {
            g.game_over = true;
        }
        g
    }

    /// A fresh session with an empty grid and the given falling and next pieces.
    pub fn with_pieces(current: PieceKind, next: PieceKind) -> (g: Game)
        ensures
            g.wf(),
            forall|r: int| 0 <= r < HEIGHT ==> #[trigger] g.grid()[r] == empty_row(),
            g.kind() == current,
            g.shape() == spawn_shape(current),
            g.next_kind() == next,
            g.pos_x() == SPAWN_X,
            g.pos_y() == SPAWN_Y,
            g.score_of() == 0,
            g.lines_of() == 0,
            g.level_of() == 1,
            !g.is_paused(),
            !g.is_over(),
    {
        let b = Board::empty();
        proof {
            lemma_spawn_shape(current);
            let s = spawn_shape(current);
            assert forall|r: int, c: int|
                0 <= r < 4 && 0 <= c < 4 && #[trigger] s[r][c] implies cell_free(
                b@,
                SPAWN_X + c,
                SPAWN_Y + r,
            ) by {
                assert(b@[SPAWN_Y + r] == empty_row());
            }
        }
        Game::with_board(b, current, next)
    }

    /// A fresh session: an empty grid, a random falling piece, and a random next
    /// piece of another kind. The next piece is drawn uniformly among the six other
    /// kinds, which gives it the same distribution as redrawing until it differs.
    pub fn new() -> (g: Game)
        ensures
            g.wf(),
            forall|r: int| 0 <= r < HEIGHT ==> #[trigger] g.grid()[r] == empty_row(),
            g.shape() == spawn_shape(g.kind()),
            g.next_kind() != g.kind(),
            g.pos_x() == SPAWN_X,
            g.pos_y() == SPAWN_Y,
            g.score_of() == 0,
            g.lines_of() == 0,
            g.level_of() == 1,
            !g.is_paused(),
            !g.is_over(),
    {
        let current = random_kind();
        let next = other_kind(current, draw_below(KIND_COUNT - 1));
        Game::with_pieces(current, next)
    }

    /// Whether the falling piece, moved by `(dx, dy)`, would stand on free cells.
    pub fn is_valid_position(&self, dx: i32, dy: i32) -> (b: bool)
        requires
            is_grid4(self.shape()),
        ensures
            b == fits(self.grid(), self.shape(), self.pos_x() + dx, self.pos_y() + dy),
    {
        let ghost g = self.grid();
        let ghost s = self.shape();
        let ghost x = self.pos_x() + dx;
        let ghost y = self.pos_y() + dy;
        proof {
            self.board.lemma_is_grid();
        }
        let mut r: usize = 0;
        while r < 4
            invariant
                r <= 4,
                g == self.grid(),
                s == self.shape(),
                x == self.pos_x() + dx,
                y == self.pos_y() + dy,
                is_grid(g),
                is_grid4(s),
                forall|i: int, c: int|
                    0 <= i < r && 0 <= c < 4 && #[trigger] s[i][c] ==> cell_free(g, x + c, y + i),
            decreases 4 - r,
        {
            let mut c: usize = 0;
            while c < 4
                invariant
                    r < 4,
                    c <= 4,
                    g == self.grid(),
                    s == self.shape(),
                    x == self.pos_x() + dx,
                    y == self.pos_y() + dy,
                    is_grid(g),
                    is_grid4(s),
                    forall|i: int, j: int|
                        0 <= i < r && 0 <= j < 4 && #[trigger] s[i][j] ==> cell_free(g, x + j, y + i),
                    forall|j: int| 0 <= j < c && #[trigger] s[r as int][j] ==> cell_free(g, x + j, y + r),
                decreases 4 - c,
            {
                if self.current.shape[r][c] {
                    let col: i64 = self.x as i64 + c as i64 + dx as i64;
                    let row: i64 = self.y as i64 + r as i64 + dy as i64;
                    if col < 0 || col >= WIDTH as i64 || row >= HEIGHT as i64 {
                        assert(s[r as int][c as int]);
                        return false;
                    }
                    if row >= 0 && self.board.get(row as usize, col as usize).is_some() {
                        assert(s[r as int][c as int]);
                        return false;
                    }
                }
                c += 1;
            }
            r += 1;
        }
        true
    }

    /// Turns the falling piece a quarter turn about the centre of its 4x4 box. The
    /// turn is kept only if the turned piece fits at the same anchor; there are no
    /// wall kicks. Does nothing while paused or finished.
    pub fn rotate_piece(&mut self)
        requires
            old(self).wf(),
        ensures
            final(self).wf(),
            Game::same_but_shape(*old(self), *final(self)),
            if !old(self).is_over() && !old(self).is_paused() && fits(
                old(self).grid(),
                rotate_view(old(self).shape()),
                old(self).pos_x(),
                old(self).pos_y(),
            ) {
                final(self).shape() == rotate_view(old(self).shape())
            } else {
                *final(self) == *old(self)
            },
    {
        if self.game_over || self.paused {
            return;
        }
        proof {
            lemma_rotate_keeps(self.shape());
        }
        let old_shape = self.current.shape;
        self.current.shape = rotated(&old_shape);
        if !self.is_valid_position(0, 0) {
            self.current.shape = old_shape;
        }
    }

    /// Promotes the next piece to the falling one at the spawn point and takes `k`
    /// as the new next piece. The game ends if the promoted piece does not fit there.
    pub fn spawn_new_piece_with(&mut self, k: PieceKind)
        requires
            old(self).next_shape() == spawn_shape(old(self).next_kind()),
            old(self).level_of() == level_for(old(self).lines_of()),
        ensures
            final(self).wf(),
            Game::spawned(*old(self), *final(self), k),
    {
        proof {
            lemma_spawn_shape(self.next_kind());
        }
        self.current = self.next;
        self.next = Piece::of_kind(k);
        self.x = SPAWN_X;
        self.y = SPAWN_Y;
        if !self.is_valid_position(0, 0) {
            self.game_over = true;
        }
    }

    /// Promotes the next piece and draws a new one at random.
    pub fn spawn_new_piece(&mut self)
        requires
            old(self).next_shape() == spawn_shape(old(self).next_kind()),
            old(self).level_of() == level_for(old(self).lines_of()),
        ensures
            final(self).wf(),
            Game::spawned(*old(self), *final(self), final(self).next_kind()),
    {
        let k = random_kind();
        self.spawn_new_piece_with(k);
    }

    /// Removes every full row and credits the counters: the points for the number of
    /// rows removed at once, times the level before the clear; then the line total
    /// grows by that number and the level is recomputed from it. Returns the number.
    fn clear_lines(&mut self) -> (n: u32)
        requires
            old(self).level_of() == level_for(old(self).lines_of()),
        ensures
            Game::cleared_from(*old(self), *final(self)),
            n == full_row_count(old(self).grid()),
    {
        let removed = self.board.clear_full_rows();
        let n: u32 = removed as u32;
        if n > 0 {
            let pts = clear_award(n, self.level);
            self.score = self.score.saturating_add(pts);
            self.lines = self.lines.saturating_add(n);
            self.level = level_for_lines(self.lines);
        }
        assert(self.score == old(self).score.saturating_add((line_points(n as nat) * old(self).level) as u64));
        assert(self.lines == old(self).lines.saturating_add(n));
        n
    }

    /// Writes the falling piece into the grid at its anchor (cells outside the grid
    /// are dropped), clears full rows, and spawns the next piece with `k` drawn.
    pub fn lock_piece_with(&mut self, k: PieceKind)
        requires
            old(self).parts_ok(),
        ensures
            final(self).wf(),
            Game::locked(*old(self), *final(self), k),
    {
        let shape = self.current.shape;
        self.board.place(&shape, self.x, self.y, self.current.kind);
        self.clear_lines();
        self.spawn_new_piece_with(k);
    }

    /// Locks the falling piece and spawns the next one, drawing a new next piece at
    /// random.
    pub fn lock_piece(&mut self)
        requires
            old(self).parts_ok(),
        ensures
            final(self).wf(),
            Game::locked(*old(self), *final(self), final(self).next_kind()),
    {
        let k = random_kind();
        self.lock_piece_with(k);
    }

    /// Moves the falling piece by `(dx, dy)` if it fits there (and its anchor stays
    /// representable), and says whether it moved. A downward move that does not fit
    /// locks the piece instead, drawing `k` as the next piece. Does nothing while
    /// paused or finished.
    pub fn move_piece_with(&mut self, dx: i32, dy: i32, k: PieceKind) -> (moved: bool)
        requires
            old(self).wf(),
        ensures
            final(self).wf(),
            old(self).is_over() || old(self).is_paused() ==> !moved && *final(self) == *old(self),
            !old(self).is_over() && !old(self).is_paused() ==> {
                if fits(old(self).grid(), old(self).shape(), old(self).pos_x() + dx, old(self).pos_y() + dy)
                    && old(self).pos_y() + dy >= i32::MIN {
                    moved && Game::moved(*old(self), *final(self), dx as int, dy as int)
                } else if dy > 0 {
                    !moved && Game::locked(*old(self), *final(self), k)
                } else {
                    !moved && *final(self) == *old(self)
                }
            },
    {
        if self.game_over || self.paused {
            return false;
        }
        if self.is_valid_position(dx, dy) && self.y as i64 + dy as i64 >= i32::MIN as i64 {
            proof {
                let s = self.shape();
                let (r, c) = choose|r: int, c: int| 0 <= r < 4 && 0 <= c < 4 && #[trigger] s[r][c];
                assert(cell_free(self.grid(), self.pos_x() + dx + c, self.pos_y() + dy + r));
            }
            self.x = self.x + dx;
            self.y = self.y + dy;
            true
        } else if dy > 0 {
            self.lock_piece_with(k);
            false
        } else {
            false
        }
    }

    /// Moves the falling piece by `(dx, dy)`, as `move_piece_with`, drawing the next
    /// piece at random should the piece lock.
    pub fn move_piece(&mut self, dx: i32, dy: i32) -> (moved: bool)
        requires
            old(self).wf(),
        ensures
            final(self).wf(),
            old(self).is_over() || old(self).is_paused() ==> !moved && *final(self) == *old(self),
            !old(self).is_over() && !old(self).is_paused() ==> {
                if fits(old(self).grid(), old(self).shape(), old(self).pos_x() + dx, old(self).pos_y() + dy)
                    && old(self).pos_y() + dy >= i32::MIN {
                    moved && Game::moved(*old(self), *final(self), dx as int, dy as int)
                } else if dy > 0 {
                    !moved && Game::locked(*old(self), *final(self), final(self).next_kind())
                } else {
                    !moved && *final(self) == *old(self)
                }
            },
    {
        let k = random_kind();
        self.move_piece_with(dx, dy, k)
    }

    /// Drops the falling piece as far as it fits, crediting two points per row, then
    /// locks it and spawns the next piece with `k` drawn. Does nothing while paused or
    /// finished.
    pub fn hard_drop_with(&mut self, k: PieceKind)
        requires
            old(self).wf(),
        ensures
            final(self).wf(),
            old(self).is_over() || old(self).is_paused() ==> *final(self) == *old(self),
            !old(self).is_over() && !old(self).is_paused() ==> exists|d: nat|
                Game::hard_dropped(*old(self), *final(self), k, d),
    {
        if self.game_over || self.paused {
            return;
        }
        let ghost pre = *self;
        let ghost mut d: nat = 0;
        proof {
            assert(fits(pre.grid(), pre.shape(), pre.pos_x(), pre.pos_y() + 0));
            assert(pre.dropped(0) == pre);
        }
        while self.is_valid_position(0, 1)
            invariant
                self.wf(),
                !self.is_over(),
                !self.is_paused(),
                *self == pre.dropped(d),
                self.pos_y() == pre.pos_y() + d,
                self.score_of() == capped(pre.score_of() + 2 * d, u64::MAX as nat),
                forall|i: int| 0 <= i <= d ==> #[trigger] fits(pre.grid(), pre.shape(), pre.pos_x(), pre.pos_y() + i),
            decreases HEIGHT - self.pos_y(),
        {
            proof {
                let s = self.shape();
                let (r, c) = choose|r: int, c: int| 0 <= r < 4 && 0 <= c < 4 && #[trigger] s[r][c];
                assert(cell_free(self.grid(), self.pos_x() + c, self.pos_y() + 1 + r));
            }
            self.y = self.y + 1;
            self.score = self.score.saturating_add(2);
            proof {
                d = d + 1;
                assert(fits(pre.grid(), pre.shape(), pre.pos_x(), pre.pos_y() + d));
            }
        }
        assert(pre.drop_distance(d));
        self.lock_piece_with(k);
        assert(Game::hard_dropped(pre, *self, k, d));
    }

    /// Hard-drops the falling piece, as `hard_drop_with`, drawing the next piece at
    /// random.
    pub fn hard_drop(&mut self)
        requires
            old(self).wf(),
        ensures
            final(self).wf(),
            old(self).is_over() || old(self).is_paused() ==> *final(self) == *old(self),
            !old(self).is_over() && !old(self).is_paused() ==> exists|d: nat|
                Game::hard_dropped(*old(self), *final(self), final(self).next_kind(), d),
    {
        let k = random_kind();
        self.hard_drop_with(k);
    }

    /// Flips the paused flag; a finished game stays as it is.
    pub fn toggle_pause(&mut self)
        requires
            old(self).wf(),
        ensures
            final(self).wf(),
            old(self).is_over() ==> *final(self) == *old(self),
            !old(self).is_over() ==> Game::toggled(*old(self), *final(self)),
    {
        if !self.game_over {
            self.paused = !self.paused;
        }
    }

    /// Applies one player intent, drawing `k` as the next piece should a piece lock.
    /// Moves, turns and drops act only while running; pausing only before the end;
    /// a restart is asked for only once the game is over.
    pub fn apply_intent_with(&mut self, intent: Intent, k: PieceKind) -> (c: Command)
        requires
            old(self).wf(),
        ensures
            final(self).wf(),
            c == (match intent {
                Intent::Quit => Command::Quit,
                Intent::Restart => if old(self).is_over() {
                    Command::Restart
                } else {
                    Command::Continue
                },
                _ => Command::Continue,
            }),
            old(self).is_over() ==> *final(self) == *old(self),
            intent == Intent::TogglePause && !old(self).is_over() ==> Game::toggled(*old(self), *final(self)),
            (intent == Intent::Quit || intent == Intent::Restart) ==> *final(self) == *old(self),
            intent == Intent::Rotate ==> Game::same_but_shape(*old(self), *final(self)),
            intent == Intent::Rotate ==> if !old(self).is_over() && !old(self).is_paused() && fits(
                old(self).grid(),
                rotate_view(old(self).shape()),
                old(self).pos_x(),
                old(self).pos_y(),
            ) {
                final(self).shape() == rotate_view(old(self).shape())
            } else {
                *final(self) == *old(self)
            },
            !old(self).is_over() && !old(self).is_paused() ==> {
                let dx: int = if intent == Intent::MoveLeft {
                    -1
                } else if intent == Intent::MoveRight {
                    1
                } else {
                    0
                };
                let dy: int = if intent == Intent::SoftDrop {
                    1
                } else {
                    0
                };
                (intent == Intent::MoveLeft || intent == Intent::MoveRight || intent == Intent::SoftDrop)
                    ==> if fits(old(self).grid(), old(self).shape(), old(self).pos_x() + dx, old(self).pos_y() + dy) {
                    Game::moved(*old(self), *final(self), dx, dy)
                } else if dy > 0 {
                    Game::locked(*old(self), *final(self), k)
                } else {
                    *final(self) == *old(self)
                }
            },
            intent == Intent::HardDrop && !old(self).is_over() && !old(self).is_paused() ==> exists|d: nat|
                Game::hard_dropped(*old(self), *final(self), k, d),
            old(self).is_paused() && intent != Intent::TogglePause ==> *final(self) == *old(self),
    {
        match intent {
            Intent::Quit => Command::Quit,
            Intent::Restart => {
                if self.game_over {
                    Command::Restart
                } else {
                    Command::Continue
                }
            },
            Intent::TogglePause => {
                self.toggle_pause();
                Command::Continue
            },
            Intent::MoveLeft => {
                self.move_piece_with(-1, 0, k);
                Command::Continue
            },
            Intent::MoveRight => {
                self.move_piece_with(1, 0, k);
                Command::Continue
            },
            Intent::SoftDrop => {
                self.move_piece_with(0, 1, k);
                Command::Continue
            },
            Intent::Rotate => {
                self.rotate_piece();
                Command::Continue
            },
            Intent::HardDrop => {
                self.hard_drop_with(k);
                Command::Continue
            },
        }
    }

    /// Whether gravity should move the piece one row, `elapsed_ms` after the last
    /// gravity step: only while running, once more than the level's interval passed.
    pub fn gravity_due(&self, elapsed_ms: u64) -> (due: bool)
        requires
            self.wf(),
        ensures
            due == (!self.is_over() && !self.is_paused() && elapsed_ms > interval_for(
                self.level_of(),
            )),
    {
        !self.game_over && !self.paused && elapsed_ms > drop_interval_ms(self.level)
    }

    /// What the cell at `(row, col)` shows: the falling piece while the game runs,
    /// else the locked grid.
    pub fn visible_cell(&self, row: usize, col: usize) -> (c: Option<PieceKind>)
        requires
            row < HEIGHT,
            col < WIDTH,
        ensures
            c == if !self.is_over() && !self.is_paused() && 0 <= row - self.pos_y() < 4 && 0 <= col
                - self.pos_x() < 4 && self.shape()[row - self.pos_y()][col - self.pos_x()] {
                Some(self.kind())
            } else {
                self.grid()[row as int][col as int]
            },
    {
        let r: i64 = row as i64 - self.y as i64;
        let c: i64 = col as i64 - self.x as i64;
        if !self.game_over && !self.paused && 0 <= r && r < 4 && 0 <= c && c < 4 && self.current.shape[r as usize][c as usize] {
            Some(self.current.kind)
        } else {
            self.board.get(row, col)
        }
    }

    /// The locked grid.
    pub fn board(&self) -> (b: Board)
        ensures
            b@ == self.grid(),
    {
        self.board
    }

    /// The falling piece.
    pub fn current_piece(&self) -> (p: Piece)
        ensures
            p.kind == self.kind(),
            shape_view(p.shape) == self.shape(),
    {
        self.current
    }

    /// The next piece.
    pub fn next_piece(&self) -> (p: Piece)
        ensures
            p.kind == self.next_kind(),
            shape_view(p.shape) == self.next_shape(),
    {
        self.next
    }

    /// The anchor `(x, y)` of the falling piece's 4x4 box.
    pub fn anchor(&self) -> (a: (i32, i32))
        ensures
            a.0 == self.pos_x(),
            a.1 == self.pos_y(),
    {
        (self.x, self.y)
    }

    pub fn score(&self) -> (s: u64)
        ensures
            s == self.score_of(),
    {
        self.score
    }

    pub fn lines(&self) -> (n: u32)
        ensures
            n == self.lines_of(),
    {
        self.lines
    }

    pub fn level(&self) -> (n: u32)
        ensures
            n == self.level_of(),
    {
        self.level
    }

    pub fn is_game_over(&self) -> (b: bool)
        ensures
            b == self.is_over(),
    {
        self.game_over
    }

    pub fn is_paused_now(&self) -> (b: bool)
        ensures
            b == self.is_paused(),
    {
        self.paused
    }

    /// In every consistent session the grid has its fixed size and a running game's
    /// falling piece lies inside the walls, above the floor, and on no locked cell.
    pub proof fn lemma_running_piece_fits(g: Game)
        requires
            g.wf(),
        ensures
            is_grid(g.grid()),
            !g.is_over() ==> fits(g.grid(), g.shape(), g.pos_x(), g.pos_y()),
    {
        g.board.lemma_is_grid();
    }

    /// Locking a running game's piece adds exactly its cells that lie inside the
    /// grid to the occupied ones: the occupied count grows by their number (all of the
    /// piece's cells when it lies at row 0 or below; fewer when it straddles row 0).
    /// When no row is completed, that is the grid after the lock.
    pub proof fn lemma_lock_adds_piece_cells(pre: Game, post: Game, k: PieceKind)
        requires
            pre.wf(),
            !pre.is_over(),
            Game::locked(pre, post, k),
        ensures
            occupied(placed(pre.grid(), pre.shape(), pre.pos_x(), pre.pos_y(), pre.kind())).len()
                == occupied(pre.grid()).len() + landed_cells(pre.shape(), pre.pos_x(), pre.pos_y()).len(),
            (forall|p: (int, int)| #[trigger] piece_cells(pre.shape(), pre.pos_x(), pre.pos_y()).contains(p) ==> p.0 >= 0)
                ==> landed_cells(pre.shape(), pre.pos_x(), pre.pos_y()) == piece_cells(pre.shape(), pre.pos_x(), pre.pos_y()),
            (forall|r: int| 0 <= r < HEIGHT ==> !row_full(
                #[trigger] placed(pre.grid(), pre.shape(), pre.pos_x(), pre.pos_y(), pre.kind())[r],
            )) ==> occupied(post.grid()).len() == occupied(pre.grid()).len() + landed_cells(
                pre.shape(),
                pre.pos_x(),
                pre.pos_y(),
            ).len(),
    {
        pre.board.lemma_is_grid();
        let s = pre.shape();
        let g1 = placed(pre.grid(), s, pre.pos_x(), pre.pos_y(), pre.kind());
        let pc = piece_cells(s, pre.pos_x(), pre.pos_y());
        assert forall|p: (int, int)| #[trigger] pc.contains(p) implies 0 <= p.1 < WIDTH && p.0 < HEIGHT
            && (p.0 >= 0 ==> pre.grid()[p.0][p.1].is_none()) by {
            assert(s[p.0 - pre.pos_y()][p.1 - pre.pos_x()]);
        }
        assert forall|p: (int, int)| #[trigger] landed_cells(s, pre.pos_x(), pre.pos_y()).contains(p)
            implies pre.grid()[p.0][p.1].is_none() by {
            assert(pc.contains(p));
        }
        lemma_place_adds_cells(pre.grid(), s, pre.pos_x(), pre.pos_y(), pre.kind());
        if forall|r: int| 0 <= r < HEIGHT ==> !row_full(#[trigger] g1[r]) {
            assert(g1.len() == HEIGHT);
            lemma_cleared_none_full(g1);
        }
    }

    /// When locking leaves exactly one full row, the bottom one, that row is removed:
    /// the row above it moves to the bottom, the top row is empty, one line is added
    /// and 100 points times the level before the clear are credited.
    pub proof fn lemma_single_row_clear(pre: Game, post: Game, k: PieceKind)
        requires
            Game::locked(pre, post, k),
            row_full(placed(pre.grid(), pre.shape(), pre.pos_x(), pre.pos_y(), pre.kind())[HEIGHT - 1]),
            forall|r: int|
                0 <= r < HEIGHT - 1 ==> !row_full(
                    #[trigger] placed(pre.grid(), pre.shape(), pre.pos_x(), pre.pos_y(), pre.kind())[r],
                ),
            pre.score_of() + 100 * pre.level_of() <= u64::MAX,
            pre.lines_of() < u32::MAX,
        ensures
            post.grid()[HEIGHT - 1] == placed(pre.grid(), pre.shape(), pre.pos_x(), pre.pos_y(), pre.kind())[HEIGHT - 2],
            post.grid()[0] == empty_row(),
            post.lines_of() == pre.lines_of() + 1,
            post.score_of() == pre.score_of() + 100 * pre.level_of(),
    {
        pre.board.lemma_is_grid();
        let g1 = placed(pre.grid(), pre.shape(), pre.pos_x(), pre.pos_y(), pre.kind());
        assert(is_grid(g1));
        crate::board::lemma_clear_bottom_row(g1);
    }

    /// When locking completes four rows at once, 800 points times the level before
    /// the clear are credited, not four single-row awards.
    pub proof fn lemma_four_row_clear(pre: Game, post: Game, k: PieceKind)
        requires
            Game::locked(pre, post, k),
            full_row_count(placed(pre.grid(), pre.shape(), pre.pos_x(), pre.pos_y(), pre.kind())) == 4,
            pre.score_of() + 800 * pre.level_of() <= u64::MAX,
        ensures
            post.score_of() == pre.score_of() + 800 * pre.level_of(),
            post.lines_of() == pre.lines_of() + 4 || post.lines_of() == u32::MAX,
    {
    }

    /// The distance a hard drop falls is unique: the piece stops at the lowest row it
    /// reaches through free positions, so the score and the locked cells are
    /// determined.
    pub proof fn lemma_drop_distance_unique(g: Game, d1: nat, d2: nat)
        requires
            g.drop_distance(d1),
            g.drop_distance(d2),
        ensures
            d1 == d2,
    {
        if d1 < d2 {
            assert(fits(g.grid(), g.shape(), g.pos_x(), g.pos_y() + (d1 + 1)));
        } else if d2 < d1 {
            assert(fits(g.grid(), g.shape(), g.pos_x(), g.pos_y() + (d2 + 1)));
        }
    }

    /// Four successful turns in a row give back the starting shape, cell for cell.
    pub proof fn lemma_four_turns_restore(g0: Game, g1: Game, g2: Game, g3: Game, g4: Game)
        requires
            g0.wf(),
            g1.shape() == rotate_view(g0.shape()),
            g2.shape() == rotate_view(g1.shape()),
            g3.shape() == rotate_view(g2.shape()),
            g4.shape() == rotate_view(g3.shape()),
        ensures
            g4.shape() == g0.shape(),
    {
        crate::piece::lemma_four_rotations_identity(g0.shape());
    }
}

} // verus!
