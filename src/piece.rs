use vstd::prelude::*;

verus! {

/// A 4x4 occupancy matrix, indexed `[row][col]`.
pub type Shape = [[bool; 4]; 4];

/// The identity (and colour tag) of one of the seven tetrominoes.
#[derive(Clone, Copy, Debug, PartialEq, Eq, Structural)]
pub enum PieceKind {
    I,
    O,
    T,
    S,
    Z,
    J,
    L,
}

/// Number of distinct piece kinds.
pub const KIND_COUNT: usize = 7;

/// The mathematical model of a shape: four rows of four cells.
pub open spec fn shape_view(s: Shape) -> Seq<Seq<bool>> {
    Seq::new(4, |r: int| s[r]@)
}

/// A shape rotated a quarter turn: the cell at `(row, col)` moves to `(col, 3 - row)`.
pub open spec fn rotate_view(s: Seq<Seq<bool>>) -> Seq<Seq<bool>> {
    Seq::new(4, |r: int| Seq::new(4, |c: int| s[3 - c][r]))
}

pub open spec fn is_grid4(s: Seq<Seq<bool>>) -> bool {
    s.len() == 4 && forall|r: int| 0 <= r < 4 ==> #[trigger] s[r].len() == 4
}

pub open spec fn kind_index(k: PieceKind) -> nat {
    match k {
        PieceKind::I => 0,
        PieceKind::O => 1,
        PieceKind::T => 2,
        PieceKind::S => 3,
        PieceKind::Z => 4,
        PieceKind::J => 5,
        PieceKind::L => 6,
    }
}

pub open spec fn kind_of_index(i: nat) -> PieceKind {
    if i == 0 {
        PieceKind::I
    } else if i == 1 {
        PieceKind::O
    } else if i == 2 {
        PieceKind::T
    } else if i == 3 {
        PieceKind::S
    } else if i == 4 {
        PieceKind::Z
    } else if i == 5 {
        PieceKind::J
    } else {
        PieceKind::L
    }
}

/// The canonical spawn shape of each kind.
pub open spec fn spawn_shape(k: PieceKind) -> Seq<Seq<bool>> {
    match k {
        PieceKind::I => seq![
            seq![false, false, false, false],
            seq![true, true, true, true],
            seq![false, false, false, false],
            seq![false, false, false, false],
        ],
        PieceKind::O => seq![
            seq![false, false, false, false],
            seq![false, true, true, false],
            seq![false, true, true, false],
            seq![false, false, false, false],
        ],
        PieceKind::T => seq![
            seq![false, false, false, false],
            seq![false, true, false, false],
            seq![true, true, true, false],
            seq![false, false, false, false],
        ],
        PieceKind::S => seq![
            seq![false, false, false, false],
            seq![false, true, true, false],
            seq![true, true, false, false],
            seq![false, false, false, false],
        ],
        PieceKind::Z => seq![
            seq![false, false, false, false],
            seq![true, true, false, false],
            seq![false, true, true, false],
            seq![false, false, false, false],
        ],
        PieceKind::J => seq![
            seq![false, false, false, false],
            seq![true, false, false, false],
            seq![true, true, true, false],
            seq![false, false, false, false],
        ],
        PieceKind::L => seq![
            seq![false, false, false, false],
            seq![false, false, true, false],
            seq![true, true, true, false],
            seq![false, false, false, false],
        ],
    }
}

/// A shape with at least one filled cell.
pub open spec fn nonempty(s: Seq<Seq<bool>>) -> bool {
    exists|r: int, c: int| 0 <= r < 4 && 0 <= c < 4 && #[trigger] s[r][c]
}

/// Every spawn shape is a 4x4 matrix with a filled cell.
pub proof fn lemma_spawn_shape(k: PieceKind)
    ensures
        is_grid4(spawn_shape(k)),
        nonempty(spawn_shape(k)),
{
    let s = spawn_shape(k);
    if s[1][1] {
        assert(s[1][1]);
    } else {
        assert(s[2][1]);
    }
}

/// A quarter turn keeps a shape 4x4 and keeps it non-empty.
pub proof fn lemma_rotate_keeps(s: Seq<Seq<bool>>)
    requires
        is_grid4(s),
        nonempty(s),
    ensures
        is_grid4(rotate_view(s)),
        nonempty(rotate_view(s)),
{
    let (r, c) = choose|r: int, c: int| 0 <= r < 4 && 0 <= c < 4 && #[trigger] s[r][c];
    assert(rotate_view(s)[c][3 - r]);
}

/// A piece: its occupancy matrix and its identity.
#[derive(Clone, Copy, Debug)]
pub struct Piece {
    pub shape: Shape,
    pub kind: PieceKind,
}

impl PieceKind {
    /// The kind with the given position in the order I, O, T, S, Z, J, L.
    pub fn from_index(i: usize) -> (k: PieceKind)
        requires
            i < KIND_COUNT,
        ensures
            k == kind_of_index(i as nat),
            kind_index(k) == i,
    {
        if i == 0 {
            PieceKind::I
        } else if i == 1 {
            PieceKind::O
        } else if i == 2 {
            PieceKind::T
        } else if i == 3 {
            PieceKind::S
        } else if i == 4 {
            PieceKind::Z
        } else if i == 5 {
            PieceKind::J
        } else {
            PieceKind::L
        }
    }

    /// The position of this kind in the order I, O, T, S, Z, J, L.
    pub fn index(&self) -> (i: usize)
        ensures
            i == kind_index(*self),
            i < KIND_COUNT,
    {
        match self {
            PieceKind::I => 0,
            PieceKind::O => 1,
            PieceKind::T => 2,
            PieceKind::S => 3,
            PieceKind::Z => 4,
            PieceKind::J => 5,
            PieceKind::L => 6,
        }
    }
}

impl Piece {
    /// The piece of the given kind in its spawn orientation.
    pub fn of_kind(kind: PieceKind) -> (p: Piece)
        ensures
            p.kind == kind,
            shape_view(p.shape) == spawn_shape(kind),
    {
        let shape: Shape = match kind {
            PieceKind::I => [
                [false, false, false, false],
                [true, true, true, true],
                [false, false, false, false],
                [false, false, false, false],
            ],
            PieceKind::O => [
                [false, false, false, false],
                [false, true, true, false],
                [false, true, true, false],
                [false, false, false, false],
            ],
            PieceKind::T => [
                [false, false, false, false],
                [false, true, false, false],
                [true, true, true, false],
                [false, false, false, false],
            ],
            PieceKind::S => [
                [false, false, false, false],
                [false, true, true, false],
                [true, true, false, false],
                [false, false, false, false],
            ],
            PieceKind::Z => [
                [false, false, false, false],
                [true, true, false, false],
                [false, true, true, false],
                [false, false, false, false],
            ],
            PieceKind::J => [
                [false, false, false, false],
                [true, false, false, false],
                [true, true, true, false],
                [false, false, false, false],
            ],
            PieceKind::L => [
                [false, false, false, false],
                [false, false, true, false],
                [true, true, true, false],
                [false, false, false, false],
            ],
        };
        let p = Piece { shape, kind };
        assert(shape_view(p.shape) =~~= spawn_shape(kind));
        p
    }

    /// Whether the cell at `(row, col)` of the piece's matrix is filled.
    pub fn filled(&self, row: usize, col: usize) -> (b: bool)
        requires
            row < 4,
            col < 4,
        ensures
            b == shape_view(self.shape)[row as int][col as int],
    {
        self.shape[row][col]
    }
}

/// The shape turned a quarter turn clockwise: `new[col][3 - row] = old[row][col]`.
pub fn rotated(s: &Shape) -> (n: Shape)
    ensures
        shape_view(n) == rotate_view(shape_view(*s)),
{
    let n: Shape = [
        [s[3][0], s[2][0], s[1][0], s[0][0]],
        [s[3][1], s[2][1], s[1][1], s[0][1]],
        [s[3][2], s[2][2], s[1][2], s[0][2]],
        [s[3][3], s[2][3], s[1][3], s[0][3]],
    ];
    assert(shape_view(n) =~~= rotate_view(shape_view(*s)));
    n
}

/// Four quarter turns bring any 4x4 shape back to itself, cell for cell.
pub proof fn lemma_four_rotations_identity(s: Seq<Seq<bool>>)
    requires
        is_grid4(s),
    ensures
        rotate_view(rotate_view(rotate_view(rotate_view(s)))) == s,
{
    let s4 = rotate_view(rotate_view(rotate_view(rotate_view(s))));
    assert forall|r: int| 0 <= r < 4 implies #[trigger] s4[r] == s[r] by {
        assert(s4[r] =~= s[r]);
    }
    assert(s4 =~= s);
}

} // verus!
