//! The [ChessArmy]: the pieces of one colour on a chess board, the cells they
//! control and the moves they can make.
use vstd::prelude::*;

use crate::bbdefines::{
    calc_cell_after_steps, king_zone, n, neighbour, rank, rank_cells, rank_of, s, step_from,
    Cell, Rank,
};
use crate::bitboard::{lemma_view_len, BitBoard};
use crate::chessdefines::{ArmyColour, ChessPiece};

verus! {

broadcast use crate::bbdefines::group_mask_algebra;

// ----------------------------------------------------------------------------
// The geometry of piece movements

/// The cell of an option, as a set of at most one cell.
pub open spec fn opt_cell(o: Option<Cell>) -> Set<Cell> {
    match o {
        Some(d) => set![d],
        None => Set::empty(),
    }
}

/// The cells that a pawn of colour `colour` standing on `c` attacks: one step
/// forward (north for White, south for Black) on a neighbouring file.
pub open spec fn pawn_attacks(c: Cell, colour: ArmyColour) -> Set<Cell> {
    let dn: int = if colour == ArmyColour::White {
        1
    } else {
        -1
    };
    opt_cell(step_from(c, dn, -1)) + opt_cell(step_from(c, dn, 1))
}

/// The cells that a knight standing on `c` reaches: two steps along one
/// axis and one along the other.
pub open spec fn knight_jumps(c: Cell) -> Set<Cell> {
    opt_cell(step_from(c, 2, 1)) + opt_cell(step_from(c, 1, 2)) + opt_cell(step_from(c, -1, 2))
        + opt_cell(step_from(c, -2, 1)) + opt_cell(step_from(c, -2, -1)) + opt_cell(
        step_from(c, -1, -2),
    ) + opt_cell(step_from(c, 1, -2)) + opt_cell(step_from(c, 2, -1))
}

/// The cells seen from `c` in the direction (`dn` north, `de` east) within
/// `steps` steps: each cell up to the board's edge, or up to and including
/// the first cell of `occ`.
pub open spec fn ray(occ: Set<Cell>, c: Cell, dn: int, de: int, steps: nat) -> Set<Cell>
    decreases steps,
{
    if steps == 0 {
        Set::empty()
    } else {
        match step_from(c, dn, de) {
            None => Set::empty(),
            Some(d) => if occ.contains(d) {
                set![d]
            } else {
                ray(occ, d, dn, de, (steps - 1) as nat).insert(d)
            },
        }
    }
}

/// The cells that a bishop on `c` controls, the cells of `occ` blocking its
/// view: the four diagonal rays (a ray never has more than seven cells).
pub open spec fn bishop_view(occ: Set<Cell>, c: Cell) -> Set<Cell> {
    ray(occ, c, 1, 1, 7) + ray(occ, c, 1, -1, 7) + ray(occ, c, -1, 1, 7) + ray(occ, c, -1, -1, 7)
}

/// The cells that a rook on `c` controls, the cells of `occ` blocking its
/// view: the four orthogonal rays.
pub open spec fn rook_view(occ: Set<Cell>, c: Cell) -> Set<Cell> {
    ray(occ, c, 1, 0, 7) + ray(occ, c, -1, 0, 7) + ray(occ, c, 0, 1, 7) + ray(occ, c, 0, -1, 7)
}

/// The cells that a piece of the given kind and colour standing on `c`
/// controls, the cells of `occ` blocking the view of sliding pieces. A queen
/// sees along all eight rays.
pub open spec fn piece_view(kind: ChessPiece, colour: ArmyColour, occ: Set<Cell>, c: Cell) -> Set<
    Cell,
> {
    match kind {
        ChessPiece::King => king_zone(c),
        ChessPiece::Queen => bishop_view(occ, c) + rook_view(occ, c),
        ChessPiece::Bishop => bishop_view(occ, c),
        ChessPiece::Knight => knight_jumps(c),
        ChessPiece::Rook => rook_view(occ, c),
        ChessPiece::Pawn => pawn_attacks(c, colour),
    }
}

/// The cells controlled by pieces of the given kind standing on each cell of
/// `pieces`: the union of their views.
pub open spec fn sweep(pieces: Set<Cell>, kind: ChessPiece, colour: ArmyColour, occ: Set<Cell>) -> Set<
    Cell,
> {
    Set::new(
        |d: Cell| exists|p: Cell| #[trigger]
            pieces.contains(p) && piece_view(kind, colour, occ, p).contains(d),
    )
}

/// The part of [sweep] due to the pieces on cells of index below `i`.
pub open spec fn sweep_below(
    pieces: Set<Cell>,
    kind: ChessPiece,
    colour: ArmyColour,
    occ: Set<Cell>,
    i: int,
) -> Set<Cell> {
    Set::new(
        |d: Cell| exists|p: Cell| #[trigger]
            pieces.contains(p) && (p as int) < i && piece_view(kind, colour, occ, p).contains(d),
    )
}

/// The single cell of `s` when `s` holds exactly one cell.
pub open spec fn lone_cell(s: Set<Cell>) -> Option<Cell> {
    if exists|c: Cell| s == set![c] {
        Some(choose|c: Cell| s == set![c])
    } else {
        None
    }
}

/// The cells onto which a pawn of colour `colour` on `c` can be pushed:
/// one step forward onto a cell outside `occ`, and from its starting rank
/// (2 for White, 7 for Black) a second step onto a further cell outside `occ`.
pub open spec fn pawn_pushes(colour: ArmyColour, occ: Set<Cell>, c: Cell) -> Set<Cell> {
    let dn: int = if colour == ArmyColour::White {
        1
    } else {
        -1
    };
    let start: int = if colour == ArmyColour::White {
        1
    } else {
        6
    };
    match step_from(c, dn, 0) {
        None => Set::empty(),
        Some(d1) => if occ.contains(d1) {
            Set::empty()
        } else if rank_of(c) == start {
            match step_from(d1, dn, 0) {
                Some(d2) => if occ.contains(d2) {
                    set![d1]
                } else {
                    set![d1, d2]
                },
                None => set![d1],
            }
        } else {
            set![d1]
        },
    }
}

proof fn lemma_sweep_step(
    pieces: Set<Cell>,
    kind: ChessPiece,
    colour: ArmyColour,
    occ: Set<Cell>,
    i: int,
)
    requires
        0 <= i < 64,
    ensures
        sweep_below(pieces, kind, colour, occ, i + 1) == sweep_below(pieces, kind, colour, occ, i)
            + if pieces.contains(Cell::from_int(i)) {
            piece_view(kind, colour, occ, Cell::from_int(i))
        } else {
            Set::empty()
        },
{
    let c = Cell::from_int(i);
    assert(c as int == i);
    let rhs = sweep_below(pieces, kind, colour, occ, i) + if pieces.contains(c) {
        piece_view(kind, colour, occ, c)
    } else {
        Set::empty()
    };
    assert forall|d: Cell| #[trigger] sweep_below(pieces, kind, colour, occ, i + 1).contains(d) == rhs.contains(d) by {
        if sweep_below(pieces, kind, colour, occ, i + 1).contains(d) {
            let p = choose|p: Cell| #[trigger]
                pieces.contains(p) && (p as int) < i + 1 && piece_view(kind, colour, occ, p).contains(d);
            if p != c {
                assert(sweep_below(pieces, kind, colour, occ, i).contains(d));
            }
        }
        if sweep_below(pieces, kind, colour, occ, i).contains(d) {
            let p = choose|p: Cell| #[trigger]
                pieces.contains(p) && (p as int) < i && piece_view(kind, colour, occ, p).contains(d);
            assert(pieces.contains(p) && (p as int) < i + 1 && piece_view(kind, colour, occ, p).contains(d));
        }
    }
    assert(sweep_below(pieces, kind, colour, occ, i + 1) =~= rhs);
}

proof fn lemma_sweep_all(pieces: Set<Cell>, kind: ChessPiece, colour: ArmyColour, occ: Set<Cell>)
    ensures
        sweep_below(pieces, kind, colour, occ, 64) == sweep(pieces, kind, colour, occ),
        sweep_below(pieces, kind, colour, occ, 0) == Set::<Cell>::empty(),
{
    assert(sweep_below(pieces, kind, colour, occ, 64) =~= sweep(pieces, kind, colour, occ));
    assert(sweep_below(pieces, kind, colour, occ, 0) =~= Set::<Cell>::empty());
}

/// The pieces of a kind standing on a single cell control what a piece on
/// that cell sees.
pub proof fn lemma_sweep_single(c: Cell, kind: ChessPiece, colour: ArmyColour, occ: Set<Cell>)
    ensures
        sweep(set![c], kind, colour, occ) == piece_view(kind, colour, occ, c),
{
    assert forall|d: Cell| #[trigger] piece_view(kind, colour, occ, c).contains(d) implies sweep(
        set![c],
        kind,
        colour,
        occ,
    ).contains(d) by {
        assert(set![c].contains(c));
    }
    assert(sweep(set![c], kind, colour, occ) =~= piece_view(kind, colour, occ, c));
}

/// What queens control is what bishops and rooks on the same cells control.
pub proof fn lemma_sweep_queen(pieces: Set<Cell>, colour: ArmyColour, occ: Set<Cell>)
    ensures
        sweep(pieces, ChessPiece::Queen, colour, occ) == sweep(
            pieces,
            ChessPiece::Bishop,
            colour,
            occ,
        ) + sweep(pieces, ChessPiece::Rook, colour, occ),
{
    let q = sweep(pieces, ChessPiece::Queen, colour, occ);
    let b = sweep(pieces, ChessPiece::Bishop, colour, occ);
    let r = sweep(pieces, ChessPiece::Rook, colour, occ);
    assert forall|d: Cell| #[trigger] q.contains(d) == (b + r).contains(d) by {
        if q.contains(d) {
            let p = choose|p: Cell| #[trigger]
                pieces.contains(p) && piece_view(ChessPiece::Queen, colour, occ, p).contains(d);
            assert(pieces.contains(p));
        }
        if b.contains(d) {
            let p = choose|p: Cell| #[trigger]
                pieces.contains(p) && piece_view(ChessPiece::Bishop, colour, occ, p).contains(d);
            assert(piece_view(ChessPiece::Queen, colour, occ, p).contains(d));
        }
        if r.contains(d) {
            let p = choose|p: Cell| #[trigger]
                pieces.contains(p) && piece_view(ChessPiece::Rook, colour, occ, p).contains(d);
            assert(piece_view(ChessPiece::Queen, colour, occ, p).contains(d));
        }
    }
    assert(q =~= b + r);
}

/// A set holding a single cell has that cell as its lone cell.
pub proof fn lemma_lone_cell_single(c: Cell)
    ensures
        lone_cell(set![c]) == Some(c),
{
    assert(exists|d: Cell| set![c] == set![d]);
    let d = choose|d: Cell| set![c] == set![d];
    assert(set![d].contains(c));
}

// ----------------------------------------------------------------------------
// Executable pieces of the geometry

/// The cells seen from `c` in the direction (`dn`, `de`), stopping at the
/// edge of the board or at the first cell active in `occ` (included).
fn cast_ray(occ: &BitBoard, c: Cell, dn: i32, de: i32) -> (bb: BitBoard)
    ensures
        bb@ == ray(occ@, c, dn as int, de as int, 7),
{
    let mut bb = BitBoard::new();
    let mut cur = c;
    let mut steps: u8 = 7;
    let mut done = false;
    while steps > 0 && !done
        invariant
            steps <= 7,
            done ==> bb@ == ray(occ@, c, dn as int, de as int, 7),
            !done ==> bb@ + ray(occ@, cur, dn as int, de as int, steps as nat) == ray(
                occ@,
                c,
                dn as int,
                de as int,
                7,
            ),
        decreases steps,
    {
        match calc_cell_after_steps(cur, dn, de) {
            None => {
                assert(bb@ + ray(occ@, cur, dn as int, de as int, steps as nat) =~= bb@);
                done = true;
            },
            Some(d) => {
                let ghost before = bb@;
                bb.set_cell(d);
                if occ.cell_is_active(d) {
                    assert(before + ray(occ@, cur, dn as int, de as int, steps as nat) =~= bb@);
                    done = true;
                } else {
                    assert(bb@ + ray(occ@, d, dn as int, de as int, (steps - 1) as nat) =~= before
                        + ray(occ@, cur, dn as int, de as int, steps as nat));
                    cur = d;
                }
            },
        }
        steps = steps - 1;
    }
    if !done {
        assert(bb@ + ray(occ@, cur, dn as int, de as int, 0) =~= bb@);
    }
    bb
}

/// The cells a bishop on `c` controls, `occ` blocking its view.
fn bishop_view_cells(occ: &BitBoard, c: Cell) -> (bb: BitBoard)
    ensures
        bb@ == bishop_view(occ@, c),
{
    cast_ray(occ, c, 1, 1) | cast_ray(occ, c, 1, -1) | cast_ray(occ, c, -1, 1) | cast_ray(
        occ,
        c,
        -1,
        -1,
    )
}

/// The cells a rook on `c` controls, `occ` blocking its view.
fn rook_view_cells(occ: &BitBoard, c: Cell) -> (bb: BitBoard)
    ensures
        bb@ == rook_view(occ@, c),
{
    cast_ray(occ, c, 1, 0) | cast_ray(occ, c, -1, 0) | cast_ray(occ, c, 0, 1) | cast_ray(
        occ,
        c,
        0,
        -1,
    )
}

/// The cell reached by one jump of a knight, as a bitboard.
fn jump(c: Cell, dn: i32, de: i32) -> (bb: BitBoard)
    ensures
        bb@ == opt_cell(step_from(c, dn as int, de as int)),
{
    let mut bb = BitBoard::new();
    if let Some(d) = calc_cell_after_steps(c, dn, de) {
        bb.set_cell(d);
    }
    assert(bb@ =~= opt_cell(step_from(c, dn as int, de as int)));
    bb
}

/// The cells a knight on `c` reaches.
fn knight_jump_cells(c: Cell) -> (bb: BitBoard)
    ensures
        bb@ == knight_jumps(c),
{
    jump(c, 2, 1) | jump(c, 1, 2) | jump(c, -1, 2) | jump(c, -2, 1) | jump(c, -2, -1) | jump(
        c,
        -1,
        -2,
    ) | jump(c, 1, -2) | jump(c, 2, -1)
}

/// The cells a piece of the given kind and colour on `c` controls.
fn piece_view_cells(kind: ChessPiece, colour: ArmyColour, occ: &BitBoard, c: Cell) -> (bb:
    BitBoard)
    ensures
        bb@ == piece_view(kind, colour, occ@, c),
{
    match kind {
        ChessPiece::King => BitBoard::from(neighbour(c)),
        ChessPiece::Queen => bishop_view_cells(occ, c) | rook_view_cells(occ, c),
        ChessPiece::Bishop => bishop_view_cells(occ, c),
        ChessPiece::Knight => knight_jump_cells(c),
        ChessPiece::Rook => rook_view_cells(occ, c),
        ChessPiece::Pawn => ChessArmy::pawn_controlled_cells(c, colour),
    }
}

/// The union of the views of pieces of the given kind standing on each
/// active cell of `pieces`.
fn sweep_cells(pieces: &BitBoard, kind: ChessPiece, colour: ArmyColour, occ: &BitBoard) -> (bb:
    BitBoard)
    ensures
        bb@ == sweep(pieces@, kind, colour, occ@),
{
    proof {
        lemma_sweep_all(pieces@, kind, colour, occ@);
    }
    let mut bb = BitBoard::new();
    let mut i: usize = 0;
    while i < 64
        invariant
            i <= 64,
            bb@ == sweep_below(pieces@, kind, colour, occ@, i as int),
        decreases 64 - i,
    {
        proof {
            lemma_sweep_step(pieces@, kind, colour, occ@, i as int);
        }
        let c = Cell::from_index(i);
        if pieces.cell_is_active(c) {
            bb = bb | piece_view_cells(kind, colour, occ, c);
        } else {
            assert(bb@ + Set::<Cell>::empty() =~= bb@);
        }
        i = i + 1;
    }
    bb
}

// ----------------------------------------------------------------------------
// The army

/// The pieces of one colour on a chess board: its colour and, for each kind
/// of piece, the bitboard of the cells holding a piece of that kind.
///
/// The kinds' bitboards are meant not to overlap and to hold at most one
/// King; placing pieces does not check this.
#[derive(Debug, Copy, Clone, PartialEq, Eq, Structural)]
pub struct ChessArmy {
    kings: BitBoard,
    queens: BitBoard,
    bishops: BitBoard,
    knights: BitBoard,
    rooks: BitBoard,
    pawns: BitBoard,
    pub colour: ArmyColour,
}


/// The cells of the standard initial deployment of the pieces of a kind.
pub open spec fn initial_cells(colour: ArmyColour, kind: ChessPiece) -> Set<Cell> {
    match colour {
        ArmyColour::White => match kind {
            ChessPiece::King => set![Cell::E1],
            ChessPiece::Queen => set![Cell::D1],
            ChessPiece::Bishop => set![Cell::C1, Cell::F1],
            ChessPiece::Knight => set![Cell::B1, Cell::G1],
            ChessPiece::Rook => set![Cell::A1, Cell::H1],
            ChessPiece::Pawn => rank_cells(1),
        },
        ArmyColour::Black => match kind {
            ChessPiece::King => set![Cell::E8],
            ChessPiece::Queen => set![Cell::D8],
            ChessPiece::Bishop => set![Cell::C8, Cell::F8],
            ChessPiece::Knight => set![Cell::B8, Cell::G8],
            ChessPiece::Rook => set![Cell::A8, Cell::H8],
            ChessPiece::Pawn => rank_cells(6),
        },
    }
}

impl ChessArmy {
    /// The cells holding a piece of the given kind.
    pub closed spec fn pieces(self, kind: ChessPiece) -> Set<Cell> {
        match kind {
            ChessPiece::King => self.kings@,
            ChessPiece::Queen => self.queens@,
            ChessPiece::Bishop => self.bishops@,
            ChessPiece::Knight => self.knights@,
            ChessPiece::Rook => self.rooks@,
            ChessPiece::Pawn => self.pawns@,
        }
    }

    /// The colour of the army.
    pub closed spec fn spec_colour(self) -> ArmyColour {
        self.colour
    }

    /// The cells holding a piece of the army.
    pub open spec fn occupied(self) -> Set<Cell> {
        self.pieces(ChessPiece::King) + self.pieces(ChessPiece::Queen) + self.pieces(
            ChessPiece::Bishop,
        ) + self.pieces(ChessPiece::Knight) + self.pieces(ChessPiece::Rook) + self.pieces(
            ChessPiece::Pawn,
        )
    }

    /// The kind of the piece on `c`, looked up in the order King, Queen,
    /// Bishop, Knight, Rook, Pawn; `None` when no piece stands on `c`.
    pub open spec fn piece_at(self, c: Cell) -> Option<ChessPiece> {
        if self.pieces(ChessPiece::King).contains(c) {
            Some(ChessPiece::King)
        } else if self.pieces(ChessPiece::Queen).contains(c) {
            Some(ChessPiece::Queen)
        } else if self.pieces(ChessPiece::Bishop).contains(c) {
            Some(ChessPiece::Bishop)
        } else if self.pieces(ChessPiece::Knight).contains(c) {
            Some(ChessPiece::Knight)
        } else if self.pieces(ChessPiece::Rook).contains(c) {
            Some(ChessPiece::Rook)
        } else if self.pieces(ChessPiece::Pawn).contains(c) {
            Some(ChessPiece::Pawn)
        } else {
            None
        }
    }

    /// The cells controlled by the King: those next to it when the army has
    /// exactly one King, none otherwise.
    pub open spec fn king_control(self) -> Set<Cell> {
        match lone_cell(self.pieces(ChessPiece::King)) {
            Some(k) => king_zone(k),
            None => Set::empty(),
        }
    }

    /// The cells controlled by the pieces of one kind, with `intf` the cells
    /// occupied by other pieces (normally those of the enemy army): those and
    /// the army's own pieces block the view of sliding pieces. The King
    /// controls the cells next to it when the army has exactly one King, and
    /// nothing otherwise.
    pub open spec fn controlled_by(self, kind: ChessPiece, intf: Set<Cell>) -> Set<Cell> {
        if kind == ChessPiece::King {
            self.king_control()
        } else {
            sweep(self.pieces(kind), kind, self.spec_colour(), self.occupied() + intf)
        }
    }

    /// The cells controlled by all the pieces of the army.
    pub open spec fn controlled(self, intf: Set<Cell>) -> Set<Cell> {
        self.controlled_by(ChessPiece::King, intf) + self.controlled_by(ChessPiece::Queen, intf)
            + self.controlled_by(ChessPiece::Bishop, intf) + self.controlled_by(
            ChessPiece::Knight,
            intf,
        ) + self.controlled_by(ChessPiece::Rook, intf) + self.controlled_by(
            ChessPiece::Pawn,
            intf,
        )
    }

    /// The moves of the King: the cells it controls that hold no piece of
    /// its own army.
    pub open spec fn king_moves(self) -> Set<Cell> {
        self.king_control() - self.occupied()
    }

    /// The moves of the piece of kind `kind` on `c`: what such a piece alone
    /// on `c` controls, less the cells of its own army; nothing when no
    /// piece of that kind stands on `c`.
    pub open spec fn regular_moves(self, kind: ChessPiece, c: Cell, intf: Set<Cell>) -> Set<Cell> {
        if self.piece_at(c) == Some(kind) {
            piece_view(kind, self.spec_colour(), self.occupied() + intf, c) - self.occupied()
        } else {
            Set::empty()
        }
    }

    /// The moves of a pawn on `c`, whatever stands there: its pushes, and its
    /// attacked cells that hold a piece of `intf` (a capture).
    pub open spec fn pawn_moves_from(self, colour: ArmyColour, c: Cell, intf: Set<Cell>) -> Set<
        Cell,
    > {
        pawn_pushes(colour, self.occupied() + intf, c) + (pawn_attacks(c, self.spec_colour()) * intf)
    }

    /// The moves of the pawn on `c`; nothing when no pawn stands on `c`.
    pub open spec fn pawn_moves(self, c: Cell, intf: Set<Cell>) -> Set<Cell> {
        if self.piece_at(c) == Some(ChessPiece::Pawn) {
            self.pawn_moves_from(self.spec_colour(), c, intf)
        } else {
            Set::empty()
        }
    }

    /// The moves of the piece of kind `kind` on `c` (for the King, wherever it stands).
    pub open spec fn moves(self, kind: ChessPiece, c: Cell, intf: Set<Cell>) -> Set<Cell> {
        match kind {
            ChessPiece::King => self.king_moves(),
            ChessPiece::Pawn => self.pawn_moves(c, intf),
            _ => self.regular_moves(kind, c, intf),
        }
    }

    /// An empty army of the given colour.
    pub fn new(c: ArmyColour) -> (a: ChessArmy)
        ensures
            a.spec_colour() == c,
            forall|k: ChessPiece| #[trigger] a.pieces(k) == Set::<Cell>::empty(),
    {
        ChessArmy {
            kings: BitBoard::new(),
            queens: BitBoard::new(),
            bishops: BitBoard::new(),
            knights: BitBoard::new(),
            rooks: BitBoard::new(),
            pawns: BitBoard::new(),
            colour: c,
        }
    }

    /// An army of the given colour in the standard initial chess deployment.
    pub fn initial(c: ArmyColour) -> (a: ChessArmy)
        ensures
            a.spec_colour() == c,
            forall|k: ChessPiece| #[trigger] a.pieces(k) == initial_cells(c, k),
    {
        let mut a = ChessArmy::new(c);
        a.reset(c);
        a
    }

    /// The bitboard of the pieces of the given kind.
    pub fn get_pieces(&self, cp: ChessPiece) -> (bb: BitBoard)
        ensures
            bb@ == self.pieces(cp),
    {
        match cp {
            ChessPiece::King => self.kings,
            ChessPiece::Queen => self.queens,
            ChessPiece::Bishop => self.bishops,
            ChessPiece::Knight => self.knights,
            ChessPiece::Rook => self.rooks,
            ChessPiece::Pawn => self.pawns,
        }
    }

    /// Replaces the bitboard of the pieces of the given kind.
    fn set_pieces(&mut self, cp: ChessPiece, bb: BitBoard)
        ensures
            final(self).spec_colour() == old(self).spec_colour(),
            final(self).pieces(cp) == bb@,
            forall|k: ChessPiece| k != cp ==> #[trigger] final(self).pieces(k) == old(self).pieces(k),
    {
        match cp {
            ChessPiece::King => self.kings = bb,
            ChessPiece::Queen => self.queens = bb,
            ChessPiece::Bishop => self.bishops = bb,
            ChessPiece::Knight => self.knights = bb,
            ChessPiece::Rook => self.rooks = bb,
            ChessPiece::Pawn => self.pawns = bb,
        }
    }

    /// Places pieces of the given kind on the given cells. Nothing is checked:
    /// placing a piece on a cell that already holds one leaves the army in an
    /// invalid state.
    pub fn place_pieces(&mut self, cp: ChessPiece, cells: &[Cell])
        ensures
            final(self).spec_colour() == old(self).spec_colour(),
            final(self).pieces(cp) == old(self).pieces(cp) + cells@.to_set(),
            forall|k: ChessPiece| k != cp ==> #[trigger] final(self).pieces(k) == old(self).pieces(k),
    {
        let bb = self.get_pieces(cp) | BitBoard::from_cells(cells);
        self.set_pieces(cp, bb);
    }

    /// The number of pieces (pawns included) of the army.
    pub fn num_pieces(&self) -> (n: usize)
        ensures
            n == self.pieces(ChessPiece::King).len() + self.pieces(ChessPiece::Queen).len()
                + self.pieces(ChessPiece::Bishop).len() + self.pieces(ChessPiece::Knight).len()
                + self.pieces(ChessPiece::Rook).len() + self.pieces(ChessPiece::Pawn).len(),
    {
        self.get_pieces(ChessPiece::King).pop_count() + self.get_pieces(ChessPiece::Queen).pop_count()
            + self.get_pieces(ChessPiece::Bishop).pop_count() + self.get_pieces(
            ChessPiece::Knight,
        ).pop_count() + self.get_pieces(ChessPiece::Rook).pop_count() + self.get_pieces(
            ChessPiece::Pawn,
        ).pop_count()
    }

    /// The bitboard of the cells holding a piece (pawns included) of the army.
    pub fn occupied_cells(&self) -> (bb: BitBoard)
        ensures
            bb@ == self.occupied(),
    {
        let bb = self.get_pieces(ChessPiece::King) | self.get_pieces(ChessPiece::Queen)
            | self.get_pieces(ChessPiece::Pawn) | self.get_pieces(ChessPiece::Bishop)
            | self.get_pieces(ChessPiece::Knight) | self.get_pieces(ChessPiece::Rook);
        assert(bb@ =~= self.occupied());
        bb
    }
}


impl ChessArmy {
    /// Puts the army in the standard initial chess deployment of the given colour.
    pub fn reset(&mut self, c: ArmyColour)
        ensures
            final(self).spec_colour() == c,
            forall|k: ChessPiece| #[trigger] final(self).pieces(k) == initial_cells(c, k),
    {
        self.colour = c;
        let mut pawns = BitBoard::new();
        match c {
            ArmyColour::White => {
                let king = [Cell::E1];
                let queen = [Cell::D1];
                let bishops = [Cell::C1, Cell::F1];
                let knights = [Cell::B1, Cell::G1];
                let rooks = [Cell::A1, Cell::H1];
                self.kings = BitBoard::from_cells(&king);
                self.queens = BitBoard::from_cells(&queen);
                self.bishops = BitBoard::from_cells(&bishops);
                self.knights = BitBoard::from_cells(&knights);
                self.rooks = BitBoard::from_cells(&rooks);
                pawns.set_rank(Rank::Rank2);
                assert(king@[0] == Cell::E1 && queen@[0] == Cell::D1);
                assert(bishops@[0] == Cell::C1 && bishops@[1] == Cell::F1);
                assert(knights@[0] == Cell::B1 && knights@[1] == Cell::G1);
                assert(rooks@[0] == Cell::A1 && rooks@[1] == Cell::H1);
            },
            ArmyColour::Black => {
                let king = [Cell::E8];
                let queen = [Cell::D8];
                let bishops = [Cell::C8, Cell::F8];
                let knights = [Cell::B8, Cell::G8];
                let rooks = [Cell::A8, Cell::H8];
                self.kings = BitBoard::from_cells(&king);
                self.queens = BitBoard::from_cells(&queen);
                self.bishops = BitBoard::from_cells(&bishops);
                self.knights = BitBoard::from_cells(&knights);
                self.rooks = BitBoard::from_cells(&rooks);
                pawns.set_rank(Rank::Rank7);
                assert(king@[0] == Cell::E8 && queen@[0] == Cell::D8);
                assert(bishops@[0] == Cell::C8 && bishops@[1] == Cell::F8);
                assert(knights@[0] == Cell::B8 && knights@[1] == Cell::G8);
                assert(rooks@[0] == Cell::A8 && rooks@[1] == Cell::H8);
            },
        }
        self.pawns = pawns;
        assert forall|k: ChessPiece| #[trigger] self.pieces(k) == initial_cells(c, k) by {
            assert(self.pieces(k) =~= initial_cells(c, k));
        }
    }

    /// The kind of the piece on the given cell, or `None` if the cell is free.
    pub fn get_piece_in_cell(&self, c: Cell) -> (r: Option<ChessPiece>)
        ensures
            r == self.piece_at(c),
    {
        if self.kings.cell_is_active(c) {
            Some(ChessPiece::King)
        } else if self.queens.cell_is_active(c) {
            Some(ChessPiece::Queen)
        } else if self.bishops.cell_is_active(c) {
            Some(ChessPiece::Bishop)
        } else if self.knights.cell_is_active(c) {
            Some(ChessPiece::Knight)
        } else if self.rooks.cell_is_active(c) {
            Some(ChessPiece::Rook)
        } else if self.pawns.cell_is_active(c) {
            Some(ChessPiece::Pawn)
        } else {
            None
        }
    }

    /// The cell of the King when the army has exactly one King; `None` otherwise.
    pub fn get_king_position(&self) -> (r: Option<Cell>)
        ensures
            r == lone_cell(self.pieces(ChessPiece::King)),
    {
        let r = self.kings.active_cell();
        proof {
            match r {
                Some(k) => lemma_lone_cell_single(k),
                None => {
                    assert forall|k: Cell| self.kings@ != set![k] by {
                        assert(set![k].len() == 1);
                    }
                },
            }
        }
        r
    }

    /// The cells controlled by the King.
    pub fn king_controlled_cells(&self) -> (bb: BitBoard)
        ensures
            bb@ == self.king_control(),
    {
        match self.get_king_position() {
            Some(k) => BitBoard::from(neighbour(k)),
            None => BitBoard::new(),
        }
    }

    /// The cells controlled by the pawns.
    pub fn pawns_controlled_cells(&self) -> (bb: BitBoard)
        ensures
            forall|intf: Set<Cell>| bb@ == #[trigger] self.controlled_by(ChessPiece::Pawn, intf),
    {
        let occ = self.occupied_cells();
        let bb = sweep_cells(&self.pawns, ChessPiece::Pawn, self.colour, &occ);
        assert forall|intf: Set<Cell>| bb@ == #[trigger] self.controlled_by(ChessPiece::Pawn, intf) by {
            assert(sweep(self.pawns@, ChessPiece::Pawn, self.colour, occ@) =~= sweep(
                self.pawns@,
                ChessPiece::Pawn,
                self.colour,
                self.occupied() + intf,
            ));
        }
        bb
    }

    /// The cells controlled by the knights.
    pub fn knights_controlled_cells(&self) -> (bb: BitBoard)
        ensures
            forall|intf: Set<Cell>| bb@ == #[trigger] self.controlled_by(ChessPiece::Knight, intf),
    {
        let occ = self.occupied_cells();
        let bb = sweep_cells(&self.knights, ChessPiece::Knight, self.colour, &occ);
        assert forall|intf: Set<Cell>| bb@ == #[trigger] self.controlled_by(ChessPiece::Knight, intf) by {
            assert(sweep(self.knights@, ChessPiece::Knight, self.colour, occ@) =~= sweep(
                self.knights@,
                ChessPiece::Knight,
                self.colour,
                self.occupied() + intf,
            ));
        }
        bb
    }

    /// The cells controlled by the bishops: along each diagonal ray, every
    /// cell up to and including the first one occupied by the army or by
    /// `intf_board`.
    pub fn bishops_controlled_cells(&self, intf_board: BitBoard) -> (bb: BitBoard)
        ensures
            bb@ == self.controlled_by(ChessPiece::Bishop, intf_board@),
    {
        let occ = self.occupied_cells() | intf_board;
        sweep_cells(&self.bishops, ChessPiece::Bishop, self.colour, &occ)
    }

    /// The cells controlled by the rooks: along each orthogonal ray, every
    /// cell up to and including the first one occupied by the army or by
    /// `intf_board`.
    pub fn rooks_controlled_cells(&self, intf_board: BitBoard) -> (bb: BitBoard)
        ensures
            bb@ == self.controlled_by(ChessPiece::Rook, intf_board@),
    {
        let occ = self.occupied_cells() | intf_board;
        sweep_cells(&self.rooks, ChessPiece::Rook, self.colour, &occ)
    }

    /// The cells controlled by the queens, computed as what bishops and then
    /// rooks standing on the queens' cells control in a copy of the army
    /// where the real bishops and rooks only block the view (as pawns).
    pub fn queens_controlled_cells(&self, intf_board: BitBoard) -> (bb: BitBoard)
        ensures
            bb@ == self.controlled_by(ChessPiece::Queen, intf_board@),
    {
        let mut fake_army = *self;
        fake_army.pawns = fake_army.pawns | fake_army.bishops | fake_army.rooks;
        fake_army.bishops = fake_army.queens;
        fake_army.queens = BitBoard::new();
        assert(fake_army.occupied() =~= self.occupied());
        let mut bb = fake_army.bishops_controlled_cells(intf_board);
        fake_army.rooks = fake_army.bishops;
        fake_army.bishops = BitBoard::new();
        assert(fake_army.occupied() =~= self.occupied());
        bb = bb | fake_army.rooks_controlled_cells(intf_board);
        proof {
            lemma_sweep_queen(self.queens@, self.colour, self.occupied() + intf_board@);
        }
        bb
    }

    /// The cells controlled by a pawn of colour `ac` standing on `c`: north-west
    /// and north-east for White, south-west and south-east for Black.
    pub fn pawn_controlled_cells(c: Cell, ac: ArmyColour) -> (bb: BitBoard)
        ensures
            bb@ == pawn_attacks(c, ac),
    {
        let mut bb = BitBoard::new();
        match ac {
            ArmyColour::White => {
                if let Some(cell) = crate::bbdefines::nw(c) {
                    bb.set_cell(cell);
                }
                if let Some(cell) = crate::bbdefines::ne(c) {
                    bb.set_cell(cell);
                }
            },
            ArmyColour::Black => {
                if let Some(cell) = crate::bbdefines::sw(c) {
                    bb.set_cell(cell);
                }
                if let Some(cell) = crate::bbdefines::se(c) {
                    bb.set_cell(cell);
                }
            },
        }
        assert(bb@ =~= pawn_attacks(c, ac));
        bb
    }

    /// The cells controlled by the pieces of the given kind.
    pub fn controlled_cells_by_piece_type(&self, cp: ChessPiece, intf_board: BitBoard) -> (bb:
        BitBoard)
        ensures
            bb@ == self.controlled_by(cp, intf_board@),
    {
        match cp {
            ChessPiece::King => self.king_controlled_cells(),
            ChessPiece::Queen => self.queens_controlled_cells(intf_board),
            ChessPiece::Bishop => self.bishops_controlled_cells(intf_board),
            ChessPiece::Knight => self.knights_controlled_cells(),
            ChessPiece::Rook => self.rooks_controlled_cells(intf_board),
            ChessPiece::Pawn => self.pawns_controlled_cells(),
        }
    }

    /// The cells controlled by all the pieces (pawns included) of the army;
    /// `intf_board` holds the cells occupied by other pieces (normally the
    /// enemy army), which limit the view of sliding pieces.
    pub fn controlled_cells(&self, intf_board: BitBoard) -> (bb: BitBoard)
        ensures
            bb@ == self.controlled(intf_board@),
    {
        self.king_controlled_cells() | self.queens_controlled_cells(intf_board)
            | self.bishops_controlled_cells(intf_board) | self.knights_controlled_cells()
            | self.rooks_controlled_cells(intf_board) | self.pawns_controlled_cells()
    }

    /// The possible moves of the King: the cells it controls that hold no
    /// piece of its own army (whether the King would stand in check is not
    /// considered).
    pub fn possible_moves_for_king(&self) -> (bb: BitBoard)
        ensures
            bb@ == self.king_moves(),
    {
        let occ = self.occupied_cells();
        let bb = (self.king_controlled_cells() | occ) ^ occ;
        assert(bb@ =~= self.king_moves());
        bb
    }

    /// The possible moves of the piece of kind `cp` on `c`: the cells that
    /// piece controls, as the only piece of its kind, that hold no piece of
    /// its own army. Empty when no piece of kind `cp` stands on `c`.
    pub fn possible_moves_for_regular_piece_in_cell(
        &self,
        cp: ChessPiece,
        c: Cell,
        intf_board: BitBoard,
    ) -> (bb: BitBoard)
        ensures
            bb@ == self.regular_moves(cp, c, intf_board@),
    {
        let found = self.get_piece_in_cell(c);
        let here = match found {
            Some(p) => p == cp,
            None => false,
        };
        if here {
            let piece_bb = BitBoard::from(crate::bbdefines::single_cell(c));
            let mut fake_army = *self;
            fake_army.pawns = fake_army.pawns | (self.get_pieces(cp) ^ piece_bb);
            fake_army.set_pieces(cp, piece_bb);
            proof {
                if cp == ChessPiece::King {
                    lemma_lone_cell_single(c);
                } else {
                    lemma_sweep_single(
                        c,
                        cp,
                        self.colour,
                        fake_army.occupied() + intf_board@,
                    );
                    if cp != ChessPiece::Pawn {
                        assert(fake_army.occupied() =~= self.occupied());
                    }
                }
            }
            let occ = self.occupied_cells();
            let bb = (fake_army.controlled_cells_by_piece_type(cp, intf_board) | occ) ^ occ;
            assert(bb@ =~= self.regular_moves(cp, c, intf_board@));
            bb
        } else {
            BitBoard::new()
        }
    }

    /// The possible moves of the pawn on `c`; empty when no pawn stands on `c`.
    pub fn possible_moves_for_pawn_in_cell(&self, c: Cell, intf_board: BitBoard) -> (bb: BitBoard)
        ensures
            bb@ == self.pawn_moves(c, intf_board@),
    {
        match self.get_piece_in_cell(c) {
            Some(ChessPiece::Pawn) => match self.colour {
                ArmyColour::White => self.possible_moves_for_white_pawn_in_cell(c, intf_board),
                ArmyColour::Black => self.possible_moves_for_black_pawn_in_cell(c, intf_board),
            },
            _ => BitBoard::new(),
        }
    }

    /// The possible moves of a white pawn on `c` (whether a pawn stands there
    /// is not checked): one step north onto a free cell, a second one from
    /// rank 2 onto a free cell, and the attacked cells that `intf_board` occupies.
    pub fn possible_moves_for_white_pawn_in_cell(&self, c: Cell, intf_board: BitBoard) -> (bb:
        BitBoard)
        ensures
            bb@ == self.pawn_moves_from(ArmyColour::White, c, intf_board@),
    {
        let occ = self.occupied_cells() | intf_board;
        let mut bb = BitBoard::new();
        if let Some(tentative_cell) = n(c) {
            if !occ.cell_is_active(tentative_cell) {
                bb.set_cell(tentative_cell);
                if rank(c) == Rank::Rank2 {
                    if let Some(further_cell) = n(tentative_cell) {
                        if !occ.cell_is_active(further_cell) {
                            bb.set_cell(further_cell);
                        }
                    }
                }
            }
        }
        assert(bb@ =~= pawn_pushes(ArmyColour::White, occ@, c));
        bb | (ChessArmy::pawn_controlled_cells(c, self.colour) & intf_board)
    }

    /// The possible moves of a black pawn on `c` (whether a pawn stands there
    /// is not checked): one step south onto a free cell, a second one from
    /// rank 7 onto a free cell, and the attacked cells that `intf_board` occupies.
    pub fn possible_moves_for_black_pawn_in_cell(&self, c: Cell, intf_board: BitBoard) -> (bb:
        BitBoard)
        ensures
            bb@ == self.pawn_moves_from(ArmyColour::Black, c, intf_board@),
    {
        let occ = self.occupied_cells() | intf_board;
        let mut bb = BitBoard::new();
        if let Some(tentative_cell) = s(c) {
            if !occ.cell_is_active(tentative_cell) {
                bb.set_cell(tentative_cell);
                if rank(c) == Rank::Rank7 {
                    if let Some(further_cell) = s(tentative_cell) {
                        if !occ.cell_is_active(further_cell) {
                            bb.set_cell(further_cell);
                        }
                    }
                }
            }
        }
        assert(bb@ =~= pawn_pushes(ArmyColour::Black, occ@, c));
        bb | (ChessArmy::pawn_controlled_cells(c, self.colour) & intf_board)
    }

    /// The possible moves of the piece of kind `cp` on `c`: for the King its
    /// moves wherever it stands, for a pawn its pushes and captures, for the
    /// other pieces the cells they control that hold no piece of their army.
    /// Empty when no piece of kind `cp` stands on `c` (but for the King).
    pub fn possible_moves_for_piece_in_cell(&self, cp: ChessPiece, c: Cell, intf_board: BitBoard) -> (bb:
        BitBoard)
        ensures
            bb@ == self.moves(cp, c, intf_board@),
    {
        match cp {
            ChessPiece::King => self.possible_moves_for_king(),
            ChessPiece::Pawn => self.possible_moves_for_pawn_in_cell(c, intf_board),
            _ => self.possible_moves_for_regular_piece_in_cell(cp, c, intf_board),
        }
    }
}


/// An army of the given colour holding a single piece, of kind `kind`, on `c`.
pub closed spec fn lone_piece_army(kind: ChessPiece, c: Cell, colour: ArmyColour) -> ChessArmy {
    let empty = BitBoard { state: 0 };
    let here = BitBoard { state: crate::bbdefines::single_mask(c) };
    ChessArmy {
        kings: if kind == ChessPiece::King { here } else { empty },
        queens: if kind == ChessPiece::Queen { here } else { empty },
        bishops: if kind == ChessPiece::Bishop { here } else { empty },
        knights: if kind == ChessPiece::Knight { here } else { empty },
        rooks: if kind == ChessPiece::Rook { here } else { empty },
        pawns: if kind == ChessPiece::Pawn { here } else { empty },
        colour,
    }
}

/// The army made by [lone_piece_army] holds its one piece and nothing else.
pub proof fn lemma_lone_piece_army(kind: ChessPiece, c: Cell, colour: ArmyColour)
    ensures
        lone_piece_army(kind, c, colour).spec_colour() == colour,
        lone_piece_army(kind, c, colour).pieces(kind) == set![c],
        forall|k: ChessPiece| k != kind ==> #[trigger] lone_piece_army(kind, c, colour).pieces(k)
            == Set::<Cell>::empty(),
        lone_piece_army(kind, c, colour).occupied() == set![c],
{
    let a = lone_piece_army(kind, c, colour);
    assert(a.occupied() =~= set![c]);
}

/// A lone queen controls, for any interference board, exactly the union of
/// what a lone bishop and a lone rook of its colour on its cell control.
pub proof fn lemma_queen_is_bishop_and_rook(c: Cell, colour: ArmyColour, intf: Set<Cell>)
    ensures
        lone_piece_army(ChessPiece::Queen, c, colour).controlled_by(ChessPiece::Queen, intf)
            == lone_piece_army(ChessPiece::Bishop, c, colour).controlled_by(
            ChessPiece::Bishop,
            intf,
        ) + lone_piece_army(ChessPiece::Rook, c, colour).controlled_by(ChessPiece::Rook, intf),
{
    lemma_lone_piece_army(ChessPiece::Queen, c, colour);
    lemma_lone_piece_army(ChessPiece::Bishop, c, colour);
    lemma_lone_piece_army(ChessPiece::Rook, c, colour);
    let occ = set![c] + intf;
    lemma_sweep_single(c, ChessPiece::Queen, colour, occ);
    lemma_sweep_single(c, ChessPiece::Bishop, colour, occ);
    lemma_sweep_single(c, ChessPiece::Rook, colour, occ);
}

} // verus!
