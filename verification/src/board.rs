//! The pieces, the sixty-four squares of a position, and the order in which a
//! viewer on either side sees them.

use vstd::prelude::*;

verus! {

/// One of the two sides. It names the owner of a piece and the side whose
/// pieces are nearest the viewer.
#[derive(Clone, Copy, PartialEq, Eq, Structural, Debug)]
pub enum Color {
    White,
    Black,
}

impl Color {
    /// Whether this is the white side.
    pub fn is_white(&self) -> (white: bool)
        ensures
            white == (*self == Color::White),
    {
        match self {
            Color::White => true,
            Color::Black => false,
        }
    }

    /// Whether this is the black side.
    pub fn is_black(&self) -> (black: bool)
        ensures
            black == (*self == Color::Black),
    {
        match self {
            Color::White => false,
            Color::Black => true,
        }
    }
}

/// What a piece is, whoever owns it.
#[derive(Clone, Copy, PartialEq, Eq, Structural, Debug)]
pub enum PieceKind {
    Pawn,
    Knight,
    Bishop,
    Rook,
    Queen,
    King,
}

/// A piece: its kind and its owner.
#[derive(Clone, Copy, PartialEq, Eq, Structural, Debug)]
pub struct Piece {
    pub kind: PieceKind,
    pub color: Color,
}

impl Piece {
    /// The piece of the given kind that belongs to the given side.
    pub fn new(kind: PieceKind, color: Color) -> (piece: Piece)
        ensures
            piece == (Piece { kind, color }),
    {
        Piece { kind, color }
    }

    /// The kind of this piece.
    pub fn kind(&self) -> (kind: PieceKind)
        ensures
            kind == self.kind,
    {
        self.kind
    }

    /// The side that owns this piece.
    pub fn color(&self) -> (color: Color)
        ensures
            color == self.color,
    {
        self.color
    }
}

/// Sixty-four squares, each empty or holding a piece. A rank is eight
/// consecutive squares; the order in which the ranks are stored is fixed and
/// does not depend on who looks at the board.
#[derive(Clone, Copy, PartialEq, Eq, Debug)]
pub struct Position {
    pub content: [Option<Piece>; 64],
}

impl View for Position {
    type V = Seq<Option<Piece>>;

    open spec fn view(&self) -> Seq<Option<Piece>> {
        self.content@
    }
}

/// The ranks of `squares` in reverse order, each rank's squares in the order
/// they had.
pub open spec fn ranks_reversed(squares: Seq<Option<Piece>>) -> Seq<Option<Piece>> {
    Seq::new(64, |i: int| squares[8 * (7 - i / 8) + i % 8])
}

/// The squares in the order in which they are drawn for a viewer on the side
/// `perspective`: rank by rank from the top of the picture, each rank from
/// left to right. White sees the stored ranks in reverse order. Black sees
/// what White sees turned by half a turn: the whole sequence is reversed
/// before its ranks are.
pub open spec fn displayed(squares: Seq<Option<Piece>>, perspective: Color) -> Seq<Option<Piece>> {
    match perspective {
        Color::White => ranks_reversed(squares),
        Color::Black => ranks_reversed(squares.reverse()),
    }
}

/// The pieces that stand on `squares`, one for each occupied square, in the
/// order of the squares.
pub open spec fn pieces_on(squares: Seq<Option<Piece>>) -> Seq<Piece>
    decreases squares.len(),
{
    if squares.len() == 0 {
        Seq::empty()
    } else {
        let before = pieces_on(squares.drop_last());
        match squares.last() {
            Some(piece) => before.push(piece),
            None => before,
        }
    }
}

/// Whether no square of `squares` holds a piece.
pub open spec fn all_empty(squares: Seq<Option<Piece>>) -> bool {
    forall|i: int| 0 <= i < squares.len() ==> squares[i] is None
}

impl Position {
    /// The position with no piece on any square.
    pub fn empty() -> (position: Position)
        ensures
            all_empty(position@),
    {
        Position { content: [None;64] }
    }

    /// The position whose squares are `content`, in stored order.
    pub fn new(content: [Option<Piece>; 64]) -> (position: Position)
        ensures
            position@ == content@,
    {
        Position { content }
    }

    /// What stands on the square with the stored index `index`.
    pub fn get(&self, index: usize) -> (square: Option<Piece>)
        requires
            index < 64,
        ensures
            square == self@[index as int],
    {
        self.content[index]
    }

    /// Puts `square` on the square with the stored index `index` and leaves
    /// every other square as it was.
    pub fn set(&mut self, index: usize, square: Option<Piece>)
        requires
            index < 64,
        ensures
            final(self)@ == old(self)@.update(index as int, square),
    {
        self.content[index] = square;
    }

    /// Whether no square holds a piece.
    pub fn is_empty(&self) -> (empty: bool)
        ensures
            empty == all_empty(self@),
    {
        let mut index: usize = 0;
        while index < 64
            invariant
                index <= 64,
                forall|i: int| 0 <= i < index ==> self@[i] is None,
            decreases 64 - index,
        {
            if self.content[index].is_some() {
                return false;
            }
            index += 1;
        }
        true
    }

    /// The pieces on the board, one for each occupied square, in stored
    /// order.
    pub fn pieces(&self) -> (pieces: Vec<Piece>)
        ensures
            pieces@ == pieces_on(self@),
            forall|piece: Piece| pieces@.contains(piece) <==> self@.contains(Some(piece)),
    {
        let mut pieces: Vec<Piece> = Vec::new();
        let mut index: usize = 0;
        while index < 64
            invariant
                index <= 64,
                pieces@ == pieces_on(self@.take(index as int)),
            decreases 64 - index,
        {
            assert(self@.take(index + 1).drop_last() =~= self@.take(index as int));
            if let Some(piece) = self.content[index] {
                pieces.push(piece);
            }
            index += 1;
        }
        proof {
            assert(self@.take(64) =~= self@);
            assert forall|piece: Piece| pieces@.contains(piece) <==> self@.contains(
                Some(piece),
            ) by {
                lemma_pieces_on(self@, piece);
            }
        }
        pieces
    }

    /// The eight ranks as a viewer on the side `perspective` sees them, the
    /// topmost first, each with its eight squares from left to right.
    pub fn display_ranks(&self, perspective: Color) -> (ranks: Vec<Vec<Option<Piece>>>)
        ensures
            ranks@.len() == 8,
            forall|rank: int| 0 <= rank < 8 ==> (#[trigger] ranks@[rank])@.len() == 8,
            forall|rank: int, file: int|
                0 <= rank < 8 && 0 <= file < 8 ==> #[trigger] ranks@[rank]@[file] == displayed(
                    self@,
                    perspective,
                )[8 * rank + file],
    {
        let mut content = self.content;
        if perspective.is_black() {
            let mut low: usize = 0;
            while low < 32
                invariant
                    low <= 32,
                    forall|i: int|
                        0 <= i < low || 64 - low <= i < 64 ==> #[trigger] content@[i] == self@[63
                            - i],
                    forall|i: int| low <= i < 64 - low ==> #[trigger] content@[i] == self@[i],
                decreases 32 - low,
            {
                let high: usize = 63 - low;
                let first = content[low];
                content[low] = content[high];
                content[high] = first;
                low += 1;
            }
        }
        let ghost turned = content@;
        let mut ranks: Vec<Vec<Option<Piece>>> = Vec::new();
        let mut rank: usize = 0;
        while rank < 8
            invariant
                rank <= 8,
                content@ == turned,
                ranks@.len() == rank,
                forall|r: int| 0 <= r < rank ==> (#[trigger] ranks@[r])@.len() == 8,
                forall|r: int, f: int|
                    0 <= r < rank && 0 <= f < 8 ==> #[trigger] ranks@[r]@[f] == turned[8 * (7
                        - r) + f],
            decreases 8 - rank,
        {
            let start: usize = 8 * (7 - rank);
            let mut squares: Vec<Option<Piece>> = Vec::new();
            let mut file: usize = 0;
            while file < 8
                invariant
                    file <= 8,
                    rank < 8,
                    start == 8 * (7 - rank),
                    content@ == turned,
                    squares@.len() == file,
                    forall|f: int| 0 <= f < file ==> squares@[f] == turned[start + f],
                decreases 8 - file,
            {
                squares.push(content[start + file]);
                file += 1;
            }
            ranks.push(squares);
            rank += 1;
        }
        ranks
    }
}

/// The pieces on the board are those that stand on some square, and no
/// others.
pub proof fn lemma_pieces_on(squares: Seq<Option<Piece>>, piece: Piece)
    ensures
        pieces_on(squares).contains(piece) <==> squares.contains(Some(piece)),
    decreases squares.len(),
{
    if squares.len() > 0 {
        let before = squares.drop_last();
        lemma_pieces_on(before, piece);
        if squares.contains(Some(piece)) {
            let at = choose|i: int| 0 <= i < squares.len() && squares[i] == Some(piece);
            if at < before.len() {
                assert(before[at] == Some(piece));
            }
        }
        match squares.last() {
            Some(last) => {
                let found = pieces_on(before).push(last);
                assert(found[found.len() - 1] == last);
                if pieces_on(before).contains(piece) {
                    let at = choose|i: int|
                        0 <= i < pieces_on(before).len() && pieces_on(before)[i] == piece;
                    assert(found[at] == piece);
                }
            },
            None => {},
        }
    }
}

/// The stored index of the square that a viewer on the side `perspective`
/// sees in rank `rank`, counted from the top, and file `file`, counted from
/// the left. For White the ranks run the other way than they are stored,
/// for Black the files do.
pub open spec fn stored_index(perspective: Color, rank: int, file: int) -> int {
    match perspective {
        Color::White => 8 * (7 - rank) + file,
        Color::Black => 8 * rank + (7 - file),
    }
}

/// The square that a viewer on the side `perspective` sees in rank `rank`
/// and file `file` is the stored square with the index that `stored_index`
/// gives.
pub proof fn lemma_displayed_square(
    squares: Seq<Option<Piece>>,
    perspective: Color,
    rank: int,
    file: int,
)
    requires
        squares.len() == 64,
        0 <= rank < 8,
        0 <= file < 8,
    ensures
        0 <= stored_index(perspective, rank, file) < 64,
        displayed(squares, perspective)[8 * rank + file] == squares[stored_index(
            perspective,
            rank,
            file,
        )],
{
}

/// Every stored square is drawn: the square with the stored index `index`
/// is seen in some rank and file.
pub proof fn lemma_shown_somewhere(squares: Seq<Option<Piece>>, perspective: Color, index: int)
    requires
        squares.len() == 64,
        0 <= index < 64,
    ensures
        exists|k: int| 0 <= k < 64 && #[trigger] displayed(squares, perspective)[k] == squares[index],
{
    let (rank, file) = match perspective {
        Color::White => (7 - index / 8, index % 8),
        Color::Black => (index / 8, 7 - index % 8),
    };
    lemma_displayed_square(squares, perspective, rank, file);
}

/// The two views of one position are each other turned by half a turn: what
/// White sees in rank `rank` and file `file`, Black sees in rank `7 - rank`
/// and file `7 - file`.
pub proof fn lemma_views_are_half_turns(squares: Seq<Option<Piece>>, rank: int, file: int)
    requires
        squares.len() == 64,
        0 <= rank < 8,
        0 <= file < 8,
    ensures
        displayed(squares, Color::White)[8 * rank + file] == displayed(squares, Color::Black)[8
            * (7 - rank) + (7 - file)],
{
    lemma_displayed_square(squares, Color::White, rank, file);
    lemma_displayed_square(squares, Color::Black, 7 - rank, 7 - file);
}

} // verus!
