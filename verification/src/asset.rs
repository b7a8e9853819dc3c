//! Where the artwork of a theme is kept: the path of a board background and
//! of the picture of a piece, as segments below the root of the artwork.

use crate::board::{Color, Piece, PieceKind};
use crate::img::Theme;
use vstd::prelude::*;

verus! {

/// The name of a side as it stands in a path.
pub open spec fn color_name(color: Color) -> Seq<char> {
    match color {
        Color::White => "white"@,
        Color::Black => "black"@,
    }
}

/// The letter that stands for a kind of piece in the name of its picture.
/// It is the same for both sides.
pub open spec fn kind_code(kind: PieceKind) -> char {
    match kind {
        PieceKind::Pawn => 'p',
        PieceKind::Knight => 'n',
        PieceKind::Bishop => 'b',
        PieceKind::Rook => 'r',
        PieceKind::Queen => 'q',
        PieceKind::King => 'k',
    }
}

/// `text` with `to` in place of every `from`.
pub open spec fn replaced(text: Seq<char>, from: char, to: Seq<char>) -> Seq<char>
    decreases text.len(),
{
    if text.len() == 0 {
        Seq::empty()
    } else {
        let head = if text[0] == from {
            to
        } else {
            seq![text[0]]
        };
        head + replaced(text.drop_first(), from, to)
    }
}

/// What `str::to_lowercase` makes of `text`: its lowercase equivalent by the
/// rules of Unicode.
pub uninterp spec fn lowercased(text: Seq<char>) -> Seq<char>;

/// The name of a board theme as it stands in a path: hyphens for spaces, and
/// all of it in lowercase.
pub open spec fn normalized(name: Seq<char>) -> Seq<char> {
    lowercased(replaced(name, ' ', "-"@))
}

/// The path of the background that a viewer on the side `perspective` sees,
/// for the board theme whose normalized name is `name`.
pub open spec fn board_path(name: Seq<char>, perspective: Color) -> Seq<Seq<char>> {
    seq!["boards"@, color_name(perspective), name + ".png"@]
}

/// The path of the picture of `piece` in the piece set `set`.
pub open spec fn piece_path(set: Seq<char>, piece: Piece) -> Seq<Seq<char>> {
    seq!["pieces"@, set, color_name(piece.color), seq![kind_code(piece.kind)] + ".png"@]
}

/// Calls `str::replace` with a character as the pattern.
///
/// Taken on trust from that function: the result is the text with each
/// occurrence of the character replaced by the replacement, and the rest
/// copied.
#[verifier::external_body]
fn replace(text: &str, from: char, to: &str) -> (out: String)
    ensures
        out@ == replaced(text@, from, to@),
{
    text.replace(from, to)
}

/// `str::to_lowercase` returns the lowercase equivalent of the text, which
/// depends on the text alone.
pub assume_specification[ str::to_lowercase ](text: &str) -> (out: String)
    ensures
        out@ == lowercased(text@),
;

impl Color {
    /// The name of the side as it stands in a path.
    pub fn name(&self) -> (name: &'static str)
        ensures
            name@ == color_name(*self),
    {
        match self {
            Color::White => "white",
            Color::Black => "black",
        }
    }
}

impl PieceKind {
    /// The letter that stands for this kind in the name of its picture.
    pub fn code(&self) -> (code: char)
        ensures
            code == kind_code(*self),
    {
        match self {
            PieceKind::Pawn => 'p',
            PieceKind::Knight => 'n',
            PieceKind::Bishop => 'b',
            PieceKind::Rook => 'r',
            PieceKind::Queen => 'q',
            PieceKind::King => 'k',
        }
    }

    /// The letter of this kind as a text of one character.
    fn code_text(&self) -> (code: &'static str)
        ensures
            code@ == seq![kind_code(*self)],
    {
        proof {
            reveal_strlit("p");
            reveal_strlit("n");
            reveal_strlit("b");
            reveal_strlit("r");
            reveal_strlit("q");
            reveal_strlit("k");
        }
        match self {
            PieceKind::Pawn => "p",
            PieceKind::Knight => "n",
            PieceKind::Bishop => "b",
            PieceKind::Rook => "r",
            PieceKind::Queen => "q",
            PieceKind::King => "k",
        }
    }
}

/// The name of a board theme as it stands in a path.
pub fn normalize(name: &str) -> (out: String)
    ensures
        out@ == normalized(name@),
{
    replace(name, ' ', "-").as_str().to_lowercase()
}

/// The path of the background for the board theme whose normalized name is
/// `name`, seen from the side `perspective`.
pub fn board_asset_named(name: &str, perspective: Color) -> (path: Vec<String>)
    ensures
        path.deep_view() == board_path(name@, perspective),
{
    let mut path: Vec<String> = Vec::new();
    path.push(String::from_str("boards"));
    path.push(String::from_str(perspective.name()));
    path.push(String::from_str(name).concat(".png"));
    path
}

/// The path of the background of `theme` that a viewer on the side
/// `perspective` sees.
pub fn board_asset(theme: &Theme, perspective: Color) -> (path: Vec<String>)
    ensures
        path.deep_view() == board_path(normalized(theme.board_theme@), perspective),
{
    let name = normalize(theme.board_theme);
    board_asset_named(name.as_str(), perspective)
}

/// The path of the picture of `piece` in the piece set of `theme`.
pub fn piece_asset(theme: &Theme, piece: Piece) -> (path: Vec<String>)
    ensures
        path.deep_view() == piece_path(theme.piece_set@, piece),
{
    let mut path: Vec<String> = Vec::new();
    path.push(String::from_str("pieces"));
    path.push(String::from_str(theme.piece_set));
    path.push(String::from_str(piece.color.name()));
    path.push(String::from_str(piece.kind.code_text()).concat(".png"));
    path
}

} // verus!
