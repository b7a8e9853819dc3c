//! Pictures of positions: the theme that names the artwork, and the
//! rendering of a position with the artwork found for a theme.

use crate::art::PieceArt;
use crate::board::{all_empty, displayed, Color, Piece, Position};
use crate::compose::{compose, composed, has_art, lemma_empty_position_shows_board, renderable};
use crate::raster::{Image, Raster};
use vstd::prelude::*;

verus! {

/// A theme: the name of the family of board backgrounds and the name of the
/// family of piece artwork. Whether they name anything is found out only
/// when the artwork is looked up.
#[derive(Eq, PartialEq, Copy, Clone, Debug)]
pub struct Theme<'a> {
    pub board_theme: &'a str,
    pub piece_set: &'a str,
}

impl<'a> Default for Theme<'a> {
    /// The brown board with the normal pieces.
    fn default() -> (theme: Self)
        ensures
            theme.board_theme@ == "brown"@,
            theme.piece_set@ == "normal"@,
    {
        Self { board_theme: "brown", piece_set: "normal" }
    }
}

/// The failure of a rendering: some artwork that the theme asks for, the
/// board background or the picture of a piece, could not be had. It carries
/// the theme as it was asked for.
#[derive(Eq, PartialEq, Copy, Clone, Debug)]
pub struct InvalidThemeError<'a>(pub Theme<'a>);

impl<'a> InvalidThemeError<'a> {
    /// The theme whose artwork could not be had.
    pub fn theme(&self) -> (theme: Theme<'a>)
        ensures
            theme == self.0,
    {
        self.0
    }
}

/// What a rendering comes to. Without a background, or without a picture of
/// some piece on the board, it fails and hands the theme back; otherwise it
/// is the picture composed on the background.
pub open spec fn rendering<'a>(
    squares: Seq<Option<Piece>>,
    theme: Theme<'a>,
    perspective: Color,
    board: Option<Image>,
    art: Map<Piece, Image>,
) -> Result<Image, InvalidThemeError<'a>> {
    match board {
        Some(background) if has_art(squares, art) => Ok(
            composed(displayed(squares, perspective), background, art),
        ),
        _ => Err(InvalidThemeError(theme)),
    }
}

/// The background that a rendering was given, as an image.
pub open spec fn background_of(board: Option<Raster>) -> Option<Image> {
    match board {
        Some(background) => Some(background@),
        None => None,
    }
}

/// What a rendering returned, with the picture as an image.
pub open spec fn outcome<'a>(result: Result<Raster, InvalidThemeError<'a>>) -> Result<
    Image,
    InvalidThemeError<'a>,
> {
    match result {
        Ok(picture) => Ok(picture@),
        Err(error) => Err(error),
    }
}

/// Creates an image of `position` from the perspective of the side
/// `perspective`: on the background `board`, with each piece drawn from its
/// picture in `art`, resized to a square of the board.
///
/// `board` and `art` are what looking up the artwork of `theme` gave: `board`
/// is `None` where no background could be had, and `art` has no picture for
/// a piece whose picture could not be had. Either failure comes back as the
/// same error, which carries `theme` whole.
pub fn position_to_image<'a>(
    position: &Position,
    theme: Theme<'a>,
    perspective: Color,
    board: Option<Raster>,
    art: &PieceArt,
) -> (result: Result<Raster, InvalidThemeError<'a>>)
    requires
        board matches Some(background) ==> renderable(position@, background@, art@),
    ensures
        outcome(result) == rendering(position@, theme, perspective, background_of(board), art@),
        board is None ==> result is Err && result->Err_0 == InvalidThemeError(theme),
        board is Some && all_empty(position@) ==> result is Ok && result->Ok_0@
            == board->Some_0@,
{
    let canvas = match board {
        Some(background) => background,
        None => {
            return Err(InvalidThemeError(theme));
        },
    };
    proof {
        canvas.lemma_view_wf();
        if all_empty(position@) {
            lemma_empty_position_shows_board(position@, perspective, canvas@, art@);
        }
    }
    match compose(position, perspective, canvas, art) {
        Some(picture) => Ok(picture),
        None => Err(InvalidThemeError(theme)),
    }
}

/// Rendering has no memory: what it returns is `rendering` of its arguments,
/// so two renderings of the same arguments return the same, pixel for pixel.
pub proof fn lemma_rendering_repeats<'a>(
    first: Result<Raster, InvalidThemeError<'a>>,
    second: Result<Raster, InvalidThemeError<'a>>,
    squares: Seq<Option<Piece>>,
    theme: Theme<'a>,
    perspective: Color,
    board: Option<Image>,
    art: Map<Piece, Image>,
)
    requires
        outcome(first) == rendering(squares, theme, perspective, board, art),
        outcome(second) == rendering(squares, theme, perspective, board, art),
    ensures
        outcome(first) == outcome(second),
        first matches Ok(one) ==> second matches Ok(other) && one@ == other@,
        first matches Err(one) ==> second matches Err(other) && one == other,
{
}

} // verus!
