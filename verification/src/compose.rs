//! The compositor: what the picture of a position is, pixel by pixel, and
//! the drawing of it on a board background.

use crate::art::PieceArt;
use crate::board::{
    all_empty, displayed, lemma_displayed_square, lemma_shown_somewhere, lemma_views_are_half_turns,
    Color, Piece, Position,
};
use crate::overlay::{overlaid, overlay};
use crate::raster::{
    can_resize, lemma_index_place, lemma_place_index, resizable, resized, Image, Raster, Rgba,
};
use vstd::prelude::*;

verus! {

/// The side of a square in pixels on a board that is `width` pixels wide: an
/// eighth of the width, rounded down.
pub open spec fn square_size(width: nat) -> nat {
    width / 8
}

/// What the piece on the square numbered `square` among `shown` puts at the
/// place `(dx, dy)` of its square, whose side is `size`: the pixel that its
/// picture, brought to the size of the square, has there, unless that pixel
/// is fully transparent. An empty square puts nothing anywhere.
pub open spec fn piece_pixel(
    shown: Seq<Option<Piece>>,
    art: Map<Piece, Image>,
    size: nat,
    square: int,
    dx: int,
    dy: int,
) -> Option<Rgba> {
    match shown[square] {
        Some(piece) => {
            let over = resized(art[piece], size, size).at(dx, dy);
            if over.a != 0 {
                Some(over)
            } else {
                None
            }
        },
        None => None,
    }
}

/// The colour at `(x, y)` of the picture of the squares `shown`, given in the
/// order in which they are drawn, on the background `board` with the
/// artwork `art`. Within the eight by eight squares the place belongs to one
/// square, and shows what the piece on that square puts there, with all four
/// channels. Where the piece puts nothing, and outside the squares, the
/// background shows.
pub open spec fn composed_pixel(
    shown: Seq<Option<Piece>>,
    board: Image,
    art: Map<Piece, Image>,
    x: int,
    y: int,
) -> Rgba {
    let size = square_size(board.width) as int;
    if 0 <= x < 8 * size && 0 <= y < 8 * size {
        match piece_pixel(shown, art, size as nat, 8 * (y / size) + x / size, x % size, y % size) {
            Some(over) => over,
            None => board.at(x, y),
        }
    } else {
        board.at(x, y)
    }
}

/// The picture of the first `count` of the squares `shown` on the
/// background `board`: the later squares still show the background alone.
spec fn composed_upto(
    shown: Seq<Option<Piece>>,
    board: Image,
    art: Map<Piece, Image>,
    count: int,
) -> Image {
    Image {
        width: board.width,
        height: board.height,
        pixels: Seq::new(
            board.pixels.len(),
            |i: int|
                {
                    let size = square_size(board.width) as int;
                    let x = i % (board.width as int);
                    let y = i / (board.width as int);
                    if x < 8 * size && y < 8 * size && 8 * (y / size) + x / size < count {
                        composed_pixel(shown, board, art, x, y)
                    } else {
                        board.pixels[i]
                    }
                },
        ),
    }
}

/// The picture of the squares `shown`, given in the order in which they are
/// drawn, on the background `board` with the artwork `art`.
pub open spec fn composed(shown: Seq<Option<Piece>>, board: Image, art: Map<Piece, Image>) -> Image {
    Image {
        width: board.width,
        height: board.height,
        pixels: Seq::new(
            board.pixels.len(),
            |i: int|
                composed_pixel(
                    shown,
                    board,
                    art,
                    i % (board.width as int),
                    i / (board.width as int),
                ),
        ),
    }
}

/// Whether `art` holds a picture of every piece that stands on `squares`.
pub open spec fn has_art(squares: Seq<Option<Piece>>, art: Map<Piece, Image>) -> bool {
    forall|i: int|
        0 <= i < squares.len() ==> (#[trigger] squares[i] matches Some(piece) ==> art.contains_key(
            piece,
        ))
}

/// Whether the pieces on `squares` can be drawn on `board` from `art`: the
/// eight ranks fit into the height of the board, as they do on every square
/// board, and each picture to be drawn can be brought to the size of a
/// square. A position without pieces can be drawn on any board.
pub open spec fn renderable(squares: Seq<Option<Piece>>, board: Image, art: Map<Piece, Image>) -> bool {
    forall|i: int|
        0 <= i < squares.len() ==> (#[trigger] squares[i] matches Some(piece) ==> art.contains_key(
            piece,
        ) ==> {
            &&& 8 * square_size(board.width) <= board.height
            &&& can_resize(art[piece], square_size(board.width), square_size(board.width))
        })
}

/// A coordinate `at` lies in the cell numbered `cell` of a row of cells that
/// are each `size` wide exactly when `at / size` is `cell`, and is then
/// `at % size` away from where the cell begins.
proof fn lemma_cell(size: int, at: int, cell: int)
    requires
        size > 0,
        0 <= at,
    ensures
        0 <= at / size,
        0 <= at % size < size,
        cell * size <= at < cell * size + size <==> at / size == cell,
        at / size == cell ==> at - cell * size == at % size,
        at < 8 * size <==> at / size < 8,
{
    vstd::arithmetic::div_mod::lemma_fundamental_div_mod(at, size);
    vstd::arithmetic::div_mod::lemma_mod_bound(at, size);
    let q = at / size;
    assert(size * q == q * size) by (nonlinear_arith);
    assert(0 <= q) by (nonlinear_arith)
        requires
            size > 0,
            0 <= at,
            at == q * size + at % size,
            0 <= at % size < size,
    ;
    if cell * size <= at < cell * size + size {
        vstd::arithmetic::div_mod::lemma_fundamental_div_mod_converse(
            at,
            size,
            cell,
            at - cell * size,
        );
    }
    if q < 8 {
        assert(q * size + size <= 8 * size) by (nonlinear_arith)
            requires
                q < 8,
                size > 0,
        ;
    } else {
        assert(q * size >= 8 * size) by (nonlinear_arith)
            requires
                q >= 8,
                size > 0,
        ;
    }
}

/// Drawing one more square: laying the picture of the piece on the square
/// in rank `rank` and file `file` over the picture of the squares before it
/// gives the picture of the squares up to and with that one.
proof fn lemma_draw_square(
    shown: Seq<Option<Piece>>,
    board: Image,
    art: Map<Piece, Image>,
    rank: int,
    file: int,
    sprite: Image,
)
    requires
        board.wf(),
        0 <= rank < 8,
        0 <= file < 8,
        shown[8 * rank + file] matches Some(piece) && sprite == resized(
            art[piece],
            square_size(board.width),
            square_size(board.width),
        ),
        sprite.width == square_size(board.width),
        sprite.height == square_size(board.width),
    ensures
        overlaid(
            composed_upto(shown, board, art, 8 * rank + file),
            sprite,
            file * square_size(board.width),
            rank * square_size(board.width),
        ) == composed_upto(shown, board, art, 8 * rank + file + 1),
{
    let size = square_size(board.width) as int;
    let wide = board.width as int;
    let square = 8 * rank + file;
    let under = composed_upto(shown, board, art, square);
    let now = overlaid(under, sprite, file * size, rank * size);
    let then = composed_upto(shown, board, art, square + 1);
    assert forall|i: int| 0 <= i < board.pixels.len() implies now.pixels[i] == then.pixels[i] by {
        lemma_index_place(wide, board.height as int, i);
        let x = i % wide;
        let y = i / wide;
        if size > 0 {
            lemma_cell(size, x, file);
            lemma_cell(size, y, rank);
        }
    }
    assert(now.pixels =~= then.pixels);
}

/// An empty square draws nothing.
proof fn lemma_skip_square(
    shown: Seq<Option<Piece>>,
    board: Image,
    art: Map<Piece, Image>,
    square: int,
)
    requires
        board.wf(),
        0 <= square < 64,
        shown[square] is None,
    ensures
        composed_upto(shown, board, art, square) == composed_upto(shown, board, art, square + 1),
{
    let wide = board.width as int;
    let now = composed_upto(shown, board, art, square);
    let then = composed_upto(shown, board, art, square + 1);
    assert forall|i: int| 0 <= i < board.pixels.len() implies now.pixels[i] == then.pixels[i] by {
        lemma_index_place(wide, board.height as int, i);
    }
    assert(now.pixels =~= then.pixels);
}

/// Before any square is drawn the picture is the background, and once all
/// sixty-four are drawn it is the whole picture.
proof fn lemma_draw_ends(shown: Seq<Option<Piece>>, board: Image, art: Map<Piece, Image>)
    requires
        board.wf(),
    ensures
        composed_upto(shown, board, art, 0) == board,
        composed_upto(shown, board, art, 64) == composed(shown, board, art),
{
    let size = square_size(board.width) as int;
    let wide = board.width as int;
    let first = composed_upto(shown, board, art, 0);
    let last = composed_upto(shown, board, art, 64);
    let whole = composed(shown, board, art);
    assert forall|i: int| 0 <= i < board.pixels.len() implies first.pixels[i] == board.pixels[i]
        && last.pixels[i] == whole.pixels[i] by {
        lemma_index_place(wide, board.height as int, i);
        let x = i % wide;
        let y = i / wide;
        if size > 0 {
            lemma_cell(size, x, 0);
            lemma_cell(size, y, 0);
        }
    }
    assert(first.pixels =~= board.pixels);
    assert(last.pixels =~= whole.pixels);
}

/// A position without pieces is drawn as the background, pixel for pixel,
/// whichever side looks at it and whatever artwork there is.
pub proof fn lemma_empty_position_shows_board(
    squares: Seq<Option<Piece>>,
    perspective: Color,
    board: Image,
    art: Map<Piece, Image>,
)
    requires
        squares.len() == 64,
        all_empty(squares),
        board.wf(),
    ensures
        composed(displayed(squares, perspective), board, art) == board,
{
    let shown = displayed(squares, perspective);
    let size = square_size(board.width) as int;
    let wide = board.width as int;
    let whole = composed(shown, board, art);
    assert forall|i: int| 0 <= i < board.pixels.len() implies whole.pixels[i]
        == board.pixels[i] by {
        lemma_index_place(wide, board.height as int, i);
        let x = i % wide;
        let y = i / wide;
        if x < 8 * size && y < 8 * size {
            lemma_cell(size, x, 0);
            lemma_cell(size, y, 0);
            lemma_displayed_square(squares, perspective, y / size, x / size);
        }
    }
    assert(whole.pixels =~= board.pixels);
}

/// Draws the pieces of `position` on `canvas` as the side `perspective` sees
/// them, each from its picture in `art`, resized to a square of the canvas
/// and laid over its square. Nothing is drawn unless every piece on the
/// board has a picture: a picture with some pieces missing is never handed
/// out.
pub fn compose(position: &Position, perspective: Color, canvas: Raster, art: &PieceArt) -> (picture:
    Option<Raster>)
    requires
        renderable(position@, canvas@, art@),
    ensures
        picture is Some <==> has_art(position@, art@),
        picture matches Some(drawn) ==> drawn@ == composed(
            displayed(position@, perspective),
            canvas@,
            art@,
        ),
{
    let mut canvas = canvas;
    let ghost background = canvas@;
    let ghost shown = displayed(position@, perspective);
    let ranks = position.display_ranks(perspective);
    let size = canvas.width() / 8;
    proof {
        canvas.lemma_view_wf();
        lemma_draw_ends(shown, background, art@);
    }
    let mut rank: usize = 0;
    while rank < 8
        invariant
            rank <= 8,
            background.wf(),
            background.width <= u32::MAX,
            size == square_size(background.width),
            shown == displayed(position@, perspective),
            renderable(position@, background, art@),
            ranks@.len() == 8,
            forall|r: int| 0 <= r < 8 ==> (#[trigger] ranks@[r])@.len() == 8,
            forall|r: int, f: int|
                0 <= r < 8 && 0 <= f < 8 ==> #[trigger] ranks@[r]@[f] == shown[8 * r + f],
            forall|k: int|
                0 <= k < 8 * rank ==> (#[trigger] shown[k] matches Some(piece) ==> art@.contains_key(
                    piece,
                )),
            canvas@ == composed_upto(shown, background, art@, 8 * rank),
        decreases 8 - rank,
    {
        let mut file: usize = 0;
        while file < 8
            invariant
                file <= 8,
                rank < 8,
                background.wf(),
                background.width <= u32::MAX,
                size == square_size(background.width),
                shown == displayed(position@, perspective),
                renderable(position@, background, art@),
                ranks@.len() == 8,
                forall|r: int| 0 <= r < 8 ==> (#[trigger] ranks@[r])@.len() == 8,
                forall|r: int, f: int|
                    0 <= r < 8 && 0 <= f < 8 ==> #[trigger] ranks@[r]@[f] == shown[8 * r + f],
                forall|k: int|
                    0 <= k < 8 * rank + file ==> (#[trigger] shown[k] matches Some(piece)
                        ==> art@.contains_key(piece)),
                canvas@ == composed_upto(shown, background, art@, 8 * rank + file),
            decreases 8 - file,
        {
            proof {
                lemma_displayed_square(position@, perspective, rank as int, file as int);
            }
            match ranks[rank][file] {
                Some(piece) => {
                    match art.get(piece) {
                        Some(picture) => {
                            let sprite = picture.resized(size, size);
                            proof {
                                lemma_draw_square(
                                    shown,
                                    background,
                                    art@,
                                    rank as int,
                                    file as int,
                                    sprite@,
                                );
                                assert(file * size + size <= 8 * size && rank * size + size <= 8
                                    * size) by (nonlinear_arith)
                                    requires
                                        file < 8,
                                        rank < 8,
                                        size >= 0,
                                ;
                            }
                            overlay(&mut canvas, &sprite, file as u32 * size, rank as u32 * size);
                        },
                        None => {
                            return None;
                        },
                    }
                },
                None => {
                    proof {
                        lemma_skip_square(shown, background, art@, 8 * rank + file);
                    }
                },
            }
            file += 1;
        }
        rank += 1;
    }
    proof {
        assert forall|i: int| 0 <= i < 64 implies (#[trigger] position@[i] matches Some(piece)
            ==> art@.contains_key(piece)) by {
            lemma_shown_somewhere(position@, perspective, i);
        }
    }
    Some(canvas)
}

/// Whether `position` can be drawn on `board` from `art`, which is what
/// `position_to_image` asks of a background it is given.
pub fn can_render(position: &Position, board: &Raster, art: &PieceArt) -> (ok: bool)
    ensures
        ok == renderable(position@, board@, art@),
{
    let size = board.width() / 8;
    let fits = 8 * (size as u64) <= board.height() as u64;
    let mut index: usize = 0;
    while index < 64
        invariant
            index <= 64,
            size == square_size(board@.width),
            fits == (8 * square_size(board@.width) <= board@.height),
            forall|i: int|
                0 <= i < index ==> (#[trigger] position@[i] matches Some(piece)
                    ==> art@.contains_key(piece) ==> {
                    &&& 8 * square_size(board@.width) <= board@.height
                    &&& can_resize(
                        art@[piece],
                        square_size(board@.width),
                        square_size(board@.width),
                    )
                }),
        decreases 64 - index,
    {
        if let Some(piece) = position.get(index) {
            if let Some(picture) = art.get(piece) {
                if !fits || !resizable(picture, size, size) {
                    return false;
                }
            }
        }
        index += 1;
    }
    true
}

/// Each pixel of a picture is what `composed_pixel` says of its place.
pub proof fn lemma_composed_at(
    shown: Seq<Option<Piece>>,
    board: Image,
    art: Map<Piece, Image>,
    x: int,
    y: int,
)
    requires
        board.wf(),
        board.has(x, y),
    ensures
        composed(shown, board, art).at(x, y) == composed_pixel(shown, board, art, x, y),
{
    lemma_place_index(board.width as int, board.height as int, x, y);
}

/// The alpha rule in a picture. At the place `(dx, dy)` of the square in
/// rank `rank` and file `file`, the picture shows what the piece on that
/// square puts there: the pixel of its resized picture, all four channels of
/// it, where that is not fully transparent. Where it is, and on an empty
/// square, the background shows unchanged.
pub proof fn lemma_piece_over_board(
    shown: Seq<Option<Piece>>,
    board: Image,
    art: Map<Piece, Image>,
    rank: int,
    file: int,
    dx: int,
    dy: int,
)
    requires
        board.wf(),
        8 * square_size(board.width) <= board.height,
        0 <= rank < 8,
        0 <= file < 8,
        0 <= dx < square_size(board.width),
        0 <= dy < square_size(board.width),
    ensures
        ({
            let size = square_size(board.width);
            let (x, y) = (file * size + dx, rank * size + dy);
            composed(shown, board, art).at(x, y) == match piece_pixel(
                shown,
                art,
                size,
                8 * rank + file,
                dx,
                dy,
            ) {
                Some(over) => over,
                None => board.at(x, y),
            }
        }),
{
    let size = square_size(board.width) as int;
    lemma_square_place(board, rank, file, dx, dy);
    lemma_composed_at(shown, board, art, file * size + dx, rank * size + dy);
}

/// The place `(dx, dy)` within the square in rank `rank` and file `file` is
/// a place of the board, and belongs to that square.
pub proof fn lemma_square_place(board: Image, rank: int, file: int, dx: int, dy: int)
    requires
        8 * square_size(board.width) <= board.height,
        0 <= rank < 8,
        0 <= file < 8,
        0 <= dx < square_size(board.width),
        0 <= dy < square_size(board.width),
    ensures
        ({
            let size = square_size(board.width) as int;
            let x = file * size + dx;
            let y = rank * size + dy;
            &&& board.has(x, y)
            &&& 0 <= x < 8 * size
            &&& 0 <= y < 8 * size
            &&& x / size == file
            &&& y / size == rank
            &&& x % size == dx
            &&& y % size == dy
        }),
{
    let size = square_size(board.width) as int;
    let x = file * size + dx;
    let y = rank * size + dy;
    assert(0 <= file * size && file * size + size <= 8 * size && 0 <= rank * size && rank * size
        + size <= 8 * size) by (nonlinear_arith)
        requires
            0 <= file < 8,
            0 <= rank < 8,
            size > 0,
    ;
    lemma_cell(size, x, file);
    lemma_cell(size, y, rank);
}

/// The two perspectives show one position turned by half a turn, square by
/// square: whatever the piece on White's square in rank `rank` and file
/// `file` puts at a place `(dx, dy)` of that square, the same is put at that
/// place of Black's square in rank `7 - rank` and file `7 - file`.
///
/// So, given two backgrounds of one width, one for each side, the two
/// pictures show the same pixel there wherever a piece covers the place,
/// and each its own background where none does; where the backgrounds agree
/// at the two places, the pictures do.
pub proof fn lemma_perspectives_are_half_turns(
    squares: Seq<Option<Piece>>,
    white_board: Image,
    black_board: Image,
    art: Map<Piece, Image>,
    rank: int,
    file: int,
    dx: int,
    dy: int,
)
    requires
        squares.len() == 64,
        white_board.wf(),
        black_board.wf(),
        white_board.width == black_board.width,
        8 * square_size(white_board.width) <= white_board.height,
        8 * square_size(black_board.width) <= black_board.height,
        0 <= rank < 8,
        0 <= file < 8,
        0 <= dx < square_size(white_board.width),
        0 <= dy < square_size(white_board.width),
    ensures
        ({
            let size = square_size(white_board.width);
            let seen = displayed(squares, Color::White);
            let turned = displayed(squares, Color::Black);
            let white = composed(seen, white_board, art);
            let black = composed(turned, black_board, art);
            let (x, y) = (file * size + dx, rank * size + dy);
            let (u, v) = ((7 - file) * size + dx, (7 - rank) * size + dy);
            let over = piece_pixel(seen, art, size, 8 * rank + file, dx, dy);
            &&& over == piece_pixel(turned, art, size, 8 * (7 - rank) + (7 - file), dx, dy)
            &&& over matches Some(pixel) ==> white.at(x, y) == pixel && black.at(u, v) == pixel
            &&& over is None ==> white.at(x, y) == white_board.at(x, y) && black.at(u, v)
                == black_board.at(u, v)
            &&& white_board.at(x, y) == black_board.at(u, v) ==> white.at(x, y) == black.at(u, v)
        }),
{
    let seen = displayed(squares, Color::White);
    let turned = displayed(squares, Color::Black);
    lemma_views_are_half_turns(squares, rank, file);
    lemma_piece_over_board(seen, white_board, art, rank, file, dx, dy);
    lemma_piece_over_board(turned, black_board, art, 7 - rank, 7 - file, dx, dy);
}

} // verus!
