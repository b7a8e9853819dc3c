//! Laying one image over another: a pixel of the upper image either
//! replaces the pixel under it or, where it is fully transparent, leaves it.

use crate::raster::{lemma_index_place, lemma_place_index, Image, Raster, Rgba};
use vstd::prelude::*;

verus! {

/// The colour at `(x, y)` once `sprite` lies over `canvas` with its top left
/// corner at `(left, top)`: where the sprite has a pixel that is not fully
/// transparent, that pixel with all four channels; anywhere else the pixel
/// of the canvas.
pub open spec fn overlaid_pixel(
    canvas: Image,
    sprite: Image,
    left: int,
    top: int,
    x: int,
    y: int,
) -> Rgba {
    if sprite.has(x - left, y - top) && sprite.at(x - left, y - top).a != 0 {
        sprite.at(x - left, y - top)
    } else {
        canvas.at(x, y)
    }
}

/// `canvas` with `sprite` laid over it down to, and not counting, column
/// `col` of the sprite's row `row`.
spec fn overlaid_upto(
    canvas: Image,
    sprite: Image,
    left: int,
    top: int,
    row: int,
    col: int,
) -> Image {
    Image {
        width: canvas.width,
        height: canvas.height,
        pixels: Seq::new(
            canvas.pixels.len(),
            |i: int|
                {
                    let x = i % (canvas.width as int);
                    let y = i / (canvas.width as int);
                    if y - top < row || (y - top == row && x - left < col) {
                        overlaid_pixel(canvas, sprite, left, top, x, y)
                    } else {
                        canvas.pixels[i]
                    }
                },
        ),
    }
}

/// `canvas` with `sprite` laid over it, the sprite's top left corner at
/// `(left, top)`.
pub open spec fn overlaid(canvas: Image, sprite: Image, left: int, top: int) -> Image {
    Image {
        width: canvas.width,
        height: canvas.height,
        pixels: Seq::new(
            canvas.pixels.len(),
            |i: int|
                overlaid_pixel(
                    canvas,
                    sprite,
                    left,
                    top,
                    i % (canvas.width as int),
                    i / (canvas.width as int),
                ),
        ),
    }
}

/// Lays `sprite` over `canvas` with its top left corner at `(left, top)`.
/// Transparency is all or nothing: a sprite pixel with any opacity replaces
/// what is under it, a fully transparent one leaves it alone.
pub fn overlay(canvas: &mut Raster, sprite: &Raster, left: u32, top: u32)
    requires
        left + sprite@.width <= old(canvas)@.width,
        top + sprite@.height <= old(canvas)@.height,
    ensures
        final(canvas)@ == overlaid(old(canvas)@, sprite@, left as int, top as int),
{
    let width = sprite.width();
    let height = sprite.height();
    let ghost before = canvas@;
    proof {
        canvas.lemma_view_wf();
        sprite.lemma_view_wf();
        let start = overlaid_upto(before, sprite@, left as int, top as int, 0, 0);
        assert forall|i: int| 0 <= i < before.pixels.len() implies before.pixels[i]
            == start.pixels[i] by {
            lemma_index_place(before.width as int, before.height as int, i);
        }
        assert(before.pixels =~= start.pixels);
    }
    let mut y: u32 = 0;
    while y < height
        invariant
            y <= height,
            width == sprite@.width,
            height == sprite@.height,
            before.wf(),
            before.width <= u32::MAX,
            before.height <= u32::MAX,
            left + width <= before.width,
            top + height <= before.height,
            canvas@ == overlaid_upto(before, sprite@, left as int, top as int, y as int, 0),
        decreases height - y,
    {
        let mut x: u32 = 0;
        while x < width
            invariant
                x <= width,
                y < height,
                width == sprite@.width,
                height == sprite@.height,
                before.wf(),
                before.width <= u32::MAX,
                before.height <= u32::MAX,
                left + width <= before.width,
                top + height <= before.height,
                canvas@ == overlaid_upto(before, sprite@, left as int, top as int, y as int, x as int),
            decreases width - x,
        {
            let pixel = sprite.get_pixel(x, y);
            if pixel.a != 0 {
                canvas.put_pixel(left + x, top + y, pixel);
            }
            proof {
                let wide = before.width as int;
                lemma_place_index(wide, before.height as int, left + x, top + y);
                let later = overlaid_upto(
                    before,
                    sprite@,
                    left as int,
                    top as int,
                    y as int,
                    x + 1,
                );
                assert forall|i: int| 0 <= i < before.pixels.len() implies canvas@.pixels[i]
                    == later.pixels[i] by {
                    lemma_index_place(wide, before.height as int, i);
                }
                assert(canvas@.pixels =~= later.pixels);
            }
            x += 1;
        }
        proof {
            let done = overlaid_upto(before, sprite@, left as int, top as int, y as int, x as int);
            let next = overlaid_upto(before, sprite@, left as int, top as int, y + 1, 0);
            assert forall|i: int| 0 <= i < before.pixels.len() implies done.pixels[i]
                == next.pixels[i] by {
                lemma_index_place(before.width as int, before.height as int, i);
            }
            assert(done.pixels =~= next.pixels);
        }
        y += 1;
    }
    proof {
        let whole = overlaid(before, sprite@, left as int, top as int);
        assert forall|i: int| 0 <= i < before.pixels.len() implies canvas@.pixels[i]
            == whole.pixels[i] by {
            lemma_index_place(before.width as int, before.height as int, i);
        }
        assert(canvas@.pixels =~= whole.pixels);
    }
}

/// The alpha rule. Where the sprite lies over a pixel of the canvas, a fully
/// transparent sprite pixel leaves the canvas as it was, and any other
/// replaces it with all four channels, opacity too; where the sprite does
/// not lie, the canvas stays.
pub proof fn lemma_alpha_rule(canvas: Image, sprite: Image, left: int, top: int, x: int, y: int)
    requires
        canvas.wf(),
        canvas.has(x, y),
    ensures
        overlaid(canvas, sprite, left, top).at(x, y) == if !sprite.has(x - left, y - top) {
            canvas.at(x, y)
        } else if sprite.at(x - left, y - top).a == 0 {
            canvas.at(x, y)
        } else {
            sprite.at(x - left, y - top)
        },
{
    lemma_place_index(canvas.width as int, canvas.height as int, x, y);
}

} // verus!
