//! Raster images with four eight-bit channels per pixel, and the resampling
//! that brings artwork to the size of a square.

use vstd::prelude::*;

verus! {

/// The colour of one pixel: red, green, blue and opacity. An opacity of zero
/// is fully transparent.
#[derive(Clone, Copy, PartialEq, Eq, Structural, Debug)]
pub struct Rgba {
    pub r: u8,
    pub g: u8,
    pub b: u8,
    pub a: u8,
}

/// What an image is: its size and its pixels, row after row from the top,
/// each row from left to right.
pub struct Image {
    pub width: nat,
    pub height: nat,
    pub pixels: Seq<Rgba>,
}

impl Image {
    /// Whether there is exactly one pixel for each place of the image.
    pub open spec fn wf(self) -> bool {
        self.pixels.len() == self.width * self.height
    }

    /// Whether `(x, y)` is a place of the image.
    pub open spec fn has(self, x: int, y: int) -> bool {
        0 <= x < self.width && 0 <= y < self.height
    }

    /// The pixel in column `x` of row `y`.
    pub open spec fn at(self, x: int, y: int) -> Rgba
        recommends
            self.has(x, y),
    {
        self.pixels[y * self.width + x]
    }

    /// The image with the pixel in column `x` of row `y` replaced by `pixel`.
    pub open spec fn with_pixel(self, x: int, y: int, pixel: Rgba) -> Image
        recommends
            self.has(x, y),
    {
        Image {
            width: self.width,
            height: self.height,
            pixels: self.pixels.update(y * self.width + x, pixel),
        }
    }
}

/// The image of the given size whose pixels are laid out in `bytes`, four
/// bytes to a pixel in the order red, green, blue, opacity.
pub open spec fn image_of_bytes(width: nat, height: nat, bytes: Seq<u8>) -> Image {
    Image {
        width,
        height,
        pixels: Seq::new(
            width * height,
            |i: int|
                Rgba { r: bytes[4 * i], g: bytes[4 * i + 1], b: bytes[4 * i + 2], a: bytes[4 * i + 3] },
        ),
    }
}

/// A place `(x, y)` of an image that is `width` wide and `height` high has
/// its own index below `width * height`.
pub proof fn lemma_place_index(width: int, height: int, x: int, y: int)
    requires
        0 <= x < width,
        0 <= y < height,
    ensures
        0 <= y * width,
        0 <= y * width + x < width * height,
        (y * width + x) / width == y,
        (y * width + x) % width == x,
{
    assert(0 <= y * width) by (nonlinear_arith)
        requires
            0 <= y,
            0 <= width,
    ;
    assert(y * width + width <= width * height) by (nonlinear_arith)
        requires
            0 <= y < height,
            0 <= width,
    ;
    vstd::arithmetic::div_mod::lemma_fundamental_div_mod_converse(y * width + x, width, y, x);
}

/// An index below `width * height` belongs to the place in column
/// `index % width` of row `index / width`.
pub proof fn lemma_index_place(width: int, height: int, index: int)
    requires
        0 <= index < width * height,
        0 <= width,
    ensures
        0 <= index % width < width,
        0 <= index / width < height,
        (index / width) * width + index % width == index,
{
    assert(width > 0) by (nonlinear_arith)
        requires
            0 <= index < width * height,
            0 <= width,
    ;
    vstd::arithmetic::div_mod::lemma_fundamental_div_mod(index, width);
    vstd::arithmetic::div_mod::lemma_mod_bound(index, width);
    let row = index / width;
    assert(width * row == row * width) by (nonlinear_arith);
    assert(0 <= row < height) by (nonlinear_arith)
        requires
            0 <= index < width * height,
            width > 0,
            index == row * width + index % width,
            0 <= index % width < width,
    ;
}

/// An image held in memory, four bytes to a pixel.
#[derive(PartialEq, Eq, Debug)]
pub struct Raster {
    width: u32,
    height: u32,
    bytes: Vec<u8>,
}

impl View for Raster {
    type V = Image;

    closed spec fn view(&self) -> Image {
        image_of_bytes(self.width as nat, self.height as nat, self.bytes@)
    }
}

impl Clone for Raster {
    /// A copy that shows the same image.
    fn clone(&self) -> (copy: Self)
        ensures
            copy@ == self@,
    {
        proof {
            use_type_invariant(self);
        }
        let bytes = self.bytes.clone();
        Raster { width: self.width, height: self.height, bytes }
    }
}

impl Raster {
    #[verifier::type_invariant]
    spec fn filled(self) -> bool {
        self.bytes@.len() == 4 * (self.width * self.height)
    }

    /// Every raster shows an image with one pixel for each of its places, no
    /// wider and no higher than a `u32` can say.
    pub proof fn lemma_view_wf(self)
        ensures
            self@.wf(),
            self@.width <= u32::MAX,
            self@.height <= u32::MAX,
    {
    }

    /// The raster of the given size over `bytes`, four bytes to a pixel in
    /// the order red, green, blue, opacity, row after row. There is none
    /// unless `bytes` holds exactly as many bytes as the size asks for.
    pub fn from_raw(width: u32, height: u32, bytes: Vec<u8>) -> (raster: Option<Raster>)
        ensures
            raster is Some <==> bytes@.len() == 4 * (width * height),
            raster matches Some(r) ==> r@ == image_of_bytes(width as nat, height as nat, bytes@),
    {
        assert(width * height <= 0xffff_ffff * 0xffff_ffff) by (nonlinear_arith)
            requires
                0 <= width <= 0xffff_ffff,
                0 <= height <= 0xffff_ffff,
        ;
        let needed: u128 = 4 * ((width as u128) * (height as u128));
        if bytes.len() as u128 == needed {
            Some(Raster { width, height, bytes })
        } else {
            None
        }
    }

    /// The bytes of the raster, four to a pixel, row after row.
    pub fn into_raw(self) -> (bytes: Vec<u8>)
        ensures
            bytes@.len() == 4 * (self@.width * self@.height),
            image_of_bytes(self@.width, self@.height, bytes@) == self@,
    {
        proof {
            use_type_invariant(&self);
        }
        self.bytes
    }

    /// The number of pixels in a row.
    pub fn width(&self) -> (width: u32)
        ensures
            width == self@.width,
    {
        self.width
    }

    /// The number of rows.
    pub fn height(&self) -> (height: u32)
        ensures
            height == self@.height,
    {
        self.height
    }

    /// The pixel in column `x` of row `y`.
    pub fn get_pixel(&self, x: u32, y: u32) -> (pixel: Rgba)
        requires
            self@.has(x as int, y as int),
        ensures
            pixel == self@.at(x as int, y as int),
    {
        proof {
            use_type_invariant(self);
            lemma_place_index(self.width as int, self.height as int, x as int, y as int);
            assert(self.bytes.len() == self.bytes@.len());
        }
        let index: usize = 4 * (y as usize * self.width as usize + x as usize);
        Rgba {
            r: self.bytes[index],
            g: self.bytes[index + 1],
            b: self.bytes[index + 2],
            a: self.bytes[index + 3],
        }
    }

    /// This image brought to `width` by `height` pixels by nearest-neighbour
    /// resampling, which takes each pixel of the result whole from one pixel
    /// of this image and blends nothing.
    pub fn resized(&self, width: u32, height: u32) -> (out: Raster)
        requires
            can_resize(self@, width as nat, height as nat),
        ensures
            out@ == resized(self@, width as nat, height as nat),
            out@.width == width,
            out@.height == height,
    {
        let bytes = resample(self, width, height);
        Raster { width, height, bytes }
    }

    /// Replaces the pixel in column `x` of row `y` by `pixel` and leaves every
    /// other pixel as it was.
    pub fn put_pixel(&mut self, x: u32, y: u32, pixel: Rgba)
        requires
            old(self)@.has(x as int, y as int),
        ensures
            final(self)@ == old(self)@.with_pixel(x as int, y as int, pixel),
    {
        proof {
            use_type_invariant(&*self);
            lemma_place_index(self.width as int, self.height as int, x as int, y as int);
            assert(self.bytes.len() == self.bytes@.len());
        }
        let index: usize = 4 * (y as usize * self.width as usize + x as usize);
        self.bytes[index] = pixel.r;
        self.bytes[index + 1] = pixel.g;
        self.bytes[index + 2] = pixel.b;
        self.bytes[index + 3] = pixel.a;
        assert(self@.pixels =~= old(self)@.with_pixel(x as int, y as int, pixel).pixels);
    }
}

/// What resampling `source` to `width` by `height` pixels with the
/// nearest-neighbour filter of the `image` crate yields.
pub uninterp spec fn resized(source: Image, width: nat, height: nat) -> Image;

/// Whether `source` can be resampled to `width` by `height` pixels within the
/// limits of memory: the filter works through an intermediate image as wide
/// as `source` and `height` high with four 32-bit channels, and neither that
/// nor the result may be larger than an allocation can be.
pub open spec fn can_resize(source: Image, width: nat, height: nat) -> bool {
    &&& 16 * (source.width * height) <= isize::MAX
    &&& 4 * (width * height) <= isize::MAX
}

/// Whether `picture` can be resized to `width` by `height` pixels.
pub fn resizable(picture: &Raster, width: u32, height: u32) -> (ok: bool)
    ensures
        ok == can_resize(picture@, width as nat, height as nat),
{
    let limit = isize::MAX as u128;
    proof {
        picture.lemma_view_wf();
    }
    assert(picture@.width * height <= 0xffff_ffff * 0xffff_ffff && width * height <= 0xffff_ffff
        * 0xffff_ffff) by (nonlinear_arith)
        requires
            0 <= picture@.width <= 0xffff_ffff,
            0 <= width <= 0xffff_ffff,
            0 <= height <= 0xffff_ffff,
    ;
    16 * ((picture.width() as u128) * (height as u128)) <= limit && 4 * ((width as u128) * (
    height as u128)) <= limit
}

/// Resamples `source` to `width` by `height` pixels with
/// `image::imageops::resize` and `FilterType::Nearest`, and hands back the
/// bytes of the result.
///
/// Taken on trust from that function: the result holds four bytes for each
/// pixel of the size asked for, and it depends on nothing but the pixels of
/// `source` and the two sizes. Which pixel of `source` each pixel of the
/// result is taken from is not stated here.
#[verifier::external_body]
fn resample(source: &Raster, width: u32, height: u32) -> (bytes: Vec<u8>)
    requires
        can_resize(source@, width as nat, height as nat),
    ensures
        bytes@.len() == 4 * (width * height),
        image_of_bytes(width as nat, height as nat, bytes@) == resized(
            source@,
            width as nat,
            height as nat,
        ),
{
    let buffer = image::ImageBuffer::<image::Rgba<u8>, &[u8]>::from_raw(
        source.width,
        source.height,
        source.bytes.as_slice(),
    ).unwrap();
    image::imageops::resize(&buffer, width, height, image::imageops::FilterType::Nearest).into_raw()
}

} // verus!
