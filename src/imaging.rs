//! Thumbnails and the composed grid image.
//!
//! Thumbnails are square, `image_size` pixels a side, encoded as WebP. The grid
//! image lays `grid_length` thumbnails a row on a transparent canvas, with a
//! gap of `gap_size` pixels around and between them.
use std::io::Cursor;
use image::{DynamicImage, ImageError, ImageFormat};
use vstd::prelude::*;

use crate::error::Error;

verus! {

#[verifier::external_type_specification]
#[verifier::external_body]
pub struct ExDynamicImage(image::DynamicImage);

#[verifier::external_type_specification]
#[verifier::external_body]
pub struct ExImageError(image::ImageError);

/// The largest side, in pixels, of an image the WebP encoder writes.
pub const WEBP_MAX_SIDE: u32 = 16384;

/// The most bytes the decoder sets aside for a decoded image by default
/// (512 MiB); a larger image is refused.
pub const DECODE_MAX_BYTES: u64 = 536870912;

/// A decoded image of `width` by `height` pixels, at up to four bytes a
/// pixel, fits the decoder's default allocation limit.
pub open spec fn decodable_size(width: u32, height: u32) -> bool {
    (width as int) * (height as int) * 4 <= DECODE_MAX_BYTES
}

/// A decoded image with 8-bit RGBA pixels, and its size and pixels as
/// values. Only the functions of this module make one, each from the image it
/// holds.
#[derive(Debug)]
pub struct Picture {
    image: DynamicImage,
    width: u32,
    height: u32,
    /// Four bytes (red, green, blue, alpha) a pixel, row by row.
    pixels: Vec<u8>,
}

/// What a picture is, as values.
pub struct PictureView {
    pub width: u32,
    pub height: u32,
    /// Four bytes (red, green, blue, alpha) a pixel, row by row.
    pub pixels: Seq<u8>,
}

impl View for Picture {
    type V = PictureView;

    closed spec fn view(&self) -> PictureView {
        PictureView { width: self.width, height: self.height, pixels: self.pixels@ }
    }
}

impl Picture {
    /// The width of the image, in pixels.
    pub open spec fn width_spec(&self) -> u32 {
        self@.width
    }

    /// The height of the image, in pixels.
    pub open spec fn height_spec(&self) -> u32 {
        self@.height
    }

    /// The width of the image, in pixels.
    pub fn width(&self) -> (r: u32)
        ensures
            r == self.width_spec(),
    {
        self.width
    }

    /// The height of the image, in pixels.
    pub fn height(&self) -> (r: u32)
        ensures
            r == self.height_spec(),
    {
        self.height
    }

    /// The image's pixels: four bytes (red, green, blue, alpha) a pixel, row
    /// by row.
    pub fn pixels(&self) -> (r: &Vec<u8>)
        ensures
            r@ == self@.pixels,
    {
        &self.pixels
    }

    /// The decoded image.
    pub fn image(&self) -> &DynamicImage {
        &self.image
    }
}

/// An image is `size` pixels a side.
pub open spec fn is_square_of(p: Picture, size: u32) -> bool {
    p.width_spec() == size && p.height_spec() == size
}

/// The width, height and RGBA pixels of the image that `bytes` decode to as
/// WebP, or `None` where they do not decode.
pub uninterp spec fn webp_decoded(bytes: Seq<u8>) -> Option<(u32, u32, Seq<u8>)>;

/// The width, height and RGBA pixels of the image that `bytes` decode to, in
/// a format guessed from their content, or `None` where they do not decode.
pub uninterp spec fn image_decoded(bytes: Seq<u8>) -> Option<(u32, u32, Seq<u8>)>;

/// The RGBA pixels of an RGBA image of `width` by `height` pixels scaled to
/// `size` pixels a side with a triangle filter.
pub uninterp spec fn resized_rgba(width: u32, height: u32, pixels: Seq<u8>, size: u32) -> Seq<u8>;

/// The lossless WebP encoding of an RGBA image of `width` by `height` pixels.
pub uninterp spec fn webp_encoding(width: u32, height: u32, pixels: Seq<u8>) -> Seq<u8>;

/// Whether `bytes` decode as a WebP image.
pub open spec fn decodes_as_webp(bytes: Seq<u8>) -> bool {
    webp_decoded(bytes) is Some
}

/// Whether `bytes` decode as an image of a format the crate recognises.
pub open spec fn decodes_as_image(bytes: Seq<u8>) -> bool {
    image_decoded(bytes) is Some
}

/// `bytes` are a WebP image of `width` by `height` pixels.
pub open spec fn is_webp_of(bytes: Seq<u8>, width: u32, height: u32) -> bool {
    &&& decodes_as_webp(bytes)
    &&& webp_decoded(bytes)->Some_0.0 == width
    &&& webp_decoded(bytes)->Some_0.1 == height
}

/// `p` is the image `bytes` decode to as WebP.
pub open spec fn is_webp_image(p: Picture, bytes: Seq<u8>) -> bool {
    webp_decoded(bytes) == Some((p.width_spec(), p.height_spec(), p@.pixels))
}

/// `w` by `h` transparent black pixels.
pub open spec fn transparent(w: int, h: int) -> Seq<u8> {
    Seq::new((w * h * 4) as nat, |i: int| 0u8)
}

/// The pixels of a canvas `cw` pixels wide after the pixels of a tile
/// `tw` by `th` pixels are copied onto it with their top left corner at
/// (`x`, `y`): inside that rectangle, the tile's pixel; elsewhere, the
/// canvas's.
pub open spec fn blit(canvas: Seq<u8>, cw: int, tile: Seq<u8>, tw: int, th: int, x: int, y: int) -> Seq<u8> {
    Seq::new(
        canvas.len(),
        |k: int|
            {
                let px = k / 4;
                let (cx, cy) = (px % cw, px / cw);
                if x <= cx < x + tw && y <= cy < y + th {
                    tile[((cy - y) * tw + (cx - x)) * 4 + k % 4]
                } else {
                    canvas[k]
                }
            },
    )
}

/// Relies on `image::DynamicImage::new_rgba8`: a canvas of `side` by `side`
/// transparent black pixels.
#[verifier::external_body]
fn new_canvas(side: u32) -> (r: Picture)
    ensures
        is_square_of(r, side),
        r@.pixels == transparent(side as int, side as int),
{
    let image = DynamicImage::new_rgba8(side, side);
    let pixels = image.as_bytes().to_vec();
    Picture { width: image.width(), height: image.height(), pixels, image }
}

/// Relies on `image::load_from_memory_with_format` with WebP, its result
/// converted to RGBA by `to_rgba8`: what it decodes to depends on the bytes
/// alone.
#[verifier::external_body]
fn decode_webp(bytes: &[u8]) -> (r: Result<Picture, ImageError>)
    ensures
        r is Ok == webp_decoded(bytes@) is Some,
        r is Ok ==> webp_decoded(bytes@) == Some(
            (r->Ok_0.width_spec(), r->Ok_0.height_spec(), r->Ok_0@.pixels),
        ),
{
    match image::load_from_memory_with_format(bytes, ImageFormat::WebP) {
        Ok(decoded) => {
            let rgba = decoded.to_rgba8();
            let pixels = rgba.as_raw().clone();
            let image = DynamicImage::ImageRgba8(rgba);
            Ok(Picture { width: image.width(), height: image.height(), pixels, image })
        },
        Err(e) => Err(e),
    }
}

/// Relies on `image::load_from_memory`, which guesses the format from the
/// content, its result converted to RGBA by `to_rgba8`: what it decodes to
/// depends on the bytes alone.
#[verifier::external_body]
fn decode_image(bytes: &[u8]) -> (r: Result<Picture, ImageError>)
    ensures
        r is Ok == image_decoded(bytes@) is Some,
        r is Ok ==> image_decoded(bytes@) == Some(
            (r->Ok_0.width_spec(), r->Ok_0.height_spec(), r->Ok_0@.pixels),
        ),
{
    match image::load_from_memory(bytes) {
        Ok(decoded) => {
            let rgba = decoded.to_rgba8();
            let pixels = rgba.as_raw().clone();
            let image = DynamicImage::ImageRgba8(rgba);
            Ok(Picture { width: image.width(), height: image.height(), pixels, image })
        },
        Err(e) => Err(e),
    }
}

/// Relies on `image::DynamicImage::resize_exact` with the triangle filter: an
/// image of `size` pixels a side, the aspect ratio not kept.
#[verifier::external_body]
fn resize_square(p: &Picture, size: u32) -> (r: Picture)
    requires
        size >= 1,
    ensures
        is_square_of(r, size),
        r@.pixels == resized_rgba(p.width_spec(), p.height_spec(), p@.pixels, size),
{
    let image = p.image.resize_exact(size, size, image::imageops::FilterType::Triangle);
    let pixels = image.as_bytes().to_vec();
    Picture { width: image.width(), height: image.height(), pixels, image }
}

/// Relies on `image::DynamicImage::write_to` with WebP: the RGBA image
/// losslessly encoded. The encoder refuses only a side of 0 or over 16384
/// pixels; what it writes starts with a header that gives the size back, so
/// that the decoder reads it back at that size, unless the decoded image would
/// exceed the decoder's default allocation limit.
#[verifier::external_body]
fn encode_webp(p: &Picture) -> (r: Result<Vec<u8>, ImageError>)
    ensures
        1 <= p.width_spec() <= WEBP_MAX_SIDE && 1 <= p.height_spec() <= WEBP_MAX_SIDE ==> r is Ok,
        r is Ok ==> r->Ok_0@.len() > 0,
        r is Ok ==> r->Ok_0@ == webp_encoding(p.width_spec(), p.height_spec(), p@.pixels),
        r is Ok && decodable_size(p.width_spec(), p.height_spec()) ==> webp_decoded(r->Ok_0@) is Some
            && webp_decoded(r->Ok_0@)->Some_0.0 == p.width_spec() && webp_decoded(r->Ok_0@)->Some_0.1
            == p.height_spec(),
{
    let mut bytes: Vec<u8> = Vec::new();
    match p.image.write_to(Cursor::new(&mut bytes), ImageFormat::WebP) {
        Ok(()) => Ok(bytes),
        Err(e) => Err(e),
    }
}

/// Relies on `image::GenericImage::copy_from`: copies the pixels of `tile`
/// onto `canvas` with its top left corner at (`x`, `y`); it fails, copying
/// nothing, exactly where the tile does not fit.
#[verifier::external_body]
fn copy_tile(canvas: &mut Picture, tile: &Picture, x: u32, y: u32) -> (r: Result<(), ImageError>)
    ensures
        final(canvas).width_spec() == old(canvas).width_spec(),
        final(canvas).height_spec() == old(canvas).height_spec(),
        r is Ok <==> (x + tile.width_spec() <= old(canvas).width_spec() && y + tile.height_spec()
            <= old(canvas).height_spec()),
        r is Ok ==> final(canvas)@.pixels == blit(
            old(canvas)@.pixels,
            old(canvas).width_spec() as int,
            tile@.pixels,
            tile.width_spec() as int,
            tile.height_spec() as int,
            x as int,
            y as int,
        ),
        r is Err ==> final(canvas)@.pixels == old(canvas)@.pixels,
{
    let r = image::GenericImage::copy_from(&mut canvas.image, &tile.image, x, y);
    canvas.pixels = canvas.image.as_bytes().to_vec();
    r
}

/// The side of the grid image, in pixels: `grid_length` cells of
/// `image_size + gap_size` and a final gap.
pub open spec fn canvas_side_spec(image_size: int, gap_size: int, grid_length: int) -> int {
    grid_length * (image_size + gap_size) + gap_size
}

/// Where cell `i` (row by row) starts on the grid image.
pub open spec fn cell_origin_spec(i: int, image_size: int, gap_size: int, grid_length: int) -> (
    int,
    int,
) {
    (
        gap_size + (image_size + gap_size) * (i % grid_length),
        gap_size + (image_size + gap_size) * (i / grid_length),
    )
}

/// The side of the grid image, or `None` where it exceeds `u32`.
pub fn canvas_side(image_size: u32, gap_size: u32, grid_length: u32) -> (r: Option<u32>)
    ensures
        r is Some <==> canvas_side_spec(image_size as int, gap_size as int, grid_length as int)
            <= u32::MAX,
        r is Some ==> r->Some_0 == canvas_side_spec(
            image_size as int,
            gap_size as int,
            grid_length as int,
        ),
{
    let cell: u128 = image_size as u128 + gap_size as u128;
    assert((grid_length as u128) * cell <= 0xffff_ffffu128 * 0x1_ffff_fffeu128) by (nonlinear_arith)
        requires
            grid_length <= u32::MAX,
            cell <= 0x1_ffff_fffeu128,
    ;
    let side: u128 = (grid_length as u128) * cell + gap_size as u128;
    if side <= u32::MAX as u128 {
        Some(side as u32)
    } else {
        None
    }
}

/// Where cell `i` (row by row) starts on the grid image.
pub fn cell_origin(i: u64, image_size: u32, gap_size: u32, grid_length: u32) -> (r: (u32, u32))
    requires
        grid_length >= 1,
        i < grid_length * grid_length,
        canvas_side_spec(image_size as int, gap_size as int, grid_length as int) <= u32::MAX,
    ensures
        r.0 == cell_origin_spec(i as int, image_size as int, gap_size as int, grid_length as int).0,
        r.1 == cell_origin_spec(i as int, image_size as int, gap_size as int, grid_length as int).1,
{
    let cell: u64 = image_size as u64 + gap_size as u64;
    let col: u64 = i % (grid_length as u64);
    let row: u64 = i / (grid_length as u64);
    proof {
        let l = grid_length as int;
        let c = cell as int;
        assert(i as int / l < l) by (nonlinear_arith)
            requires
                l >= 1,
                0 <= i < l * l,
        ;
        assert(c * (col as int) <= c * (l - 1)) by (nonlinear_arith)
            requires
                0 <= col < l,
                c >= 0,
        ;
        assert(c * (row as int) <= c * (l - 1)) by (nonlinear_arith)
            requires
                0 <= row < l,
                c >= 0,
        ;
        assert(c * (l - 1) + gap_size <= l * c + gap_size) by (nonlinear_arith)
            requires
                c >= 0,
        ;
    }
    let x: u64 = gap_size as u64 + cell * col;
    let y: u64 = gap_size as u64 + cell * row;
    (x as u32, y as u32)
}

/// The views of a sequence of pictures.
pub open spec fn views_of(ps: Seq<Picture>) -> Seq<PictureView> {
    ps.map_values(|p: Picture| p@)
}

/// The pixels of the grid image with the first `n` tiles placed: a
/// transparent canvas, with tile `i` copied at the origin of cell `i`, row by
/// row, in order.
pub open spec fn composed(
    tiles: Seq<PictureView>,
    n: int,
    image_size: int,
    gap_size: int,
    grid_length: int,
) -> Seq<u8>
    decreases n,
{
    let side = canvas_side_spec(image_size, gap_size, grid_length);
    if n <= 0 {
        transparent(side, side)
    } else {
        let t = tiles[n - 1];
        let o = cell_origin_spec(n - 1, image_size, gap_size, grid_length);
        blit(
            composed(tiles, n - 1, image_size, gap_size, grid_length),
            side,
            t.pixels,
            t.width as int,
            t.height as int,
            o.0,
            o.1,
        )
    }
}

/// Composes the grid image: thumbnail `i` goes to cell `i`, row by row, on a
/// transparent canvas; the result is encoded as WebP.
///
/// Succeeds where every thumbnail is `image_size` pixels a side and the canvas
/// is between 1 and 16384 pixels a side. The result then holds an encoding
/// that reads back as a WebP image of the canvas's size wherever the decoder's
/// allocation limit allows. Fails with `GenerateImage`, before drawing
/// anything, where the canvas side is 0 or over 16384 pixels; and where a
/// thumbnail does not fit its cell's place, or encoding fails.
pub fn compose(thumbnails: &Vec<Picture>, image_size: u32, gap_size: u32, grid_length: u32) -> (r:
    Result<Vec<u8>, Error>)
    requires
        thumbnails.len() == grid_length * grid_length,
    ensures
        r is Err ==> (r matches Err(Error::GenerateImage)),
        ({
            let side = canvas_side_spec(image_size as int, gap_size as int, grid_length as int);
            &&& !(1 <= side <= WEBP_MAX_SIDE) ==> r is Err
            &&& (1 <= side <= WEBP_MAX_SIDE && forall|i: int|
                0 <= i < thumbnails.len() ==> is_square_of(#[trigger] thumbnails@[i], image_size))
                ==> r is Ok
            &&& r is Ok ==> r->Ok_0@.len() > 0
            &&& r is Ok ==> r->Ok_0@ == webp_encoding(
                side as u32,
                side as u32,
                composed(views_of(thumbnails@), thumbnails.len() as int, image_size as int, gap_size as int, grid_length as int),
            )
            &&& r is Ok && decodable_size(side as u32, side as u32) ==> is_webp_of(
                r->Ok_0@,
                side as u32,
                side as u32,
            )
        }),
{
    let ghost side_spec = canvas_side_spec(image_size as int, gap_size as int, grid_length as int);
    let side = match canvas_side(image_size, gap_size, grid_length) {
        Some(side) => side,
        None => {
            return Err(Error::GenerateImage);
        },
    };
    if side < 1 || side > WEBP_MAX_SIDE {
        return Err(Error::GenerateImage);
    }
    let mut canvas = new_canvas(side);
    let mut i: usize = 0;
    while i < thumbnails.len()
        invariant
            i <= thumbnails.len(),
            thumbnails.len() == grid_length * grid_length,
            side_spec == canvas_side_spec(image_size as int, gap_size as int, grid_length as int),
            side_spec <= u32::MAX,
            side == side_spec,
            is_square_of(canvas, side),
            canvas@.pixels == composed(views_of(thumbnails@), i as int, image_size as int, gap_size as int, grid_length as int),
        decreases thumbnails.len() - i,
    {
        assert(grid_length >= 1) by (nonlinear_arith)
            requires
                i < grid_length * grid_length,
        ;
        let (x, y) = cell_origin(i as u64, image_size, gap_size, grid_length);
        proof {
            lemma_cell_fits(i as int, image_size as int, gap_size as int, grid_length as int);
        }
        if copy_tile(&mut canvas, &thumbnails[i], x, y).is_err() {
            return Err(Error::GenerateImage);
        }
        assert(views_of(thumbnails@)[i as int] == thumbnails@[i as int]@);
        i = i + 1;
    }
    match encode_webp(&canvas) {
        Ok(bytes) => Ok(bytes),
        Err(_) => Err(Error::GenerateImage),
    }
}

/// A cell of `image_size` pixels a side fits the canvas at its origin.
proof fn lemma_cell_fits(i: int, image_size: int, gap_size: int, grid_length: int)
    requires
        grid_length >= 1,
        0 <= i < grid_length * grid_length,
        image_size >= 0,
        gap_size >= 0,
    ensures
        cell_origin_spec(i, image_size, gap_size, grid_length).0 + image_size <= canvas_side_spec(
            image_size,
            gap_size,
            grid_length,
        ),
        cell_origin_spec(i, image_size, gap_size, grid_length).1 + image_size <= canvas_side_spec(
            image_size,
            gap_size,
            grid_length,
        ),
{
    let c = image_size + gap_size;
    let l = grid_length;
    let col = i % l;
    let row = i / l;
    assert(0 <= col < l) by (nonlinear_arith)
        requires
            l >= 1,
            col == i % l,
    ;
    assert(0 <= row < l) by (nonlinear_arith)
        requires
            l >= 1,
            0 <= i < l * l,
            row == i / l,
    ;
    assert(c * col <= c * (l - 1)) by (nonlinear_arith)
        requires
            0 <= col < l,
            c >= 0,
    ;
    assert(c * row <= c * (l - 1)) by (nonlinear_arith)
        requires
            0 <= row < l,
            c >= 0,
    ;
    assert(c * (l - 1) + c == l * c) by (nonlinear_arith);
}

/// A thumbnail, decoded and encoded.
pub struct Thumbnail {
    pub image: Picture,
    /// The WebP bytes to store in the thumbnail file.
    pub encoded: Vec<u8>,
}

/// `cached` holds a reusable thumbnail: a WebP image of `size` pixels a side.
pub open spec fn is_reusable(cached: Seq<u8>, size: u32) -> bool {
    cached.len() > 0 && is_webp_of(cached, size, size)
}

/// The thumbnail stored in `cached`, where it is a WebP image of `size` pixels
/// a side. An empty file, bytes that do not decode and an image of another
/// size are no thumbnail.
pub fn reuse_thumbnail(cached: &[u8], size: u32) -> (r: Option<Picture>)
    ensures
        r is Some <==> is_reusable(cached@, size),
        r is Some ==> is_square_of(r->Some_0, size) && is_webp_image(r->Some_0, cached@),
{
    if cached.len() == 0 {
        return None;
    }
    match decode_webp(cached) {
        Ok(img) => {
            if img.width() == size && img.height() == size {
                Some(img)
            } else {
                None
            }
        },
        Err(_) => None,
    }
}

/// Makes the thumbnail of the source image `source`, read from `path`: the
/// image scaled to `size` pixels a side with a triangle filter, and its WebP
/// encoding.
///
/// Fails with `OpenImage` exactly where the source does not decode. Succeeds
/// on a source that decodes where `size` is between 1 and 16384, and fails
/// with `GenerateImage` on any other size.
pub fn make_thumbnail(path: &Vec<u8>, source: &[u8], size: u32) -> (r: Result<Thumbnail, Error>)
    ensures
        match r {
            Ok(t) => {
                &&& decodes_as_image(source@)
                &&& 1 <= size <= WEBP_MAX_SIDE
                &&& is_square_of(t.image, size)
                &&& t.encoded@.len() > 0
                &&& t.image@.pixels == resized_rgba(
                    image_decoded(source@)->Some_0.0,
                    image_decoded(source@)->Some_0.1,
                    image_decoded(source@)->Some_0.2,
                    size,
                )
                &&& t.encoded@ == webp_encoding(size, size, t.image@.pixels)
                &&& decodable_size(size, size) ==> is_reusable(t.encoded@, size)
            },
            Err(Error::OpenImage { path: p }) => !decodes_as_image(source@) && p@ == path@,
            Err(Error::GenerateImage) => decodes_as_image(source@) && !(1 <= size
                <= WEBP_MAX_SIDE),
            Err(_) => false,
        },
{
    let decoded = match decode_image(source) {
        Ok(img) => img,
        Err(_) => {
            return Err(Error::OpenImage { path: crate::collection::copy_bytes(path) });
        },
    };
    if size < 1 || size > WEBP_MAX_SIDE {
        return Err(Error::GenerateImage);
    }
    let image = resize_square(&decoded, size);
    match encode_webp(&image) {
        Ok(encoded) => Ok(Thumbnail { image, encoded }),
        Err(_) => Err(Error::GenerateImage),
    }
}

} // verus!
