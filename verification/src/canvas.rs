//! The pixel buffer that carries a payload: an 8-bit RGBA
//! `image::ImageBuffer`, seen by the verifier as a row-major sequence of
//! RGBA tuples together with its width and height.

use vstd::prelude::*;

verus! {

/// One pixel as plain values: red, green, blue, alpha.
pub type Rgba8 = (u8, u8, u8, u8);

/// An 8-bit RGBA image held in a byte vector. The buffer itself is opaque
/// to the verifier; contracts speak of it through [`image_pixels`],
/// [`image_width`] and [`image_height`].
#[verifier::external_body]
pub struct Canvas {
    inner: image::ImageBuffer<image::Rgba<u8>, Vec<u8>>,
}

/// The pixels of an image in row-major order: the pixel at column `x`
/// of row `y` stands at index `y * width + x`.
pub uninterp spec fn image_pixels(img: Canvas) -> Seq<(u8, u8, u8, u8)>;

/// The number of columns of an image.
pub uninterp spec fn image_width(img: Canvas) -> nat;

/// The number of rows of an image.
pub uninterp spec fn image_height(img: Canvas) -> nat;

/// The first `count` pixels laid out in `bytes`, four bytes to a pixel.
pub open spec fn pixels_of_bytes(bytes: Seq<u8>, count: nat) -> Seq<Rgba8> {
    Seq::new(count, |i: int| (bytes[4 * i], bytes[4 * i + 1], bytes[4 * i + 2], bytes[4 * i + 3]))
}

/// Calls `ImageBuffer::from_raw`, which accepts the bytes exactly when
/// they hold at least `4 * width * height` of them and then reads them as
/// packed row-major RGBA pixels.
#[verifier::external_body]
pub(crate) fn canvas_from_raw(width: u32, height: u32, bytes: Vec<u8>) -> (made: Option<Canvas>)
    ensures
        made is Some <==> 4 * width * height <= bytes@.len(),
        made matches Some(c) ==> image_width(c) == width && image_height(c) == height
            && image_pixels(c) == pixels_of_bytes(bytes@, (width * height) as nat),
{
    match image::ImageBuffer::from_raw(width, height, bytes) {
        Some(inner) => Some(Canvas { inner }),
        None => None,
    }
}

/// Calls `ImageBuffer::into_raw`, which hands back the byte container;
/// its first `4 * width * height` bytes are the pixels, packed row-major.
#[verifier::external_body]
pub(crate) fn canvas_into_raw(img: Canvas) -> (bytes: Vec<u8>)
    ensures
        bytes@.len() >= 4 * image_width(img) * image_height(img),
        pixels_of_bytes(bytes@, image_width(img) * image_height(img)) == image_pixels(img),
{
    img.inner.into_raw()
}

/// Calls `ImageBuffer::dimensions`, which returns the stored width and
/// height. The contract also records that the image holds exactly
/// `width * height` pixels, which the buffer's constructors guarantee.
#[verifier::external_body]
pub(crate) fn dimensions(img: &Canvas) -> (dims: (u32, u32))
    ensures
        dims.0 == image_width(*img),
        dims.1 == image_height(*img),
        image_pixels(*img).len() == dims.0 * dims.1,
{
    img.inner.dimensions()
}

/// Calls `ImageBuffer::get_pixel`, which panics outside the bounds and
/// otherwise returns the four channels stored at `(x, y)`.
#[verifier::external_body]
pub(crate) fn get_rgba(img: &Canvas, x: u32, y: u32) -> (px: Rgba8)
    requires
        x < image_width(*img),
        y < image_height(*img),
    ensures
        px == image_pixels(*img)[y * image_width(*img) + x],
{
    let p = img.inner.get_pixel(x, y);
    (p.0[0], p.0[1], p.0[2], p.0[3])
}

/// Calls `ImageBuffer::put_pixel`, which panics outside the bounds and
/// otherwise overwrites the four channels stored at `(x, y)`, leaving
/// every other pixel and the dimensions as they were.
#[verifier::external_body]
pub(crate) fn put_rgba(img: &mut Canvas, x: u32, y: u32, px: Rgba8)
    requires
        x < image_width(*old(img)),
        y < image_height(*old(img)),
    ensures
        image_width(*final(img)) == image_width(*old(img)),
        image_height(*final(img)) == image_height(*old(img)),
        image_pixels(*final(img)) == image_pixels(*old(img)).update(
            y * image_width(*old(img)) + x,
            px,
        ),
{
    img.inner.put_pixel(x, y, image::Rgba([px.0, px.1, px.2, px.3]));
}

impl Canvas {
    /// Builds an image from packed row-major RGBA bytes; `None` when the
    /// bytes are too few for the given dimensions.
    pub fn from_raw(width: u32, height: u32, bytes: Vec<u8>) -> (made: Option<Canvas>)
        ensures
            made is Some <==> 4 * width * height <= bytes@.len(),
            made matches Some(c) ==> image_width(c) == width && image_height(c) == height
                && image_pixels(c) == pixels_of_bytes(bytes@, (width * height) as nat),
    {
        canvas_from_raw(width, height, bytes)
    }

    /// Gives the image up as packed row-major RGBA bytes.
    pub fn into_raw(self) -> (bytes: Vec<u8>)
        ensures
            bytes@.len() >= 4 * image_width(self) * image_height(self),
            pixels_of_bytes(bytes@, image_width(self) * image_height(self)) == image_pixels(self),
    {
        canvas_into_raw(self)
    }

    /// The number of columns.
    pub fn width(&self) -> (w: u32)
        ensures
            w == image_width(*self),
    {
        dimensions(self).0
    }

    /// The number of rows.
    pub fn height(&self) -> (h: u32)
        ensures
            h == image_height(*self),
    {
        dimensions(self).1
    }

    /// The pixel at column `x` of row `y`, or `None` outside the image.
    pub fn pixel(&self, x: u32, y: u32) -> (px: Option<Rgba8>)
        ensures
            px is Some <==> x < image_width(*self) && y < image_height(*self),
            px matches Some(p) ==> p == image_pixels(*self)[y * image_width(*self) + x],
    {
        let (w, h) = dimensions(self);
        if x < w && y < h {
            Some(get_rgba(self, x, y))
        } else {
            None
        }
    }
}

} // verus!
