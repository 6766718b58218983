//! Embedding a payload into an image and extracting it again.

use vstd::prelude::*;
use crate::canvas::{dimensions, get_rgba, image_height, image_pixels, image_width, put_rgba, Canvas, Rgba8};
use crate::nibbles::{
    assemble_payload, before_terminator, bytes_of, evened, low, low_nibble, make_even, nibbles_of,
    pad_to_triples, padded, split_nibbles, terminated, with_terminator,
};
use crate::text::{lossy_text, utf8_lossy};

verus! {

/// The payload is too large for the image. Nothing was written.
#[derive(Debug, Clone, Copy, PartialEq, Eq, Structural)]
pub struct CapacityError {
    /// The number of pixels that the payload needs.
    pub required: u64,
    /// The number of pixels that the image has.
    pub available: u64,
}

/// The nibbles that are written for a payload: those of the payload and
/// its terminator, padded to whole pixels.
pub open spec fn payload_nibbles(payload: Seq<u8>) -> Seq<u8> {
    padded(nibbles_of(terminated(payload)))
}

/// The number of pixels that a payload occupies, three nibbles to a pixel.
pub open spec fn required_pixels(payload: Seq<u8>) -> nat {
    (payload_nibbles(payload).len() / 3) as nat
}

/// The pixel with the low halves of red, green and blue replaced and the
/// high halves and alpha kept.
pub open spec fn stamped(px: Rgba8, n0: u8, n1: u8, n2: u8) -> Rgba8 {
    ((px.0 & 0xF0) | n0, (px.1 & 0xF0) | n1, (px.2 & 0xF0) | n2, px.3)
}

/// The pixels after the nibbles were written: pixel `i` carries nibbles
/// `3i`, `3i + 1` and `3i + 2`; pixels past the last full triple are
/// untouched.
pub open spec fn embedded(pixels: Seq<Rgba8>, nibbles: Seq<u8>) -> Seq<Rgba8> {
    Seq::new(
        pixels.len(),
        |i: int|
            if 3 * i + 2 < nibbles.len() {
                stamped(pixels[i], nibbles[3 * i], nibbles[3 * i + 1], nibbles[3 * i + 2])
            } else {
                pixels[i]
            },
    )
}

/// Channel 0, 1 or 2 of a pixel: red, green, blue.
pub open spec fn channel(px: Rgba8, c: int) -> u8 {
    if c == 0 {
        px.0
    } else if c == 1 {
        px.1
    } else {
        px.2
    }
}

/// The low halves of red, green and blue of every pixel, in order.
pub open spec fn grid_nibbles(pixels: Seq<Rgba8>) -> Seq<u8> {
    Seq::new(3 * pixels.len(), |k: int| low_nibble(channel(pixels[k / 3], k % 3)))
}

/// The payload that a grid of pixels yields.
pub open spec fn recovered(pixels: Seq<Rgba8>) -> Seq<u8> {
    before_terminator(bytes_of(evened(grid_nibbles(pixels))))
}

/// Replaces the low halves of a pixel's red, green and blue.
pub fn stamp(px: Rgba8, n0: u8, n1: u8, n2: u8) -> (out: Rgba8)
    ensures
        out == stamped(px, n0, n1, n2),
{
    ((px.0 & 0xF0) | n0, (px.1 & 0xF0) | n1, (px.2 & 0xF0) | n2, px.3)
}

/// Writes the payload and its terminator into the low halves of the
/// image's colour channels, pixel by pixel in row-major order. Fails,
/// leaving the image as it was, exactly when the payload needs more
/// pixels than the image has.
pub fn embed(payload: &[u8], img: &mut Canvas) -> (outcome: Result<(), CapacityError>)
    ensures
        image_width(*final(img)) == image_width(*old(img)),
        image_height(*final(img)) == image_height(*old(img)),
        outcome is Ok <==> required_pixels(payload@) <= image_pixels(*old(img)).len(),
        outcome is Ok ==> image_pixels(*final(img)) == embedded(
            image_pixels(*old(img)),
            payload_nibbles(payload@),
        ),
        outcome matches Err(e) ==> {
            &&& *final(img) == *old(img)
            &&& e.required == required_pixels(payload@)
            &&& e.available == image_pixels(*old(img)).len()
        },
{
    let bytes = with_terminator(payload);
    let mut nibbles = split_nibbles(bytes.as_slice());
    pad_to_triples(&mut nibbles);
    let needed: usize = nibbles.len() / 3;
    let (w, h) = dimensions(img);
    assert(w * h <= u64::MAX) by (nonlinear_arith)
        requires
            w <= u32::MAX,
            h <= u32::MAX,
    ;
    let total: u64 = (w as u64) * (h as u64);
    if needed as u64 > total {
        return Err(CapacityError { required: needed as u64, available: total });
    }
    assert(0 < w) by (nonlinear_arith)
        requires
            1 <= w * h,
            0 <= w,
    ;
    let ghost before = image_pixels(*img);
    let mut k: usize = 0;
    let mut x: u32 = 0;
    let mut y: u32 = 0;
    while k < needed
        invariant
            w == image_width(*img),
            h == image_height(*img),
            image_width(*img) == image_width(*old(img)),
            image_height(*img) == image_height(*old(img)),
            before == image_pixels(*old(img)),
            image_pixels(*img).len() == before.len(),
            before.len() == w * h,
            nibbles@.len() == 3 * needed,
            nibbles@.len() <= usize::MAX,
            1 <= needed <= w * h,
            k <= needed,
            k == y * w + x,
            x < w,
            forall|i: int| 0 <= i < k ==> image_pixels(*img)[i] == stamped(
                before[i],
                nibbles@[3 * i],
                nibbles@[3 * i + 1],
                nibbles@[3 * i + 2],
            ),
            forall|i: int| k <= i < before.len() ==> image_pixels(*img)[i] == before[i],
        decreases needed - k,
    {
        assert(y < h) by (nonlinear_arith)
            requires
                k == y * w + x,
                k < w * h,
                0 <= x,
                0 < w,
        ;
        let px = get_rgba(img, x, y);
        let marked = stamp(px, nibbles[3 * k], nibbles[3 * k + 1], nibbles[3 * k + 2]);
        put_rgba(img, x, y, marked);
        assert((y + 1) * w == y * w + w) by (nonlinear_arith);
        k += 1;
        if x + 1 == w {
            x = 0;
            y += 1;
        } else {
            x += 1;
        }
    }
    assert(image_pixels(*img) =~= embedded(before, nibbles@));
    Ok(())
}

/// Reads the low halves of red, green and blue of every pixel, row by
/// row.
pub fn read_nibbles(img: &Canvas) -> (nibbles: Vec<u8>)
    ensures
        nibbles@ == grid_nibbles(image_pixels(*img)),
{
    let (w, h) = dimensions(img);
    let mut nibbles: Vec<u8> = Vec::new();
    let ghost pixels = image_pixels(*img);
    if w == 0 {
        assert(w * h == 0) by (nonlinear_arith)
            requires
                w == 0,
        ;
        assert(nibbles@ =~= grid_nibbles(pixels));
        return nibbles;
    }
    let mut x: u32 = 0;
    let mut y: u32 = 0;
    let ghost mut k: int = 0;
    while y < h
        invariant
            w == image_width(*img),
            h == image_height(*img),
            pixels == image_pixels(*img),
            pixels.len() == w * h,
            0 < w,
            x < w,
            y <= h,
            y == h ==> x == 0,
            k == y * w + x,
            k <= w * h,
            nibbles@.len() == 3 * k,
            forall|j: int| 0 <= j < 3 * k ==> nibbles@[j] == grid_nibbles(pixels)[j],
        decreases h - y, w - x,
    {
        assert((y + 1) * w == y * w + w) by (nonlinear_arith);
        assert((y + 1) * w <= h * w) by (nonlinear_arith)
            requires
                y + 1 <= h,
                0 < w,
        ;
        let px = get_rgba(img, x, y);
        nibbles.push(low(px.0));
        nibbles.push(low(px.1));
        nibbles.push(low(px.2));
        proof {
            k = k + 1;
        }
        if x + 1 == w {
            x = 0;
            y += 1;
        } else {
            x += 1;
        }
    }
    assert(k == h * w) by (nonlinear_arith)
        requires
            k == y * w + x,
            y == h,
            x == 0,
    ;
    assert(nibbles@ =~= grid_nibbles(pixels));
    nibbles
}

/// Recovers the payload from an image: the bytes joined from the low
/// halves of its colour channels, up to the first zero byte.
pub fn extract(img: &Canvas) -> (payload: Vec<u8>)
    ensures
        payload@ == recovered(image_pixels(*img)),
{
    let mut nibbles = read_nibbles(img);
    make_even(&mut nibbles);
    assemble_payload(nibbles.as_slice())
}

/// Recovers the payload from an image and reads it as text, replacing
/// what is not valid UTF-8.
pub fn extract_text(img: &Canvas) -> (text: String)
    ensures
        text@ == utf8_lossy(recovered(image_pixels(*img))),
{
    let payload = extract(img);
    lossy_text(payload.as_slice())
}

} // verus!
