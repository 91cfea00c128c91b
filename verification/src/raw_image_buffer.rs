//! The rendered picture as bytes.

use vstd::prelude::*;
use crate::scalar::Scalar;
use crate::vectors::Color;

verus! {

/// Red, green and blue bytes of the pixels pushed so far, row by row from the
/// top.
#[derive(Debug)]
pub struct RawImageBuffer {
    pub width: u32,
    pub height: u32,
    pub buf: Vec<u8>,
}

/// The byte of one channel whose display value, between 0 and 256, is
/// `channel`: its integer part, 255 where that is larger, 0 for a NaN.
pub open spec fn quantized(channel: Scalar) -> u8 {
    channel.truncated(255) as u8
}

/// The three bytes of a colour.
pub open spec fn bytes_of(pixel: Color) -> Seq<u8> {
    seq![quantized(pixel.x), quantized(pixel.y), quantized(pixel.z)]
}

/// The bytes of a run of colours, one after the other.
pub open spec fn bytes_of_all(pixels: Seq<Color>) -> Seq<u8>
    decreases pixels.len(),
{
    if pixels.len() == 0 {
        Seq::empty()
    } else {
        bytes_of_all(pixels.drop_last()) + bytes_of(pixels.last())
    }
}

impl RawImageBuffer {
    /// An empty buffer for a picture of `width` by `height` pixels.
    pub fn new(width: u32, height: u32) -> (r: RawImageBuffer)
        ensures
            r.width == width,
            r.height == height,
            r.buf@ == Seq::<u8>::empty(),
    {
        assert(width * height <= u64::MAX) by (nonlinear_arith)
            requires
                width <= u32::MAX,
                height <= u32::MAX,
        ;
        let pixels: u64 = (width as u64) * (height as u64);
        let buf: Vec<u8> = if pixels <= (isize::MAX as u64) / 3 {
            Vec::with_capacity((pixels * 3) as usize)
        } else {
            Vec::new()
        };
        RawImageBuffer { width, height, buf }
    }

    /// Appends one pixel, given as its three bytes.
    pub fn push_rgb(&mut self, r: u8, g: u8, b: u8)
        ensures
            final(self).buf@ == old(self).buf@ + seq![r, g, b],
            final(self).width == old(self).width,
            final(self).height == old(self).height,
    {
        self.buf.push(r);
        self.buf.push(g);
        self.buf.push(b);
        assert(self.buf@ =~= old(self).buf@ + seq![r, g, b]);
    }

    /// Appends one pixel, given as its display values: per channel a number
    /// from 0 to 256, of which the integer part is kept.
    pub fn push_color(&mut self, pixel: Color)
        ensures
            final(self).buf@ == old(self).buf@ + bytes_of(pixel),
            final(self).width == old(self).width,
            final(self).height == old(self).height,
    {
        let r: u32 = pixel.x.truncate(255);
        let g: u32 = pixel.y.truncate(255);
        let b: u32 = pixel.z.truncate(255);
        self.push_rgb(r as u8, g as u8, b as u8);
    }
}

/// A pixel takes three bytes, so a run of pixels three times as many.
pub proof fn lemma_bytes_of_all_len(pixels: Seq<Color>)
    ensures
        bytes_of_all(pixels).len() == 3 * pixels.len(),
    decreases pixels.len(),
{
    if pixels.len() > 0 {
        lemma_bytes_of_all_len(pixels.drop_last());
    }
}

/// The bytes of pixel `k` stand at `3 * k`, whatever comes before and after.
pub proof fn lemma_bytes_of_all_index(pixels: Seq<Color>, k: int)
    requires
        0 <= k < pixels.len(),
    ensures
        bytes_of_all(pixels).len() == 3 * pixels.len(),
        bytes_of_all(pixels)[3 * k] == quantized(pixels[k].x),
        bytes_of_all(pixels)[3 * k + 1] == quantized(pixels[k].y),
        bytes_of_all(pixels)[3 * k + 2] == quantized(pixels[k].z),
    decreases pixels.len(),
{
    lemma_bytes_of_all_len(pixels);
    lemma_bytes_of_all_len(pixels.drop_last());
    if k < pixels.len() - 1 {
        lemma_bytes_of_all_index(pixels.drop_last(), k);
    }
}

} // verus!
