//! The image transport codec: a photo is reduced to one byte per pixel,
//! three bits of red, three of green and two of blue, and the packed raster
//! is compressed.

use bytes::Bytes;
use vstd::prelude::*;

use crate::buffer::{bytes_as_slice, bytes_from_vec, bytes_view};
use crate::compression::{compress, decompress, lzss_compressed, lzss_decompressed};

verus! {

/// The width of a tile, in pixels.
pub const WIDTH: u32 = 320;

/// The height of a tile, in pixels.
pub const HEIGHT: u32 = 240;

/// The number of pixels of a tile.
pub const SIZE: u32 = 320 * 240;

/// A picture in 24-bit colour: three bytes per pixel, red, green and blue,
/// row after row.
#[derive(Debug, PartialEq)]
pub struct Raster {
    pub width: u32,
    pub height: u32,
    pub pixels: Vec<u8>,
}

impl Raster {
    /// The picture holds three bytes for each of its pixels.
    pub open spec fn wf(&self) -> bool {
        self.pixels@.len() == 3 * self.width * self.height
    }

    /// The picture is made of whole tiles.
    pub open spec fn tiled(&self) -> bool {
        self.width % WIDTH == 0 && self.height % HEIGHT == 0
    }
}

/// A pixel in one byte: the top three bits of red, the top three bits of
/// green and the top two bits of blue.
pub open spec fn pack(red: u8, green: u8, blue: u8) -> u8 {
    ((red >> 5) << 5) | ((green >> 5) << 2) | (blue >> 6)
}

/// A level of `max + 1` spread over the range of a byte.
pub open spec fn spread(level: u8, max: u8) -> u8 {
    (level as int * 255 / max as int) as u8
}

/// The red of a packed pixel, spread back over the range of a byte.
pub open spec fn red_of(packed: u8) -> u8 {
    spread((packed >> 5) & 0x07, 7)
}

/// The green of a packed pixel.
pub open spec fn green_of(packed: u8) -> u8 {
    spread((packed >> 2) & 0x07, 7)
}

/// The blue of a packed pixel.
pub open spec fn blue_of(packed: u8) -> u8 {
    spread(packed & 0x03, 3)
}

/// The packed raster of a picture: one byte per pixel, in the picture's
/// order.
pub open spec fn quantized(pixels: Seq<u8>) -> Seq<u8> {
    Seq::new(
        (pixels.len() / 3) as nat,
        |i: int| pack(pixels[3 * i], pixels[3 * i + 1], pixels[3 * i + 2]),
    )
}

/// The picture that a packed raster stands for: three bytes per pixel.
pub open spec fn expanded(packed: Seq<u8>) -> Seq<u8> {
    Seq::new(
        3 * packed.len(),
        |i: int|
            if i % 3 == 0 {
                red_of(packed[i / 3])
            } else if i % 3 == 1 {
                green_of(packed[i / 3])
            } else {
                blue_of(packed[i / 3])
            },
    )
}

/// The picture of `width` by `height` pixels that compressed bytes stand
/// for, if they decompress to enough pixels.
pub open spec fn decoded(compressed: Seq<u8>, width: u32, height: u32) -> Option<Seq<u8>> {
    let packed = lzss_decompressed(compressed);
    if packed.len() < width * height {
        None
    } else {
        Some(expanded(packed.take(width * height)))
    }
}

/// Packs one pixel.
pub fn pack_pixel(red: u8, green: u8, blue: u8) -> (packed: u8)
    ensures
        packed == pack(red, green, blue),
{
    let r = (red >> 5) & 0x07;
    let g = (green >> 5) & 0x07;
    let b = (blue >> 6) & 0x03;
    assert(((((red >> 5) & 0x07) << 5) | (((green >> 5) & 0x07) << 2) | ((blue >> 6) & 0x03)) == (((
    red >> 5) << 5) | ((green >> 5) << 2) | (blue >> 6))) by (bit_vector);
    (r << 5) | (g << 2) | b
}

/// Expands one packed pixel to red, green and blue.
pub fn expand_pixel(packed: u8) -> (pixel: (u8, u8, u8))
    ensures
        pixel.0 == red_of(packed),
        pixel.1 == green_of(packed),
        pixel.2 == blue_of(packed),
{
    let r = (packed >> 5) & 0x07;
    let g = (packed >> 2) & 0x07;
    let b = packed & 0x03;
    assert(((packed >> 5) & 0x07) <= 7) by (bit_vector);
    assert(((packed >> 2) & 0x07) <= 7) by (bit_vector);
    assert((packed & 0x03) <= 3) by (bit_vector);
    let r = (r as u16 * 255 / 7) as u8;
    let g = (g as u16 * 255 / 7) as u8;
    let b = (b as u16 * 255 / 3) as u8;
    (r, g, b)
}

/// The packed raster of a picture.
pub fn quantize(image: &Raster) -> (packed: Vec<u8>)
    requires
        image.wf(),
    ensures
        packed@ == quantized(image.pixels@),
        packed@.len() == image.width * image.height,
{
    let mut packed: Vec<u8> = Vec::new();
    let count = image.pixels.len() / 3;
    assert(count == image.width * image.height) by (nonlinear_arith)
        requires
            count == image.pixels@.len() / 3,
            image.pixels@.len() == 3 * image.width * image.height,
    ;
    let mut i: usize = 0;
    while i < count
        invariant
            i <= count,
            count == image.pixels@.len() / 3,
            image.pixels@.len() <= usize::MAX,
            packed@.len() == i,
            forall|k: int| 0 <= k < i ==> packed@[k] == quantized(image.pixels@)[k],
        decreases count - i,
    {
        let at = 3 * i;
        let byte = pack_pixel(image.pixels[at], image.pixels[at + 1], image.pixels[at + 2]);
        packed.push(byte);
        i += 1;
    }
    assert(packed@ =~= quantized(image.pixels@));
    packed
}

/// The picture of `width` by `height` pixels that a packed raster stands
/// for. The raster must hold a byte for every pixel; what it holds beyond
/// that is left aside.
pub fn expand(packed: &[u8], width: u32, height: u32) -> (image: Option<Raster>)
    ensures
        image is Some <==> packed@.len() >= width * height,
        image is Some ==> {
            &&& image->Some_0.wf()
            &&& image->Some_0.width == width
            &&& image->Some_0.height == height
            &&& image->Some_0.pixels@ == expanded(packed@.take(width * height))
        },
{
    assert(width * height <= 0xffff_ffff * 0xffff_ffff) by (nonlinear_arith)
        requires
            width <= 0xffff_ffff,
            height <= 0xffff_ffff,
    ;
    let count: u64 = width as u64 * height as u64;
    if (packed.len() as u64) < count {
        return None;
    }
    let count: usize = count as usize;
    assert(3 * count == 3 * width * height) by (nonlinear_arith)
        requires
            count == width * height,
    ;
    let ghost wanted = expanded(packed@.take(count as int));
    let mut pixels: Vec<u8> = Vec::new();
    let mut i: usize = 0;
    while i < count
        invariant
            i <= count <= packed@.len(),
            count == width * height,
            wanted == expanded(packed@.take(count as int)),
            pixels@.len() == 3 * i,
            forall|k: int| 0 <= k < 3 * i ==> pixels@[k] == wanted[k],
        decreases count - i,
    {
        let (r, g, b) = expand_pixel(packed[i]);
        pixels.push(r);
        pixels.push(g);
        pixels.push(b);
        i += 1;
    }
    assert(pixels@ =~= wanted);
    Some(Raster { width, height, pixels })
}

/// Packs and compresses a picture made of whole tiles.
///
/// The bytes are the compressed packed raster, and they decode to the
/// picture that the packed raster stands for.
pub fn encode(image: &Raster) -> (bytes: Bytes)
    requires
        image.wf(),
        image.tiled(),
    ensures
        bytes_view(bytes) == lzss_compressed(quantized(image.pixels@)),
        decoded(bytes_view(bytes), image.width, image.height) == Some(
            expanded(quantized(image.pixels@)),
        ),
{
    let mut packed = quantize(image);
    let ghost raster = packed@;
    compress(&mut packed);
    assert(raster.take(image.width * image.height) =~= raster);
    bytes_from_vec(packed)
}

/// Decompresses bytes and expands them to a picture of `width` by `height`
/// pixels, both multiples of a tile's. Fails where the bytes decompress to
/// fewer pixels than that.
pub fn decode(bytes: &Bytes, width: u32, height: u32) -> (image: Option<Raster>)
    requires
        width % WIDTH == 0,
        height % HEIGHT == 0,
    ensures
        match decoded(bytes_view(*bytes), width, height) {
            Some(pixels) => {
                &&& image is Some
                &&& image->Some_0.wf()
                &&& image->Some_0.width == width
                &&& image->Some_0.height == height
                &&& image->Some_0.pixels@ == pixels
            },
            None => image is None,
        },
{
    let mut packed = vstd::slice::slice_to_vec(bytes_as_slice(bytes));
    decompress(&mut packed);
    expand(packed.as_slice(), width, height)
}

/// Quantizing is idempotent on a pixel: a packed pixel that is expanded and
/// packed again is the same packed pixel.
pub proof fn lemma_pack_expand(packed: u8)
    ensures
        pack(red_of(packed), green_of(packed), blue_of(packed)) == packed,
{
    assert(forall|b: u8|
        (((((((b >> 5) & 0x07u8) as u16 * 255 / 7) as u8) >> 5u8) << 5u8) | ((((((b >> 2) & 0x07u8)
            as u16 * 255 / 7) as u8) >> 5u8) << 2u8) | ((((b & 0x03u8) as u16 * 255 / 3) as u8)
            >> 6u8)) == b) by (bit_vector);
    let r = (packed >> 5) & 0x07;
    let g = (packed >> 2) & 0x07;
    let b = packed & 0x03;
    assert(((packed >> 5) & 0x07) <= 7) by (bit_vector);
    assert(((packed >> 2) & 0x07) <= 7) by (bit_vector);
    assert((packed & 0x03) <= 3) by (bit_vector);
    assert(red_of(packed) == ((r as u16 * 255 / 7) as u8));
    assert(green_of(packed) == ((g as u16 * 255 / 7) as u8));
    assert(blue_of(packed) == ((b as u16 * 255 / 3) as u8));
}

/// Quantizing is idempotent: the packed raster of an expanded packed
/// raster is that packed raster.
pub proof fn lemma_quantize_idempotent(pixels: Seq<u8>)
    ensures
        quantized(expanded(quantized(pixels))) == quantized(pixels),
{
    let packed = quantized(pixels);
    let again = quantized(expanded(packed));
    assert(again.len() == packed.len());
    assert forall|i: int| 0 <= i < packed.len() implies again[i] == packed[i] by {
        lemma_pack_expand(packed[i]);
        assert((3 * i) / 3 == i && (3 * i) % 3 == 0);
        assert((3 * i + 1) / 3 == i && (3 * i + 1) % 3 == 1);
        assert((3 * i + 2) / 3 == i && (3 * i + 2) % 3 == 2);
    }
    assert(again =~= packed);
}

/// Packing and expanding moves a colour by less than one step of its
/// channel: less than 32 for red and green, less than 64 for blue.
pub proof fn lemma_within_step(red: u8, green: u8, blue: u8)
    ensures
        -32 < red_of(pack(red, green, blue)) - red < 32,
        -32 < green_of(pack(red, green, blue)) - green < 32,
        -64 < blue_of(pack(red, green, blue)) - blue < 64,
{
    let packed = pack(red, green, blue);
    assert((((((red >> 5) << 5) | ((green >> 5) << 2) | (blue >> 6)) >> 5) & 0x07u8) == red >> 5)
        by (bit_vector);
    assert((((((red >> 5) << 5) | ((green >> 5) << 2) | (blue >> 6)) >> 2) & 0x07u8) == green >> 5)
        by (bit_vector);
    assert(((((red >> 5) << 5) | ((green >> 5) << 2) | (blue >> 6)) & 0x03u8) == blue >> 6)
        by (bit_vector);
    assert(red >> 5 == red / 32) by (bit_vector);
    assert(green >> 5 == green / 32) by (bit_vector);
    assert(blue >> 6 == blue / 64) by (bit_vector);
}

/// An expanded pixel is one of the 8 x 8 x 4 colours of the palette: each
/// channel holds one of its levels, spread over the range of a byte.
pub proof fn lemma_palette(packed: u8)
    ensures
        exists|level: u8| level <= 7 && red_of(packed) == spread(level, 7),
        exists|level: u8| level <= 7 && green_of(packed) == spread(level, 7),
        exists|level: u8| level <= 3 && blue_of(packed) == spread(level, 3),
{
    let r = (packed >> 5) & 0x07;
    let g = (packed >> 2) & 0x07;
    let b = packed & 0x03;
    assert(((packed >> 5) & 0x07) <= 7) by (bit_vector);
    assert(((packed >> 2) & 0x07) <= 7) by (bit_vector);
    assert((packed & 0x03) <= 3) by (bit_vector);
    assert(r <= 7 && red_of(packed) == spread(r, 7));
    assert(g <= 7 && green_of(packed) == spread(g, 7));
    assert(b <= 3 && blue_of(packed) == spread(b, 3));
}

} // verus!
