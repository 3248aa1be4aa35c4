//! Screen pixels, packed as `0x00RRGGBB`.

use crate::frame::Frame;
use vstd::prelude::*;

verus! {

/// The packed pixel of three channels.
pub open spec fn packed(r: int, g: int, b: int) -> int {
    r * 0x10000 + g * 0x100 + b
}

/// The red channel of a packed pixel.
pub open spec fn red_of(p: u32) -> int {
    (p as int / 0x10000) % 0x100
}

/// The green channel of a packed pixel.
pub open spec fn green_of(p: u32) -> int {
    (p as int / 0x100) % 0x100
}

/// The blue channel of a packed pixel.
pub open spec fn blue_of(p: u32) -> int {
    p as int % 0x100
}

/// The pixels of a picture, without their alpha channel.
pub open spec fn screen_pixels(bytes: Seq<u8>) -> Seq<u32> {
    Seq::new(
        bytes.len() / 4,
        |i: int|
            packed(
                bytes[4 * i] as int,
                bytes[4 * i + 1] as int,
                bytes[4 * i + 2] as int,
            ) as u32,
    )
}

/// A pixel at three fifths of its brightness, each channel rounded down.
pub open spec fn dimmed_pixel(p: u32) -> u32 {
    packed(red_of(p) * 3 / 5, green_of(p) * 3 / 5, blue_of(p) * 3 / 5) as u32
}

/// Packs three channels.
fn pack(r: u32, g: u32, b: u32) -> (p: u32)
    requires
        r < 0x100,
        g < 0x100,
        b < 0x100,
    ensures
        p == packed(r as int, g as int, b as int),
{
    assert((r << 16) | (g << 8) | b == r * 0x10000 + g * 0x100 + b) by (bit_vector)
        requires
            r < 0x100,
            g < 0x100,
            b < 0x100,
    ;
    (r << 16) | (g << 8) | b
}

/// The pixels of `image` as the screen takes them: `0x00RRGGBB`.
pub fn rgba_to_0rgb(image: &Frame) -> (pixels: Vec<u32>)
    ensures
        pixels@ == screen_pixels(image@.bytes),
        pixels@.len() == image@.width * image@.height,
{
    let bytes = image.bytes();
    let len: usize = bytes.len();
    let count: usize = len / 4;
    let mut pixels: Vec<u32> = Vec::new();
    let mut i: usize = 0;
    while i < count
        invariant
            i <= count,
            count == len / 4,
            len == bytes@.len(),
            bytes@ == image@.bytes,
            pixels@ == screen_pixels(image@.bytes).take(i as int),
        decreases count - i,
    {
        let r: u32 = bytes[4 * i] as u32;
        let g: u32 = bytes[4 * i + 1] as u32;
        let b: u32 = bytes[4 * i + 2] as u32;
        pixels.push(pack(r, g, b));
        i = i + 1;
        assert(pixels@ =~= screen_pixels(image@.bytes).take(i as int));
    }
    assert(pixels@ =~= screen_pixels(image@.bytes));
    pixels
}

/// Every pixel of `buf` at three fifths of its brightness.
pub fn dim_buffer(buf: &[u32]) -> (dimmed: Vec<u32>)
    ensures
        dimmed@ == buf@.map_values(|p: u32| dimmed_pixel(p)),
{
    let mut dimmed: Vec<u32> = Vec::new();
    let mut i: usize = 0;
    while i < buf.len()
        invariant
            i <= buf@.len(),
            dimmed@ == buf@.map_values(|p: u32| dimmed_pixel(p)).take(i as int),
        decreases buf@.len() - i,
    {
        let p: u32 = buf[i];
        assert((p >> 16) & 0xFF == (p / 0x10000) % 0x100) by (bit_vector);
        assert((p >> 8) & 0xFF == (p / 0x100) % 0x100) by (bit_vector);
        assert(p & 0xFF == p % 0x100) by (bit_vector);
        let r: u32 = ((p >> 16) & 0xFF) * 3 / 5;
        let g: u32 = ((p >> 8) & 0xFF) * 3 / 5;
        let b: u32 = (p & 0xFF) * 3 / 5;
        dimmed.push(pack(r, g, b));
        i = i + 1;
        assert(dimmed@ =~= buf@.map_values(|p: u32| dimmed_pixel(p)).take(i as int));
    }
    assert(dimmed@ =~= buf@.map_values(|p: u32| dimmed_pixel(p)));
    dimmed
}

/// Packing loses nothing: the channels of a packed pixel are those it was made of.
pub proof fn law_channels_of_packed(r: int, g: int, b: int)
    requires
        0 <= r < 0x100,
        0 <= g < 0x100,
        0 <= b < 0x100,
    ensures
        0 <= packed(r, g, b) < 0x1000000,
        red_of(packed(r, g, b) as u32) == r,
        green_of(packed(r, g, b) as u32) == g,
        blue_of(packed(r, g, b) as u32) == b,
{
}

/// A pixel of a picture keeps its red, green and blue, whatever its alpha is.
pub proof fn law_screen_pixel_keeps_channels(bytes: Seq<u8>, i: int)
    requires
        0 <= i < bytes.len() / 4,
    ensures
        red_of(screen_pixels(bytes)[i]) == bytes[4 * i],
        green_of(screen_pixels(bytes)[i]) == bytes[4 * i + 1],
        blue_of(screen_pixels(bytes)[i]) == bytes[4 * i + 2],
        screen_pixels(bytes)[i] < 0x1000000,
{
    law_channels_of_packed(bytes[4 * i] as int, bytes[4 * i + 1] as int, bytes[4 * i + 2] as int);
}

/// Dimming takes each channel to three fifths of it and clears the top byte, so
/// no pixel gets brighter in any channel.
pub proof fn law_dimming_per_channel(p: u32)
    ensures
        red_of(dimmed_pixel(p)) == red_of(p) * 3 / 5,
        green_of(dimmed_pixel(p)) == green_of(p) * 3 / 5,
        blue_of(dimmed_pixel(p)) == blue_of(p) * 3 / 5,
        red_of(dimmed_pixel(p)) <= red_of(p),
        green_of(dimmed_pixel(p)) <= green_of(p),
        blue_of(dimmed_pixel(p)) <= blue_of(p),
        dimmed_pixel(p) < 0x1000000,
{
    law_channels_of_packed(red_of(p) * 3 / 5, green_of(p) * 3 / 5, blue_of(p) * 3 / 5);
}

/// Pixel `i` of a picture is made of its bytes `4 * i`, `4 * i + 1` and
/// `4 * i + 2`, from the top down; there is a pixel for every four bytes.
pub proof fn law_screen_pixel_written_out(bytes: Seq<u8>, i: int)
    requires
        0 <= i,
        4 * i + 3 < bytes.len(),
    ensures
        4 * screen_pixels(bytes).len() <= bytes.len() < 4 * screen_pixels(bytes).len() + 4,
        screen_pixels(bytes)[i] == bytes[4 * i] * 65536 + bytes[4 * i + 1] * 256 + bytes[4 * i
            + 2],
{
}

/// A pixel made of the channels `r`, `g` and `b` is dimmed to one made of three
/// fifths of each, whatever its top byte is.
pub proof fn law_dimmed_pixel_written_out(p: u32, top: nat, r: nat, g: nat, b: nat)
    requires
        top < 256,
        r < 256,
        g < 256,
        b < 256,
        p == top * 16777216 + r * 65536 + g * 256 + b,
    ensures
        dimmed_pixel(p) == (3 * r / 5) * 65536 + (3 * g / 5) * 256 + 3 * b / 5,
{
    assert(p as int / 0x10000 == top * 256 + r);
    assert(p as int / 0x100 == top * 65536 + r * 256 + g);
    assert(red_of(p) == r);
    assert(green_of(p) == g);
    assert(blue_of(p) == b);
}

} // verus!
