//! The binary PPM format, variant P6.
//!
//! An image is the header `P6`, a line with the width and the height in
//! decimal, a line with the largest channel value, 255, and then three bytes
//! for every pixel, row by row: red, green, blue.

use vstd::prelude::*;
use crate::color::{channel_byte, Color};

verus! {

/// The decimal digits of `n` in ASCII, without leading zeros.
pub open spec fn decimal(n: nat) -> Seq<u8>
    decreases n,
{
    if n < 10 {
        seq![(0x30 + n) as u8]
    } else {
        decimal(n / 10).push((0x30 + n % 10) as u8)
    }
}

/// The header of an image of the given size: `P6`, a newline, the width, a
/// space, the height, a newline, `255` and a newline.
pub open spec fn header(width: nat, height: nat) -> Seq<u8> {
    seq![0x50u8, 0x36u8, 0x0Au8] + decimal(width) + seq![0x20u8] + decimal(height)
        + seq![0x0Au8, 0x32u8, 0x35u8, 0x35u8, 0x0Au8]
}

/// The three bytes of one pixel: red, green, blue.
pub open spec fn pixel_bytes(c: Color) -> Seq<u8> {
    seq![channel_byte(c.red) as u8, channel_byte(c.green) as u8, channel_byte(c.blue) as u8]
}

/// The bytes of a run of pixels, one pixel after the other.
pub open spec fn pixel_data(cells: Seq<Color>) -> Seq<u8>
    decreases cells.len(),
{
    if cells.len() == 0 {
        Seq::empty()
    } else {
        pixel_bytes(cells[0]) + pixel_data(cells.skip(1))
    }
}

/// The whole image: the header and then the pixels.
pub open spec fn encoding(width: nat, height: nat, cells: Seq<Color>) -> Seq<u8> {
    header(width, height) + pixel_data(cells)
}

/// Every pixel takes three bytes.
pub proof fn pixel_data_len(cells: Seq<Color>)
    ensures
        pixel_data(cells).len() == 3 * cells.len(),
    decreases cells.len(),
{
    if cells.len() > 0 {
        pixel_data_len(cells.skip(1));
    }
}

/// Appends the decimal digits of `n` to `out`.
pub fn push_decimal(out: &mut Vec<u8>, n: usize)
    ensures
        final(out)@ == old(out)@ + decimal(n as nat),
    decreases n,
{
    if n >= 10 {
        push_decimal(out, n / 10);
    }
    out.push(0x30 + (n % 10) as u8);
}

/// The header of an image of the given size.
pub fn header_bytes(width: usize, height: usize) -> (bytes: Vec<u8>)
    ensures
        bytes@ == header(width as nat, height as nat),
{
    let mut bytes: Vec<u8> = Vec::new();
    bytes.push(0x50);
    bytes.push(0x36);
    bytes.push(0x0A);
    push_decimal(&mut bytes, width);
    bytes.push(0x20);
    push_decimal(&mut bytes, height);
    bytes.push(0x0A);
    bytes.push(0x32);
    bytes.push(0x35);
    bytes.push(0x35);
    bytes.push(0x0A);
    bytes
}

} // verus!
