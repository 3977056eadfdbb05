//! The packed-logo permutation: 48 bytes to and from a 48x8 pixel grid.
//!
//! The packed form holds 96 nibbles (two per byte, high bits first). Nibble
//! `k` paints a horizontal run of four pixels: the first 48 nibbles cover the
//! top four rows, the next 48 the bottom four; within a half the image is
//! walked by 4-pixel-wide column group, and within a group by row. Bit 3 of
//! a nibble is the leftmost pixel of its run, bit 0 the rightmost.

use vstd::arithmetic::div_mod::lemma_fundamental_div_mod;
use vstd::arithmetic::div_mod::lemma_fundamental_div_mod_converse;
use vstd::arithmetic::div_mod::lemma_mod_bound;
use vstd::prelude::*;

verus! {

/// One 4-bit slice of the packed logo: nibble `2j` holds the high four bits
/// of byte `j`, nibble `2j + 1` the low four.
pub open spec fn logo_nibble(raw: Seq<u8>, k: int) -> u8
    recommends
        raw.len() == 48,
        0 <= k < 96,
{
    if k % 2 == 0 {
        raw[k / 2] >> 4u8
    } else {
        raw[k / 2] & 0x0fu8
    }
}

/// Whether nibble `nib` paints the pixel at offset `b` of its 4-pixel run:
/// bit 3 is the leftmost pixel of the run, bit 0 the rightmost.
pub open spec fn nibble_bit(nib: u8, b: int) -> bool
    recommends
        0 <= b < 4,
{
    (nib >> ((3 - b) as u8)) & 1 == 1
}

/// Index of the nibble that covers pixel column `x`, row `y`: the top half
/// (rows 0..4) comes before the bottom half, and within a half the twelve
/// 4-pixel column groups go left to right, each group's rows top to bottom.
pub open spec fn nibble_index(x: int, y: int) -> int
    recommends
        0 <= x < 48,
        0 <= y < 8,
{
    48 * (y / 4) + 4 * (x / 4) + y % 4
}

/// Pixel `i` (row-major, 48 columns) of the decoded grid: 255 when the
/// covering nibble's bit is set, 0 when it is clear.
pub open spec fn decoded_pixel(raw: Seq<u8>, i: int) -> u8
    recommends
        raw.len() == 48,
        0 <= i < 384,
{
    if nibble_bit(logo_nibble(raw, nibble_index(i % 48, i / 48)), (i % 48) % 4) {
        255
    } else {
        0
    }
}

/// The 48x8 grid decoded from the 48 packed bytes: row-major, one byte per
/// pixel, 255 for on and 0 for off.
pub open spec fn decoded(raw: Seq<u8>) -> Seq<u8>
    recommends
        raw.len() == 48,
{
    Seq::new(384, |i: int| decoded_pixel(raw, i))
}

/// Unpack the 48 packed logo bytes into the 48x8 pixel grid, row-major,
/// 255 for an on pixel and 0 for an off pixel.
pub fn decode_logo(raw: &Vec<u8>) -> (pixels: Vec<u8>)
    requires
        raw@.len() == 48,
    ensures
        pixels@ == decoded(raw@),
{
    let mut pixels: Vec<u8> = Vec::new();
    for i in 0..384usize
        invariant
            raw@.len() == 48,
            pixels@.len() == i,
            forall|t: int| 0 <= t < i ==> pixels@[t] == decoded_pixel(raw@, t),
    {
        let x: usize = i % 48;
        let y: usize = i / 48;
        let k: usize = 48 * (y / 4) + 4 * (x / 4) + (y % 4);
        let byte: u8 = raw[k / 2];
        let nib: u8 = if k % 2 == 0 {
            byte >> 4u8
        } else {
            byte & 0x0fu8
        };
        let b: u8 = (x % 4) as u8;
        let pix: u8 = if (nib >> (3 - b)) & 1 == 1 {
            255
        } else {
            0
        };
        pixels.push(pix);
    }
    assert(pixels@ =~= decoded(raw@));
    pixels
}

/// Row-major index of the leftmost pixel of the 4-pixel run that nibble `k`
/// paints.
pub open spec fn run_base(k: int) -> int
    recommends
        0 <= k < 96,
{
    48 * (4 * (k / 48) + k % 4) + 4 * ((k / 4) % 12)
}

/// 1 when the flag is set, 0 when it is not.
pub open spec fn bit_val(on: bool) -> u8 {
    if on {
        1
    } else {
        0
    }
}

/// Whether pixel `i` of a grid counts as on: any nonzero sample does.
pub open spec fn pixel_on(pixels: Seq<u8>, i: int) -> bool
    recommends
        0 <= i < pixels.len(),
{
    pixels[i] != 0
}

/// The nibble packed from the 4-pixel run that nibble `k` paints: bit 3 is
/// the run's leftmost pixel, bit 0 its rightmost.
pub open spec fn grid_nibble(pixels: Seq<u8>, k: int) -> u8
    recommends
        pixels.len() == 384,
        0 <= k < 96,
{
    (8 * bit_val(pixel_on(pixels, run_base(k))) + 4 * bit_val(pixel_on(pixels, run_base(k) + 1))
        + 2 * bit_val(pixel_on(pixels, run_base(k) + 2)) + bit_val(
        pixel_on(pixels, run_base(k) + 3),
    )) as u8
}

/// The 48 packed bytes encoded from a 48x8 grid (row-major, one byte per
/// pixel, any nonzero sample on): byte `j` holds nibble `2j` in its high
/// four bits and nibble `2j + 1` in its low four.
pub open spec fn encoded(pixels: Seq<u8>) -> Seq<u8>
    recommends
        pixels.len() == 384,
{
    Seq::new(48, |j: int| (grid_nibble(pixels, 2 * j) << 4u8) | grid_nibble(pixels, 2 * j + 1))
}

/// For block coordinates `h` (half), `c` (column group), `r` (row within the
/// half) and pixel offset `b`, nibble `48h + 4c + r` paints the run starting
/// at row `4h + r`, column `4c`, and the pixel at offset `b` of that run maps
/// back to this nibble and offset.
proof fn lemma_pack_coords(h: int, c: int, r: int, b: int)
    requires
        0 <= h < 2,
        0 <= c < 12,
        0 <= r < 4,
        0 <= b < 4,
    ensures
        ({
            let k = 48 * h + 4 * c + r;
            let i = 48 * (4 * h + r) + 4 * c + b;
            &&& 0 <= k < 96
            &&& 0 <= i < 384
            &&& run_base(k) == 48 * (4 * h + r) + 4 * c
            &&& nibble_index(i % 48, i / 48) == k
            &&& (i % 48) % 4 == b
        }),
{
    let k = 48 * h + 4 * c + r;
    let i = 48 * (4 * h + r) + 4 * c + b;
    lemma_fundamental_div_mod_converse(k, 48, h, 4 * c + r);
    lemma_fundamental_div_mod_converse(k, 4, 12 * h + c, r);
    lemma_fundamental_div_mod_converse(12 * h + c, 12, h, c);
    lemma_fundamental_div_mod_converse(i, 48, 4 * h + r, 4 * c + b);
    lemma_fundamental_div_mod_converse(4 * c + b, 4, c, b);
    lemma_fundamental_div_mod_converse(4 * h + r, 4, h, r);
}

/// Every pixel position splits uniquely into block coordinates: half `h`,
/// column group `c`, row `r` within the half, and offset `b` within the run.
proof fn lemma_unpack_coords(i: int)
    requires
        0 <= i < 384,
    ensures
        ({
            let x = i % 48;
            let y = i / 48;
            let h = y / 4;
            let c = x / 4;
            let r = y % 4;
            let b = x % 4;
            &&& 0 <= x < 48 && 0 <= y < 8
            &&& 0 <= h < 2 && 0 <= c < 12 && 0 <= r < 4 && 0 <= b < 4
            &&& i == 48 * (4 * h + r) + 4 * c + b
            &&& nibble_index(x, y) == 48 * h + 4 * c + r
        }),
{
    lemma_fundamental_div_mod(i, 48);
    lemma_mod_bound(i, 48);
    let x = i % 48;
    let y = i / 48;
    lemma_fundamental_div_mod(x, 4);
    lemma_mod_bound(x, 4);
    lemma_fundamental_div_mod(y, 4);
    lemma_mod_bound(y, 4);
}

/// Both nibbles of a byte are below 16.
proof fn lemma_nibble_small(byte: u8)
    by (bit_vector)
    ensures
        (byte >> 4u8) < 16,
        (byte & 0x0fu8) < 16,
{
}

/// A value below 16 is recomposed exactly from its four bits.
proof fn lemma_nibble_recompose(nib: u8)
    by (bit_vector)
    requires
        nib < 16,
    ensures
        nib == (8 * (if (nib >> 3u8) & 1 == 1 { 1u8 } else { 0u8 }) + 4 * (if (nib >> 2u8) & 1
            == 1 { 1u8 } else { 0u8 }) + 2 * (if (nib >> 1u8) & 1 == 1 { 1u8 } else { 0u8 }) + (
        if (nib >> 0u8) & 1 == 1 { 1u8 } else { 0u8 })) as u8,
{
}

/// A byte is its high nibble shifted up, or-ed with its low nibble.
proof fn lemma_byte_split(byte: u8)
    by (bit_vector)
    ensures
        byte == ((byte >> 4u8) << 4u8) | (byte & 0x0fu8),
{
}

/// Packing two nibbles into a byte loses neither.
proof fn lemma_byte_nibbles(hi: u8, lo: u8)
    by (bit_vector)
    requires
        hi < 16,
        lo < 16,
    ensures
        ((hi << 4u8) | lo) >> 4u8 == hi,
        ((hi << 4u8) | lo) & 0x0fu8 == lo,
{
}

/// Each bit of a nibble built from four 0-or-1 pixel values reads back as
/// the value it was built from.
proof fn lemma_grid_nibble_bits(p0: u8, p1: u8, p2: u8, p3: u8)
    by (bit_vector)
    requires
        p0 < 2,
        p1 < 2,
        p2 < 2,
        p3 < 2,
    ensures
        (((8 * p0 + 4 * p1 + 2 * p2 + p3) as u8) >> 3u8) & 1 == p0,
        (((8 * p0 + 4 * p1 + 2 * p2 + p3) as u8) >> 2u8) & 1 == p1,
        (((8 * p0 + 4 * p1 + 2 * p2 + p3) as u8) >> 1u8) & 1 == p2,
        (((8 * p0 + 4 * p1 + 2 * p2 + p3) as u8) >> 0u8) & 1 == p3,
{
}

/// Re-encoding the run that nibble `48h + 4c + r` painted gives that nibble
/// back.
proof fn lemma_grid_nibble_of_decoded(raw: Seq<u8>, h: int, c: int, r: int)
    requires
        raw.len() == 48,
        0 <= h < 2,
        0 <= c < 12,
        0 <= r < 4,
    ensures
        grid_nibble(decoded(raw), 48 * h + 4 * c + r) == logo_nibble(raw, 48 * h + 4 * c + r),
{
    let k = 48 * h + 4 * c + r;
    let nib = logo_nibble(raw, k);
    lemma_pack_coords(h, c, r, 0);
    lemma_pack_coords(h, c, r, 1);
    lemma_pack_coords(h, c, r, 2);
    lemma_pack_coords(h, c, r, 3);
    assert(pixel_on(decoded(raw), run_base(k)) == nibble_bit(nib, 0));
    assert(pixel_on(decoded(raw), run_base(k) + 1) == nibble_bit(nib, 1));
    assert(pixel_on(decoded(raw), run_base(k) + 2) == nibble_bit(nib, 2));
    assert(pixel_on(decoded(raw), run_base(k) + 3) == nibble_bit(nib, 3));
    lemma_nibble_small(raw[k / 2]);
    lemma_nibble_recompose(nib);
}

/// Decoding then re-encoding returns any 48-byte packed logo unchanged.
pub proof fn lemma_encode_of_decode(raw: Seq<u8>)
    requires
        raw.len() == 48,
    ensures
        encoded(decoded(raw)) == raw,
{
    let enc = encoded(decoded(raw));
    assert forall|j: int| 0 <= j < 48 implies enc[j] == raw[j] by {
        lemma_fundamental_div_mod(j, 24);
        lemma_mod_bound(j, 24);
        let h = j / 24;
        let m = j % 24;
        lemma_fundamental_div_mod(m, 2);
        lemma_mod_bound(m, 2);
        let c = m / 2;
        let d = m % 2;
        lemma_grid_nibble_of_decoded(raw, h, c, 2 * d);
        lemma_grid_nibble_of_decoded(raw, h, c, 2 * d + 1);
        assert(2 * j == 48 * h + 4 * c + 2 * d);
        assert(2 * j + 1 == 48 * h + 4 * c + (2 * d + 1));
        lemma_fundamental_div_mod_converse(2 * j, 2, j, 0);
        lemma_fundamental_div_mod_converse(2 * j + 1, 2, j, 1);
        lemma_byte_split(raw[j]);
    }
    assert(enc =~= raw);
}

/// The byte that `encoded` packs nibble `k` into hands that nibble back.
proof fn lemma_logo_nibble_of_encoded(pixels: Seq<u8>, k: int)
    requires
        pixels.len() == 384,
        0 <= k < 96,
    ensures
        logo_nibble(encoded(pixels), k) == grid_nibble(pixels, k),
{
    lemma_fundamental_div_mod(k, 2);
    lemma_mod_bound(k, 2);
    let j = k / 2;
    assert(encoded(pixels)[j] == (grid_nibble(pixels, 2 * j) << 4u8) | grid_nibble(
        pixels,
        2 * j + 1,
    ));
    lemma_byte_nibbles(grid_nibble(pixels, 2 * j), grid_nibble(pixels, 2 * j + 1));
}

/// Decoded pixels are 255 exactly where the grid that was encoded had a
/// nonzero sample.
proof fn lemma_decoded_pixel_of_encoded(pixels: Seq<u8>, i: int)
    requires
        pixels.len() == 384,
        0 <= i < 384,
    ensures
        decoded_pixel(encoded(pixels), i) == (if pixels[i] == 0 { 0u8 } else { 255u8 }),
{
    lemma_unpack_coords(i);
    let x = i % 48;
    let y = i / 48;
    let h = y / 4;
    let c = x / 4;
    let r = y % 4;
    let b = x % 4;
    let k = 48 * h + 4 * c + r;
    lemma_pack_coords(h, c, r, b);
    lemma_logo_nibble_of_encoded(pixels, k);
    let p0 = bit_val(pixel_on(pixels, run_base(k)));
    let p1 = bit_val(pixel_on(pixels, run_base(k) + 1));
    let p2 = bit_val(pixel_on(pixels, run_base(k) + 2));
    let p3 = bit_val(pixel_on(pixels, run_base(k) + 3));
    lemma_grid_nibble_bits(p0, p1, p2, p3);
    assert(run_base(k) + b == i);
    if b == 0 {
        assert(nibble_bit(grid_nibble(pixels, k), 0) == pixel_on(pixels, i));
    } else if b == 1 {
        assert(nibble_bit(grid_nibble(pixels, k), 1) == pixel_on(pixels, i));
    } else if b == 2 {
        assert(nibble_bit(grid_nibble(pixels, k), 2) == pixel_on(pixels, i));
    } else {
        assert(nibble_bit(grid_nibble(pixels, k), 3) == pixel_on(pixels, i));
    }
}

/// Encoding then decoding turns every nonzero sample into 255 and keeps
/// every zero sample 0.
pub proof fn lemma_decode_of_encode(pixels: Seq<u8>)
    requires
        pixels.len() == 384,
    ensures
        decoded(encoded(pixels)) == Seq::new(
            384,
            |i: int| if pixels[i] == 0 { 0u8 } else { 255u8 },
        ),
{
    assert forall|i: int| 0 <= i < 384 implies decoded(encoded(pixels))[i] == (if pixels[i] == 0 {
        0u8
    } else {
        255u8
    }) by {
        lemma_decoded_pixel_of_encoded(pixels, i);
    }
    assert(decoded(encoded(pixels)) =~= Seq::new(
        384,
        |i: int| if pixels[i] == 0 { 0u8 } else { 255u8 },
    ));
}

/// Encoding then decoding returns any 48x8 grid of 0-or-255 samples
/// unchanged.
pub proof fn lemma_decode_of_encode_binary(pixels: Seq<u8>)
    requires
        pixels.len() == 384,
        forall|i: int| 0 <= i < 384 ==> pixels[i] == 0 || pixels[i] == 255,
    ensures
        decoded(encoded(pixels)) == pixels,
{
    lemma_decode_of_encode(pixels);
    assert(decoded(encoded(pixels)) =~= pixels);
}

/// Pack one 4-pixel run of the grid into its nibble.
fn grid_nibble_exec(pixels: &Vec<u8>, k: usize) -> (nib: u8)
    requires
        pixels@.len() == 384,
        k < 96,
    ensures
        nib == grid_nibble(pixels@, k as int),
{
    let y: usize = 4 * (k / 48) + (k % 4);
    let x: usize = 4 * ((k / 4) % 12);
    let base: usize = 48 * y + x;
    let p0: u8 = if pixels[base] != 0 { 1 } else { 0 };
    let p1: u8 = if pixels[base + 1] != 0 { 1 } else { 0 };
    let p2: u8 = if pixels[base + 2] != 0 { 1 } else { 0 };
    let p3: u8 = if pixels[base + 3] != 0 { 1 } else { 0 };
    8 * p0 + 4 * p1 + 2 * p2 + p3
}

/// Pack a 48x8 pixel grid (row-major, one byte per pixel, any nonzero
/// sample on) into the 48 packed logo bytes.
pub fn encode_logo(pixels: &Vec<u8>) -> (raw: Vec<u8>)
    requires
        pixels@.len() == 384,
    ensures
        raw@ == encoded(pixels@),
{
    let mut raw: Vec<u8> = Vec::new();
    for j in 0..48usize
        invariant
            pixels@.len() == 384,
            raw@.len() == j,
            forall|t: int| 0 <= t < j ==> raw@[t] == encoded(pixels@)[t],
    {
        let hi = grid_nibble_exec(pixels, 2 * j);
        let lo = grid_nibble_exec(pixels, 2 * j + 1);
        raw.push((hi << 4u8) | lo);
    }
    assert(raw@ =~= encoded(pixels@));
    raw
}

/// Pack a single-channel raster of the given dimensions into the 48 packed
/// logo bytes; any shape other than exactly 48x8 is rejected.
pub fn encode_gray(width: u32, height: u32, pixels: &Vec<u8>) -> (r: Result<Vec<u8>, &'static str>)
    requires
        pixels@.len() == width * height,
    ensures
        width == 48 && height == 8 ==> (r matches Ok(v) && v@ == encoded(pixels@)),
        !(width == 48 && height == 8) ==> (r matches Err(e) && e@
            == "Image must be 48x8, 1-bit grayscale"@),
{
    if width == 48 && height == 8 {
        Ok(encode_logo(pixels))
    } else {
        Err("Image must be 48x8, 1-bit grayscale")
    }
}

} // verus!
