//! Pixels of four bytes.

use vstd::prelude::*;

verus! {

/// The bytes in a progressive tile.
pub const TILE_BYTES: usize = 16_384;

/// `pixels` with the first and the third byte of each whole pixel exchanged.
pub open spec fn red_blue_exchanged(pixels: Seq<u8>) -> Seq<u8> {
    Seq::new(
        pixels.len(),
        |i: int|
            if i / 4 * 4 + 4 > pixels.len() {
                pixels[i]
            } else if i % 4 == 0 {
                pixels[i + 2]
            } else if i % 4 == 2 {
                pixels[i - 2]
            } else {
                pixels[i]
            },
    )
}

/// Turns BGRA pixels into RGBA pixels. Bytes behind the last whole pixel stay.
pub fn bgra_to_rgba(pixels: &mut [u8])
    ensures
        final(pixels)@ == red_blue_exchanged(old(pixels)@),
{
    let total: usize = pixels.len();
    let mut at: usize = 0;
    while total - at >= 4
        invariant
            at <= total,
            at % 4 == 0,
            pixels@.len() == total,
            old(pixels)@.len() == total,
            forall|i: int| 0 <= i < at ==> pixels@[i] == red_blue_exchanged(old(pixels)@)[i],
            forall|i: int| at <= i < total ==> pixels@[i] == old(pixels)@[i],
        decreases total - at,
    {
        let blue: u8 = pixels[at];
        let red: u8 = pixels[at + 2];
        pixels[at] = red;
        pixels[at + 2] = blue;
        at = at + 4;
    }
}

/// Exchanging red and blue twice changes nothing.
pub proof fn law_exchange_is_involution(pixels: Seq<u8>)
    ensures
        red_blue_exchanged(red_blue_exchanged(pixels)) == pixels,
{
    let once = red_blue_exchanged(pixels);
    assert forall|i: int| 0 <= i < pixels.len() implies red_blue_exchanged(once)[i]
        == pixels[i] by {
        if i / 4 * 4 + 4 <= pixels.len() {
            if i % 4 == 0 {
                assert((i + 2) / 4 == i / 4);
            } else if i % 4 == 2 {
                assert((i - 2) / 4 == i / 4);
            }
        }
    }
    assert(red_blue_exchanged(once) =~= pixels);
}

/// The first `width` pixels of each of the first `rows` rows of a tile.
pub open spec fn left_part(pixels: Seq<u8>, width: nat, rows: nat) -> Seq<u8>
    decreases rows,
{
    if rows == 0 {
        Seq::empty()
    } else {
        left_part(pixels, width, (rows - 1) as nat) + pixels.subrange(
            256 * (rows - 1),
            256 * (rows - 1) + 4 * width,
        )
    }
}

/// How many of the first `height` rows of a tile are there whole.
pub open spec fn whole_rows(pixels: Seq<u8>, height: nat) -> nat {
    if height <= pixels.len() / 256 {
        height
    } else {
        pixels.len() / 256
    }
}

/// The part of a tile that lies on a surface of which `width` by `height` pixels
/// are left: the tile itself where that is all of it.
pub open spec fn cropped(pixels: Seq<u8>, width: u16, height: u16) -> Seq<u8> {
    if width == 64 && height == 64 {
        pixels
    } else {
        left_part(pixels, width as nat, whole_rows(pixels, height as nat))
    }
}

/// Keeps the part of a tile that lies on the surface.
pub fn crop_rgba_tile(pixels: &[u8], width: u16, height: u16) -> (part: Vec<u8>)
    requires
        width <= 64 || height == 0 || pixels@.len() < 256,
    ensures
        part@ == cropped(pixels@, width, height),
{
    let total: usize = pixels.len();
    let mut part: Vec<u8> = Vec::new();
    if width == 64 && height == 64 {
        part.extend_from_slice(pixels);
        proof {
            assert(part@ =~= pixels@);
        }
        return part;
    }
    let wide: usize = 4 * width as usize;
    let mut row: usize = 0;
    let mut at: usize = 0;
    while row < height as usize && total - at >= 256
        invariant
            at <= total,
            at == 256 * row,
            total == pixels@.len(),
            row <= height,
            wide == 4 * width,
            width <= 64 || height == 0 || pixels@.len() < 256,
            row <= whole_rows(pixels@, height as nat),
            part@ == left_part(pixels@, width as nat, row as nat),
        decreases height - row,
    {
        let line = vstd::slice::slice_subrange(pixels, at, at + wide);
        let ghost before = part@;
        part.extend_from_slice(line);
        proof {
            assert(part@ =~= before + line@);
        }
        row = row + 1;
        at = at + 256;
    }
    part
}

/// `rows` rows of `width` pixels take four bytes for each pixel.
pub proof fn lemma_left_part_len(pixels: Seq<u8>, width: nat, rows: nat)
    requires
        width <= 64,
        256 * rows <= pixels.len(),
    ensures
        left_part(pixels, width, rows).len() == 4 * width * rows,
    decreases rows,
{
    if rows > 0 {
        lemma_left_part_len(pixels, width, (rows - 1) as nat);
        assert(4 * width * rows == 4 * width * (rows - 1) + 4 * width) by (nonlinear_arith)
            requires
                rows > 0,
        ;
    } else {
        assert(4 * width * rows == 0) by (nonlinear_arith)
            requires
                rows == 0,
        ;
    }
}

/// A whole tile is cropped to `width` by `height` pixels of four bytes, and the
/// byte at `column` of `row` of the part is the byte at that place of the tile.
pub proof fn law_crop_keeps_places(pixels: Seq<u8>, width: u16, height: u16, row: int, column: int)
    requires
        pixels.len() == TILE_BYTES,
        width <= 64,
        height <= 64,
        0 <= row < height,
        0 <= column < 4 * width,
    ensures
        cropped(pixels, width, height).len() == 4 * width * height,
        cropped(pixels, width, height)[4 * width * row + column] == pixels[256 * row + column],
{
    lemma_left_part_len(pixels, width as nat, height as nat);
    lemma_left_part_place(pixels, width as nat, height as nat, row, column);
}

/// Where the byte at `column` of `row` stands among the kept rows.
proof fn lemma_left_part_place(pixels: Seq<u8>, width: nat, rows: nat, row: int, column: int)
    requires
        width <= 64,
        256 * rows <= pixels.len(),
        0 <= row < rows,
        0 <= column < 4 * width,
    ensures
        0 <= 4 * width * row + column < left_part(pixels, width, rows).len(),
        left_part(pixels, width, rows)[4 * width * row + column] == pixels[256 * row + column],
    decreases rows,
{
    lemma_left_part_len(pixels, width, (rows - 1) as nat);
    lemma_left_part_len(pixels, width, rows);
    assert(4 * width * rows == 4 * width * (rows - 1) + 4 * width) by (nonlinear_arith)
        requires
            rows > 0,
    ;
    if row < rows - 1 {
        lemma_left_part_place(pixels, width, (rows - 1) as nat, row, column);
    } else {
        assert(row == rows - 1);
    }
}

/// Of each whole pixel, the first and the third byte change places and the others stay;
/// so do the bytes behind the last whole pixel.
pub proof fn law_exchange_moves_bytes(pixels: Seq<u8>, at: int)
    requires
        0 <= at,
    ensures
        red_blue_exchanged(pixels).len() == pixels.len(),
        4 * at + 4 <= pixels.len() ==> ({
            let out = red_blue_exchanged(pixels);
            &&& out[4 * at] == pixels[4 * at + 2]
            &&& out[4 * at + 1] == pixels[4 * at + 1]
            &&& out[4 * at + 2] == pixels[4 * at]
            &&& out[4 * at + 3] == pixels[4 * at + 3]
        }),
        at < pixels.len() < at / 4 * 4 + 4 ==> red_blue_exchanged(pixels)[at] == pixels[at],
{
}

/// A tile of rows of 64 pixels is cropped to `width` pixels of each row, of the first
/// `height` rows or of as many whole rows as there are; a crop to 64 by 64 pixels is all
/// of it.
pub proof fn law_crop_takes_the_corner(
    pixels: Seq<u8>,
    width: u16,
    height: u16,
    row: int,
    column: int,
)
    requires
        width <= 64,
    ensures
        width == 64 && height == 64 ==> cropped(pixels, width, height) == pixels,
        !(width == 64 && height == 64) ==> ({
            let part = cropped(pixels, width, height);
            let rows = if 256 * height <= pixels.len() {
                height as int
            } else {
                pixels.len() as int / 256
            };
            &&& part.len() == 4 * width * rows
            &&& (0 <= row < rows && 0 <= column < 4 * width ==> part[4 * width * row + column]
                == pixels[256 * row + column])
        }),
{
    if !(width == 64 && height == 64) {
        let rows = whole_rows(pixels, height as nat);
        lemma_left_part_len(pixels, width as nat, rows);
        if 0 <= row < rows && 0 <= column < 4 * width {
            lemma_left_part_place(pixels, width as nat, rows, row, column);
        }
    }
}

} // verus!
