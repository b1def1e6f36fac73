//! Plain-text image output.
//!
//! The output format is a text header — `P3`, the two dimensions, the
//! maximum channel value 255 — followed by one line per pixel holding the
//! three channel integers, in row-major order from the top-left pixel.
//! The functions here build those bytes and prove them equal to the
//! specification of the document, so the ordering requirement (rows in
//! order, pixels left to right within a row) is part of the contract.

use crate::color::Pixel;
use vstd::prelude::*;

verus! {

/// Decimal digits of `n`, most significant first, as ASCII bytes.
pub open spec fn dec_digits(n: nat) -> Seq<u8>
    decreases n,
{
    if n < 10 {
        seq![(48 + n) as u8]
    } else {
        dec_digits(n / 10).push((48 + n % 10) as u8)
    }
}

/// Append the decimal digits of `n` to `out`.
pub fn push_decimal(out: &mut Vec<u8>, n: u32)
    ensures
        final(out)@ == old(out)@ + dec_digits(n as nat),
    decreases n,
{
    if n < 10 {
        out.push((48 + n) as u8);
        assert(out@ =~= old(out)@ + dec_digits(n as nat));
    } else {
        push_decimal(out, n / 10);
        out.push((48 + (n % 10)) as u8);
        assert(out@ =~= old(out)@ + dec_digits(n as nat));
    }
}

/// The text line of one pixel: the three channel integers separated by
/// single spaces, closed by a newline.
pub open spec fn pixel_line(p: Pixel) -> Seq<u8> {
    dec_digits(p.r as nat) + seq![32u8] + dec_digits(p.g as nat) + seq![32u8] + dec_digits(
        p.b as nat,
    ) + seq![10u8]
}

/// Append the text line of one pixel to `out`.
pub fn push_pixel_line(out: &mut Vec<u8>, p: Pixel)
    ensures
        final(out)@ == old(out)@ + pixel_line(p),
{
    push_decimal(out, p.r as u32);
    out.push(32);
    push_decimal(out, p.g as u32);
    out.push(32);
    push_decimal(out, p.b as u32);
    out.push(10);
    assert(out@ =~= old(out)@ + pixel_line(p));
}

/// The document header: `P3`, the image dimensions, and the maximum
/// channel value 255, each on a line of its own. A blank line closes the
/// header, as the emitted stream has always carried one.
pub open spec fn ppm_header(w: nat, h: nat) -> Seq<u8> {
    seq![80u8, 51u8, 10u8] + dec_digits(w) + seq![32u8] + dec_digits(h) + seq![
        10u8,
        50u8,
        53u8,
        53u8,
        10u8,
        10u8,
    ]
}

/// Append the document header for a `w` by `h` image to `out`.
pub fn push_ppm_header(out: &mut Vec<u8>, w: u32, h: u32)
    ensures
        final(out)@ == old(out)@ + ppm_header(w as nat, h as nat),
{
    out.push(80);
    out.push(51);
    out.push(10);
    push_decimal(out, w);
    out.push(32);
    push_decimal(out, h);
    out.push(10);
    out.push(50);
    out.push(53);
    out.push(53);
    out.push(10);
    out.push(10);
    assert(out@ =~= old(out)@ + ppm_header(w as nat, h as nat));
}

/// The body of the document: the text lines of the pixels, in order.
pub open spec fn pixel_lines(pixels: Seq<Pixel>) -> Seq<u8>
    decreases pixels.len(),
{
    if pixels.len() == 0 {
        Seq::empty()
    } else {
        pixel_lines(pixels.drop_last()) + pixel_line(pixels.last())
    }
}

/// The whole document for a `w` by `h` image: header, then one line per
/// pixel in row-major order from the top-left pixel.
pub open spec fn ppm_doc(w: nat, h: nat, pixels: Seq<Pixel>) -> Seq<u8> {
    ppm_header(w, h) + pixel_lines(pixels)
}

/// Append the text lines of a row of pixels to `out`, left to right.
pub fn push_pixel_lines(out: &mut Vec<u8>, row: &Vec<Pixel>)
    ensures
        final(out)@ == old(out)@ + pixel_lines(row@),
{
    let ghost base = out@;
    let mut i: usize = 0;
    while i < row.len()
        invariant
            i <= row.len(),
            out@ == base + pixel_lines(row@.take(i as int)),
        decreases row.len() - i,
    {
        push_pixel_line(out, row[i]);
        proof {
            assert(row@.take(i + 1 as int).drop_last() =~= row@.take(i as int));
            assert(row@.take(i + 1 as int).last() == row@[i as int]);
        }
        i = i + 1;
    }
    assert(row@.take(row@.len() as int) =~= row@);
}

/// Build the whole document from the pixels of a `w` by `h` image,
/// given in row-major order.
pub fn ppm_image(w: u32, h: u32, pixels: &Vec<Pixel>) -> (out: Vec<u8>)
    requires
        pixels@.len() == w as int * h as int,
    ensures
        out@ == ppm_doc(w as nat, h as nat, pixels@),
{
    let mut out: Vec<u8> = Vec::new();
    push_ppm_header(&mut out, w, h);
    push_pixel_lines(&mut out, pixels);
    out
}

/// The document body formed row by row: each scanline's lines in order,
/// rows from top to bottom.
pub open spec fn rows_lines(rows: Seq<Seq<Pixel>>) -> Seq<u8>
    decreases rows.len(),
{
    if rows.len() == 0 {
        Seq::empty()
    } else {
        rows_lines(rows.drop_last()) + pixel_lines(rows.last())
    }
}

/// The pixel lines of two runs of pixels, written one after the other,
/// are the pixel lines of their concatenation.
pub proof fn lemma_pixel_lines_concat(a: Seq<Pixel>, b: Seq<Pixel>)
    ensures
        pixel_lines(a + b) == pixel_lines(a) + pixel_lines(b),
    decreases b.len(),
{
    if b.len() == 0 {
        assert(a + b =~= a);
        assert(pixel_lines(a) + pixel_lines(b) =~= pixel_lines(a));
    } else {
        lemma_pixel_lines_concat(a, b.drop_last());
        assert((a + b).drop_last() =~= a + b.drop_last());
        assert((a + b).last() == b.last());
        assert(pixel_lines(a) + (pixel_lines(b.drop_last()) + pixel_line(b.last())) =~= (
        pixel_lines(a) + pixel_lines(b.drop_last())) + pixel_line(b.last()));
    }
}

/// Scanline results emitted row by row, top to bottom, form exactly the
/// row-major document body: reassembling per-row outputs in order loses
/// nothing and reorders nothing.
pub proof fn lemma_rows_assemble(rows: Seq<Seq<Pixel>>)
    ensures
        rows_lines(rows) == pixel_lines(rows.flatten()),
    decreases rows.len(),
{
    rows.lemma_flatten_and_flatten_alt_are_equivalent();
    if rows.len() == 0 {
    } else {
        lemma_rows_assemble(rows.drop_last());
        rows.drop_last().lemma_flatten_and_flatten_alt_are_equivalent();
        lemma_pixel_lines_concat(rows.drop_last().flatten_alt(), rows.last());
    }
}

/// Build the whole document from per-scanline rows, top row first. The
/// result equals the row-major document over the flattened pixels.
pub fn ppm_from_rows(w: u32, h: u32, rows: &Vec<Vec<Pixel>>) -> (out: Vec<u8>)
    requires
        rows@.len() == h as int,
        forall|j: int| 0 <= j < rows@.len() ==> (#[trigger] rows@[j])@.len() == w as int,
    ensures
        out@ == ppm_doc(w as nat, h as nat, rows@.map_values(|row: Vec<Pixel>| row@).flatten()),
{
    let ghost rowseq = rows@.map_values(|row: Vec<Pixel>| row@);
    let mut out: Vec<u8> = Vec::new();
    push_ppm_header(&mut out, w, h);
    let ghost base = out@;
    let mut j: usize = 0;
    while j < rows.len()
        invariant
            j <= rows.len(),
            rowseq == rows@.map_values(|row: Vec<Pixel>| row@),
            out@ == base + rows_lines(rowseq.take(j as int)),
        decreases rows.len() - j,
    {
        push_pixel_lines(&mut out, &rows[j]);
        proof {
            assert(rowseq.take(j + 1 as int).drop_last() =~= rowseq.take(j as int));
            assert(rowseq.take(j + 1 as int).last() == rowseq[j as int]);
            assert(rowseq[j as int] == rows@[j as int]@);
        }
        j = j + 1;
    }
    proof {
        assert(rowseq.take(rowseq.len() as int) =~= rowseq);
        lemma_rows_assemble(rowseq);
    }
    out
}

} // verus!
