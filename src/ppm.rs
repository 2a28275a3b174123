//! The plain-text PPM image stream: a header giving the format's magic
//! number, the size and the largest channel value, then one `r g b` line
//! per pixel.
use vstd::prelude::*;

verus! {

/// ASCII line feed.
pub const LINE_FEED: u8 = 10;

/// ASCII space.
pub const SPACE: u8 = 32;

/// ASCII `0`; the digit `d` is written as `DIGIT_ZERO + d`.
pub const DIGIT_ZERO: u8 = 48;

/// One pixel of the output image, each channel in `0..=255`.
#[derive(Clone, Copy, Debug, PartialEq, Eq, Structural)]
pub struct Rgb {
    pub r: u8,
    pub g: u8,
    pub b: u8,
}

/// The decimal digits of `n`, most significant first, with no leading zero
/// (zero itself is the single digit `0`).
pub open spec fn decimal(n: nat) -> Seq<u8>
    decreases n,
{
    if n < 10 {
        seq![(DIGIT_ZERO + n) as u8]
    } else {
        decimal(n / 10).push((DIGIT_ZERO + n % 10) as u8)
    }
}

/// The header: the magic number of plain-text PPM (the bytes 80 and 51),
/// then `<width> <height>`, then the largest channel value `255`, each on a
/// line of its own.
pub open spec fn header_text(width: nat, height: nat) -> Seq<u8> {
    seq![80u8, 51u8, LINE_FEED] + decimal(width) + seq![SPACE] + decimal(height) + seq![
        LINE_FEED,
        50u8,
        53u8,
        53u8,
        LINE_FEED,
    ]
}

/// One pixel's line: the three channels in decimal, separated by spaces.
pub open spec fn pixel_text(p: Rgb) -> Seq<u8> {
    decimal(p.r as nat) + seq![SPACE] + decimal(p.g as nat) + seq![SPACE] + decimal(p.b as nat)
        + seq![LINE_FEED]
}

/// The lines of all pixels, in the order given.
pub open spec fn pixels_text(ps: Seq<Rgb>) -> Seq<u8>
    decreases ps.len(),
{
    if ps.len() == 0 {
        Seq::empty()
    } else {
        pixels_text(ps.drop_last()) + pixel_text(ps.last())
    }
}

/// The whole stream of an image whose pixels are listed row by row, top row
/// first, each row from left to right.
pub open spec fn image_text(width: nat, height: nat, ps: Seq<Rgb>) -> Seq<u8> {
    header_text(width, height) + pixels_text(ps)
}

/// The number of line feeds in `s`.
pub open spec fn line_count(s: Seq<u8>) -> nat
    decreases s.len(),
{
    if s.len() == 0 {
        0
    } else {
        line_count(s.drop_last()) + if s.last() == LINE_FEED {
            1nat
        } else {
            0nat
        }
    }
}

proof fn lemma_line_count_concat(a: Seq<u8>, b: Seq<u8>)
    ensures
        line_count(a + b) == line_count(a) + line_count(b),
    decreases b.len(),
{
    if b.len() == 0 {
        assert(a + b =~= a);
    } else {
        assert((a + b).drop_last() =~= a + b.drop_last());
        lemma_line_count_concat(a, b.drop_last());
    }
}

proof fn lemma_decimal_is_one_line_piece(n: nat)
    ensures
        line_count(decimal(n)) == 0,
    decreases n,
{
    let d = decimal(n);
    if n >= 10 {
        lemma_decimal_is_one_line_piece(n / 10);
        assert(d.drop_last() =~= decimal(n / 10));
        assert(d.last() == (DIGIT_ZERO + n % 10) as u8);
    } else {
        assert(d.drop_last() =~= Seq::<u8>::empty());
        assert(line_count(d.drop_last()) == 0);
        assert(d.last() == (DIGIT_ZERO + n) as u8);
    }
    assert(d.last() != LINE_FEED);
}

proof fn lemma_pixel_text_is_one_line(p: Rgb)
    ensures
        line_count(pixel_text(p)) == 1,
{
    let (r, g, b) = (decimal(p.r as nat), decimal(p.g as nat), decimal(p.b as nat));
    lemma_decimal_is_one_line_piece(p.r as nat);
    lemma_decimal_is_one_line_piece(p.g as nat);
    lemma_decimal_is_one_line_piece(p.b as nat);
    reveal_with_fuel(line_count, 2);
    lemma_line_count_concat(r, seq![SPACE]);
    lemma_line_count_concat(r + seq![SPACE], g);
    lemma_line_count_concat(r + seq![SPACE] + g, seq![SPACE]);
    lemma_line_count_concat(r + seq![SPACE] + g + seq![SPACE], b);
    lemma_line_count_concat(r + seq![SPACE] + g + seq![SPACE] + b, seq![LINE_FEED]);
}

proof fn lemma_pixels_text_lines(ps: Seq<Rgb>)
    ensures
        line_count(pixels_text(ps)) == ps.len(),
    decreases ps.len(),
{
    if ps.len() > 0 {
        lemma_pixels_text_lines(ps.drop_last());
        lemma_pixel_text_is_one_line(ps.last());
        lemma_line_count_concat(pixels_text(ps.drop_last()), pixel_text(ps.last()));
    }
}

proof fn lemma_header_lines(width: nat, height: nat)
    ensures
        line_count(header_text(width, height)) == 3,
{
    let magic = seq![80u8, 51u8, LINE_FEED];
    let (w, h) = (decimal(width), decimal(height));
    let tail = seq![LINE_FEED, 50u8, 53u8, 53u8, LINE_FEED];
    lemma_decimal_is_one_line_piece(width);
    lemma_decimal_is_one_line_piece(height);
    reveal_with_fuel(line_count, 6);
    lemma_line_count_concat(magic, w);
    lemma_line_count_concat(magic + w, seq![SPACE]);
    lemma_line_count_concat(magic + w + seq![SPACE], h);
    lemma_line_count_concat(magic + w + seq![SPACE] + h, tail);
}

/// The stream of a `width` by `height` image holds one line per pixel after
/// the three lines of the header.
pub proof fn lemma_one_line_per_pixel(width: nat, height: nat, ps: Seq<Rgb>)
    ensures
        line_count(image_text(width, height, ps)) == 3 + ps.len(),
{
    lemma_header_lines(width, height);
    lemma_pixels_text_lines(ps);
    lemma_line_count_concat(header_text(width, height), pixels_text(ps));
}

/// Appends the decimal digits of `n` to `out`.
pub fn push_decimal(out: &mut Vec<u8>, n: u32)
    ensures
        final(out)@ == old(out)@ + decimal(n as nat),
    decreases n,
{
    if n >= 10 {
        push_decimal(out, n / 10);
    }
    out.push(DIGIT_ZERO + (n % 10) as u8);
    assert(out@ =~= old(out)@ + decimal(n as nat));
}

/// The header of a `width` by `height` image.
pub fn header(width: u32, height: u32) -> (r: Vec<u8>)
    ensures
        r@ == header_text(width as nat, height as nat),
{
    let mut out: Vec<u8> = Vec::new();
    out.push(80);
    out.push(51);
    out.push(LINE_FEED);
    push_decimal(&mut out, width);
    out.push(SPACE);
    push_decimal(&mut out, height);
    out.push(LINE_FEED);
    out.push(50);
    out.push(53);
    out.push(53);
    out.push(LINE_FEED);
    assert(out@ =~= header_text(width as nat, height as nat));
    out
}

/// Appends the line of pixel `p` to `out`.
pub fn push_pixel(out: &mut Vec<u8>, p: Rgb)
    ensures
        final(out)@ == old(out)@ + pixel_text(p),
{
    push_decimal(out, p.r as u32);
    out.push(SPACE);
    push_decimal(out, p.g as u32);
    out.push(SPACE);
    push_decimal(out, p.b as u32);
    out.push(LINE_FEED);
    assert(out@ =~= old(out)@ + pixel_text(p));
}

/// The line of a single pixel, as written after the header.
pub fn pixel_line(p: Rgb) -> (r: Vec<u8>)
    ensures
        r@ == pixel_text(p),
{
    let mut out: Vec<u8> = Vec::new();
    push_pixel(&mut out, p);
    assert(out@ =~= pixel_text(p));
    out
}

/// The whole stream of a `width` by `height` image whose pixels are listed
/// row by row, top row first; `None` when the number of pixels is not
/// `width * height`.
pub fn encode_image(width: u32, height: u32, pixels: &Vec<Rgb>) -> (r: Option<Vec<u8>>)
    ensures
        r is None <==> pixels@.len() != width as int * height as int,
        r matches Some(bytes) ==> bytes@ == image_text(width as nat, height as nat, pixels@),
{
    assert(width as u64 * height as u64 <= u64::MAX) by (nonlinear_arith)
        requires
            width <= u32::MAX,
            height <= u32::MAX,
    ;
    if pixels.len() as u64 != width as u64 * height as u64 {
        return None;
    }
    let mut out = header(width, height);
    let mut i: usize = 0;
    while i < pixels.len()
        invariant
            i <= pixels@.len(),
            out@ == header_text(width as nat, height as nat) + pixels_text(
                pixels@.subrange(0, i as int),
            ),
        decreases pixels@.len() - i,
    {
        let ghost before = out@;
        push_pixel(&mut out, pixels[i]);
        proof {
            let done = pixels@.subrange(0, i + 1);
            assert(done.drop_last() =~= pixels@.subrange(0, i as int));
            assert(done.last() == pixels@[i as int]);
            assert(out@ =~= header_text(width as nat, height as nat) + pixels_text(done));
        }
        i = i + 1;
    }
    assert(pixels@.subrange(0, pixels@.len() as int) =~= pixels@);
    Some(out)
}

} // verus!
