//! The portable pixmap format: a short text header followed by the pixels in
//! row-major order, either as raw bytes (`P6`) or as decimal text (`P3`).
use vstd::prelude::*;
use vstd::utf8::encode_utf8;

use super::{size_exceeds, ExportError};
use crate::decimal::{as_text, decimal, lemma_as_text_concat, push_decimal, push_decimal_text};

verus! {

/// The largest channel value, written in the header.
pub const MAX_CHANNEL_VALUE: u8 = 255;

/// The second byte of a binary pixmap: the digit six.
pub const BINARY_MAGIC: u8 = 54;

/// The second byte of a text pixmap: the digit three.
pub const ASCII_MAGIC: u8 = 51;

/// The first byte of every pixmap.
pub const LETTER_P: u8 = 80;

/// Ends each header field but the first size.
pub const LINE_FEED: u8 = 10;

/// Separates the width from the height.
pub const SPACE: u8 = 32;

/// One pixel with each channel already scaled to `0..=255`.
#[derive(Debug, Clone, Copy, PartialEq, Eq, Structural)]
pub struct Rgb8 {
    pub r: u8,
    pub g: u8,
    pub b: u8,
}

/// One pixel with each channel already written out as text.
pub struct PixelText {
    pub r: String,
    pub g: String,
    pub b: String,
}

/// `P<magic>\n<width> <height>\n255\n`
pub open spec fn header(magic: u8, width: nat, height: nat) -> Seq<u8> {
    seq![LETTER_P, magic, LINE_FEED] + decimal(width) + seq![SPACE] + decimal(height) + seq![
        LINE_FEED,
    ] + decimal(MAX_CHANNEL_VALUE as nat) + seq![LINE_FEED]
}

/// The channels of the pixels, three bytes each, in the order given.
pub open spec fn pixel_bytes(pixels: Seq<Rgb8>) -> Seq<u8>
    decreases pixels.len(),
{
    if pixels.len() == 0 {
        Seq::empty()
    } else {
        pixel_bytes(pixels.drop_last()) + seq![pixels.last().r, pixels.last().g, pixels.last().b]
    }
}

/// The pixel section holds exactly three bytes per pixel: pixel `i` is
/// stored at offsets `3i`, `3i + 1` and `3i + 2`, red, green and blue.
pub proof fn lemma_pixel_bytes_layout(pixels: Seq<Rgb8>)
    ensures
        pixel_bytes(pixels).len() == 3 * pixels.len(),
        forall|i: int|
            #![trigger pixels[i]]
            0 <= i < pixels.len() ==> {
                &&& pixel_bytes(pixels)[3 * i] == pixels[i].r
                &&& pixel_bytes(pixels)[3 * i + 1] == pixels[i].g
                &&& pixel_bytes(pixels)[3 * i + 2] == pixels[i].b
            },
    decreases pixels.len(),
{
    if pixels.len() > 0 {
        let rest = pixels.drop_last();
        lemma_pixel_bytes_layout(rest);
        assert forall|i: int| #![trigger pixels[i]] 0 <= i < pixels.len() implies {
            &&& pixel_bytes(pixels)[3 * i] == pixels[i].r
            &&& pixel_bytes(pixels)[3 * i + 1] == pixels[i].g
            &&& pixel_bytes(pixels)[3 * i + 2] == pixels[i].b
        } by {
            if i < rest.len() {
                assert(pixels[i] == rest[i]);
            }
        }
    }
}

/// A binary pixmap of the given size: the header, then the first
/// `width * height` of `pixels` in row-major order.
pub open spec fn binary_ppm(width: nat, height: nat, pixels: Seq<Rgb8>) -> Seq<u8> {
    header(BINARY_MAGIC, width, height) + pixel_bytes(pixels.take((width * height) as int))
}

/// `r g b`
pub open spec fn pixel_line(pixel: PixelText) -> Seq<char> {
    pixel.r@ + seq![' '] + pixel.g@ + seq![' '] + pixel.b@
}

/// The pixel lines, separated by line feeds.
pub open spec fn pixel_lines(pixels: Seq<PixelText>) -> Seq<char>
    decreases pixels.len(),
{
    if pixels.len() == 0 {
        Seq::empty()
    } else if pixels.len() == 1 {
        pixel_line(pixels[0])
    } else {
        pixel_lines(pixels.drop_last()) + seq!['\n'] + pixel_line(pixels.last())
    }
}

/// The text of a text pixmap of the given size holding `pixels`.
pub open spec fn ascii_ppm_text(width: nat, height: nat, pixels: Seq<PixelText>) -> Seq<char> {
    as_text(header(ASCII_MAGIC, width, height)) + pixel_lines(pixels)
}

/// Whether a `width` × `height` image needs more than `available` pixels.
fn exceeds(width: usize, height: usize, available: usize) -> (r: bool)
    ensures
        r == size_exceeds(width as nat, height as nat, available as nat),
{
    match width.checked_mul(height) {
        Some(needed) => needed > available,
        None => true,
    }
}

/// Appends the header of a pixmap.
fn push_header(out: &mut Vec<u8>, magic: u8, width: usize, height: usize)
    ensures
        final(out)@ == old(out)@ + header(magic, width as nat, height as nat),
{
    out.push(LETTER_P);
    out.push(magic);
    out.push(LINE_FEED);
    push_decimal(out, width as u128);
    out.push(SPACE);
    push_decimal(out, height as u128);
    out.push(LINE_FEED);
    push_decimal(out, MAX_CHANNEL_VALUE as u128);
    out.push(LINE_FEED);
    assert(final(out)@ =~= old(out)@ + header(magic, width as nat, height as nat));
}

/// Returns the bytes of a binary pixmap (`P6`) of the given size.
///
/// The first `width * height` pixels of `rgb_data` are written, three bytes
/// each, so the file holds exactly the image; it is an error when `rgb_data`
/// holds fewer than `width * height` pixels.
pub fn rgb_to_binary_ppm(rgb_data: &[Rgb8], width: usize, height: usize) -> (r: Result<
    Vec<u8>,
    ExportError,
>)
    ensures
        match r {
            Ok(bytes) => !size_exceeds(width as nat, height as nat, rgb_data@.len())
                && bytes@ == binary_ppm(width as nat, height as nat, rgb_data@),
            Err(e) => size_exceeds(width as nat, height as nat, rgb_data@.len()) && e
                == ExportError::SizeExceedsData(width, height, rgb_data@.len() as usize),
        },
{
    let pixel_count: usize = match width.checked_mul(height) {
        Some(needed) if needed <= rgb_data.len() => needed,
        _ => {
            return Err(ExportError::SizeExceedsData(width, height, rgb_data.len()));
        },
    };
    let mut output: Vec<u8> = Vec::new();
    push_header(&mut output, BINARY_MAGIC, width, height);
    let ghost head = output@;
    let mut i: usize = 0;
    while i < pixel_count
        invariant
            i <= pixel_count,
            pixel_count == width * height,
            pixel_count <= rgb_data@.len(),
            head == header(BINARY_MAGIC, width as nat, height as nat),
            output@ == head + pixel_bytes(rgb_data@.take(i as int)),
        decreases pixel_count - i,
    {
        let color = rgb_data[i];
        output.push(color.r);
        output.push(color.g);
        output.push(color.b);
        proof {
            assert(rgb_data@.take(i + 1).drop_last() =~= rgb_data@.take(i as int));
            assert(output@ =~= head + pixel_bytes(rgb_data@.take(i + 1)));
        }
        i += 1;
    }
    Ok(output)
}

/// Appends the header of a pixmap as text.
fn push_header_text(out: &mut String, magic: u8, width: usize, height: usize)
    ensures
        final(out)@ == old(out)@ + as_text(header(magic, width as nat, height as nat)),
{
    out.push(LETTER_P as char);
    out.push(magic as char);
    out.push(LINE_FEED as char);
    push_decimal_text(out, width as u128);
    out.push(SPACE as char);
    push_decimal_text(out, height as u128);
    out.push(LINE_FEED as char);
    push_decimal_text(out, MAX_CHANNEL_VALUE as u128);
    out.push(LINE_FEED as char);
    proof {
        let w = decimal(width as nat);
        let h = decimal(height as nat);
        let m = decimal(MAX_CHANNEL_VALUE as nat);
        lemma_as_text_concat(seq![LETTER_P, magic, LINE_FEED], w);
        lemma_as_text_concat(seq![LETTER_P, magic, LINE_FEED] + w, seq![SPACE]);
        lemma_as_text_concat(seq![LETTER_P, magic, LINE_FEED] + w + seq![SPACE], h);
        lemma_as_text_concat(seq![LETTER_P, magic, LINE_FEED] + w + seq![SPACE] + h, seq![LINE_FEED]);
        lemma_as_text_concat(
            seq![LETTER_P, magic, LINE_FEED] + w + seq![SPACE] + h + seq![LINE_FEED],
            m,
        );
        lemma_as_text_concat(
            seq![LETTER_P, magic, LINE_FEED] + w + seq![SPACE] + h + seq![LINE_FEED] + m,
            seq![LINE_FEED],
        );
        assert(as_text(seq![LETTER_P, magic, LINE_FEED]) =~= seq![
            LETTER_P as char,
            magic as char,
            LINE_FEED as char,
        ]);
        assert(as_text(seq![SPACE]) =~= seq![SPACE as char]);
        assert(as_text(seq![LINE_FEED]) =~= seq![LINE_FEED as char]);
        assert(final(out)@ =~= old(out)@ + as_text(header(magic, width as nat, height as nat)));
    }
}

/// Returns the bytes of a text pixmap (`P3`) of the given size, one pixel
/// per line after the header, its channels separated by spaces.
///
/// Every pixel of `rgb_data` is written; it is an error when `rgb_data`
/// holds fewer than `width * height` pixels.
pub fn rgb_to_ascii_ppm(rgb_data: &[PixelText], width: usize, height: usize) -> (r: Result<
    Vec<u8>,
    ExportError,
>)
    ensures
        match r {
            Ok(bytes) => !size_exceeds(width as nat, height as nat, rgb_data@.len()) && bytes@
                == encode_utf8(ascii_ppm_text(width as nat, height as nat, rgb_data@)),
            Err(e) => size_exceeds(width as nat, height as nat, rgb_data@.len()) && e
                == ExportError::SizeExceedsData(width, height, rgb_data@.len() as usize),
        },
{
    if exceeds(width, height, rgb_data.len()) {
        return Err(ExportError::SizeExceedsData(width, height, rgb_data.len()));
    }
    let mut output = String::new();
    push_header_text(&mut output, ASCII_MAGIC, width, height);
    let ghost head = output@;
    let mut i: usize = 0;
    while i < rgb_data.len()
        invariant
            i <= rgb_data@.len(),
            head == as_text(header(ASCII_MAGIC, width as nat, height as nat)),
            output@ == head + pixel_lines(rgb_data@.take(i as int)),
        decreases rgb_data@.len() - i,
    {
        if i > 0 {
            output.push('\n');
        }
        let color = &rgb_data[i];
        output.append(color.r.as_str());
        output.push(' ');
        output.append(color.g.as_str());
        output.push(' ');
        output.append(color.b.as_str());
        proof {
            assert(rgb_data@.take(i + 1).drop_last() =~= rgb_data@.take(i as int));
            assert(rgb_data@.take(i + 1).last() == rgb_data@[i as int]);
            assert(output@ =~= head + pixel_lines(rgb_data@.take(i + 1)));
        }
        i += 1;
    }
    assert(rgb_data@.take(i as int) =~= rgb_data@);
    Ok(output.as_str().as_bytes_vec())
}

} // verus!
