use vstd::prelude::*;

use crate::layout::{valid_dims, spec_frame_size, MediaError, PixelLayout};

verus! {

/// The 12-byte BMP file header that follows the two-byte "BM" signature:
/// whole file size, a reserved word, and the offset of the pixel data.
pub struct BmpHeader {
    pub image_size: i32,
    pub blank: i32,
    pub start_position: i32,
}

/// The 40-byte BMP info header of an uncompressed 24-bit bitmap. A negative
/// `height` marks top-down row order.
pub struct InfoHeader {
    pub length: i32,
    pub width: i32,
    pub height: i32,
    pub color_plane: u16,
    pub bit_color: u16,
    pub zip_format: i32,
    pub real_size: i32,
    pub x_pels: i32,
    pub y_pels: i32,
    pub color_use: i32,
    pub color_important: i32,
}

/// The two-byte little-endian encoding of a 16-bit value.
pub open spec fn u16_le_bytes(x: u16) -> Seq<u8> {
    seq![(x % 256) as u8, (x / 256) as u8]
}

/// The four-byte little-endian encoding of a 32-bit value.
pub open spec fn u32_le_bytes(x: u32) -> Seq<u8> {
    seq![
        (x % 256) as u8,
        ((x / 256) % 256) as u8,
        ((x / 65536) % 256) as u8,
        ((x / 16777216) % 256) as u8,
    ]
}

/// The 32-bit two's-complement reading of a signed value.
pub open spec fn i32_as_u32(x: i32) -> u32 {
    if x >= 0 {
        x as u32
    } else {
        (x + 0x1_0000_0000) as u32
    }
}

/// The four-byte little-endian two's-complement encoding of an i32.
pub open spec fn i32_le_bytes(x: i32) -> Seq<u8> {
    u32_le_bytes(i32_as_u32(x))
}

/// The twelve bytes of the file header: its three fields in order, each
/// four bytes little-endian, no padding.
pub open spec fn bmp_header_bytes(h: BmpHeader) -> Seq<u8> {
    i32_le_bytes(h.image_size) + i32_le_bytes(h.blank) + i32_le_bytes(h.start_position)
}

/// The forty bytes of the info header: its eleven fields in order, each
/// little-endian, no padding.
pub open spec fn info_header_bytes(h: InfoHeader) -> Seq<u8> {
    i32_le_bytes(h.length) + i32_le_bytes(h.width) + i32_le_bytes(h.height) + u16_le_bytes(
        h.color_plane,
    ) + u16_le_bytes(h.bit_color) + i32_le_bytes(h.zip_format) + i32_le_bytes(h.real_size)
        + i32_le_bytes(h.x_pels) + i32_le_bytes(h.y_pels) + i32_le_bytes(h.color_use)
        + i32_le_bytes(h.color_important)
}

/// A packed RGB24 buffer with the first and third byte of every pixel
/// exchanged: R,G,B pixels become the B,G,R order that BMP stores.
pub open spec fn swap_rb(s: Seq<u8>) -> Seq<u8> {
    Seq::new(
        s.len(),
        |k: int|
            if k % 3 == 0 && k + 2 < s.len() {
                s[k + 2]
            } else if k % 3 == 2 {
                s[k - 2]
            } else {
                s[k]
            },
    )
}

/// The 54 bytes that precede the pixel data of a width-by-height BMP file:
/// the "BM" signature, the file header (pixel data at byte 54, directly
/// after the headers), and the info header (height stored negated, for
/// top-down row order).
pub open spec fn bmp_prefix_bytes(w: int, h: int) -> Seq<u8> {
    seq![66u8, 77u8] + bmp_header_bytes(
        BmpHeader { image_size: (3 * (w * h) + 54) as i32, blank: 0, start_position: 54 },
    ) + info_header_bytes(
        InfoHeader {
            length: 40,
            width: w as i32,
            height: (-h) as i32,
            color_plane: 1,
            bit_color: 24,
            zip_format: 0,
            real_size: (3 * (w * h)) as i32,
            x_pels: 0,
            y_pels: 0,
            color_use: 0,
            color_important: 0,
        },
    )
}

/// The whole BMP file for a width-by-height frame: the 54 header bytes,
/// then the pixel data with red and blue swapped.
pub open spec fn bmp_file_bytes(w: int, h: int, pixels: Seq<u8>) -> Seq<u8> {
    bmp_prefix_bytes(w, h) + swap_rb(pixels)
}

/// Relies on bincode::serialize for i32 values: bincode's top-level
/// functions use the fixed-width little-endian integer encoding, so an i32
/// becomes its four two's-complement bytes, least significant first.
/// Writing a plain integer into a growable vector cannot fail.
#[verifier::external_body]
fn bincode_i32_le(x: i32) -> (r: Vec<u8>)
    ensures
        r@ == i32_le_bytes(x),
{
    bincode::serialize(&x).unwrap()
}

/// Relies on bincode::serialize for u16 values: the same fixed-width
/// little-endian encoding, two bytes, least significant first.
#[verifier::external_body]
fn bincode_u16_le(x: u16) -> (r: Vec<u8>)
    ensures
        r@ == u16_le_bytes(x),
{
    bincode::serialize(&x).unwrap()
}

/// Encodes the file header as its twelve on-disk bytes.
pub fn encode_bmp_header(h: &BmpHeader) -> (r: Vec<u8>)
    ensures
        r@ == bmp_header_bytes(*h),
{
    let mut out = bincode_i32_le(h.image_size);
    let mut t = bincode_i32_le(h.blank);
    out.append(&mut t);
    let mut t = bincode_i32_le(h.start_position);
    out.append(&mut t);
    out
}

/// Encodes the info header as its forty on-disk bytes.
pub fn encode_info_header(h: &InfoHeader) -> (r: Vec<u8>)
    ensures
        r@ == info_header_bytes(*h),
{
    let mut out = bincode_i32_le(h.length);
    let mut t = bincode_i32_le(h.width);
    out.append(&mut t);
    let mut t = bincode_i32_le(h.height);
    out.append(&mut t);
    let mut t = bincode_u16_le(h.color_plane);
    out.append(&mut t);
    let mut t = bincode_u16_le(h.bit_color);
    out.append(&mut t);
    let mut t = bincode_i32_le(h.zip_format);
    out.append(&mut t);
    let mut t = bincode_i32_le(h.real_size);
    out.append(&mut t);
    let mut t = bincode_i32_le(h.x_pels);
    out.append(&mut t);
    let mut t = bincode_i32_le(h.y_pels);
    out.append(&mut t);
    let mut t = bincode_i32_le(h.color_use);
    out.append(&mut t);
    let mut t = bincode_i32_le(h.color_important);
    out.append(&mut t);
    out
}

/// Encodes one packed RGB24 frame as a complete top-down 24-bit BMP file.
/// The caller's buffer is left untouched; the red/blue swap happens on the
/// copy inside the returned file image.
pub fn rgb24_to_bmp_frame(buffer: &Vec<u8>, width: usize, height: usize) -> (r: Result<
    Vec<u8>,
    MediaError,
>)
    ensures
        r is Ok <==> (valid_dims(PixelLayout::Rgb24, width as int, height as int) && buffer@.len()
            == spec_frame_size(PixelLayout::Rgb24, width as int, height as int) && spec_frame_size(
            PixelLayout::Rgb24,
            width as int,
            height as int,
        ) + 54 <= i32::MAX),
        r is Err ==> r->Err_0 == MediaError::InvalidDimensions,
        r is Ok ==> r->Ok_0@ == bmp_file_bytes(width as int, height as int, buffer@),
{
    let blen = buffer.len();
    let size = match crate::layout::frame_size(PixelLayout::Rgb24, width, height) {
        Ok(size) => size,
        Err(e) => {
            return Err(e);
        },
    };
    if blen != size {
        return Err(MediaError::InvalidDimensions);
    }
    if size > (i32::MAX - 54) as usize {
        return Err(MediaError::InvalidDimensions);
    }
    proof {
        assert((height as int) <= (width as int) * (height as int) && (width as int) <= (
        width as int) * (height as int)) by (nonlinear_arith)
            requires
                width >= 1,
                height >= 1,
        ;
    }
    let wh = width * height;
    let bh = BmpHeader { image_size: (size + 54) as i32, blank: 0, start_position: 54 };
    let ih = InfoHeader {
        length: 40,
        width: width as i32,
        height: -(height as i32),
        color_plane: 1,
        bit_color: 24,
        zip_format: 0,
        real_size: size as i32,
        x_pels: 0,
        y_pels: 0,
        color_use: 0,
        color_important: 0,
    };
    let ghost full = bmp_file_bytes(width as int, height as int, buffer@);
    let mut out: Vec<u8> = Vec::new();
    out.push(66);
    out.push(77);
    let mut t = encode_bmp_header(&bh);
    out.append(&mut t);
    let mut t = encode_info_header(&ih);
    out.append(&mut t);
    proof {
        assert(bh == (BmpHeader {
            image_size: (3 * ((width as int) * (height as int)) + 54) as i32,
            blank: 0,
            start_position: 54,
        }));
        assert(ih == (InfoHeader {
            length: 40,
            width: (width as int) as i32,
            height: (-(height as int)) as i32,
            color_plane: 1,
            bit_color: 24,
            zip_format: 0,
            real_size: (3 * ((width as int) * (height as int))) as i32,
            x_pels: 0,
            y_pels: 0,
            color_use: 0,
            color_important: 0,
        }));
        assert(out@ =~= bmp_prefix_bytes(width as int, height as int));
        assert(full.len() == 54 + buffer@.len());
    }
    let mut p: usize = 0;
    while p < wh
        invariant
            0 <= p <= wh,
            buffer@.len() == 3 * (wh as int),
            buffer@.len() <= usize::MAX,
            out@.len() == 54 + 3 * (p as int),
            full == bmp_file_bytes(width as int, height as int, buffer@),
            full.len() == 54 + buffer@.len(),
            forall|k: int| 0 <= k < out@.len() ==> out@[k] == full[k],
        decreases wh - p,
    {
        proof {
            let k = 3 * (p as int);
            vstd::arithmetic::div_mod::lemma_fundamental_div_mod_converse_mod(k, 3, p as int, 0);
            vstd::arithmetic::div_mod::lemma_fundamental_div_mod_converse_mod(
                k + 1,
                3,
                p as int,
                1,
            );
            vstd::arithmetic::div_mod::lemma_fundamental_div_mod_converse_mod(
                k + 2,
                3,
                p as int,
                2,
            );
            assert(swap_rb(buffer@)[k] == buffer@[k + 2]);
            assert(swap_rb(buffer@)[k + 1] == buffer@[k + 1]);
            assert(swap_rb(buffer@)[k + 2] == buffer@[k]);
        }
        out.push(buffer[3 * p + 2]);
        out.push(buffer[3 * p + 1]);
        out.push(buffer[3 * p]);
        p = p + 1;
    }
    proof {
        assert(out@ =~= full);
    }
    Ok(out)
}

} // verus!
