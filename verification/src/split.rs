use vstd::prelude::*;

use crate::layout::{valid_dims, spec_frame_size, MediaError, PixelLayout};

verus! {

/// Copies `buffer[start..end]` into a fresh vector.
fn copy_range(buffer: &Vec<u8>, start: usize, end: usize) -> (r: Vec<u8>)
    requires
        start <= end <= buffer@.len(),
    ensures
        r@ == buffer@.subrange(start as int, end as int),
{
    let mut out: Vec<u8> = Vec::new();
    let mut i: usize = start;
    while i < end
        invariant
            start <= i <= end <= buffer@.len(),
            out@ == buffer@.subrange(start as int, i as int),
        decreases end - i,
    {
        out.push(buffer[i]);
        i = i + 1;
        proof {
            assert(out@ =~= buffer@.subrange(start as int, i as int));
        }
    }
    out
}

/// Splits one YUV420P frame into its Y, U and V planes. The planes cover the
/// buffer without gaps or overlaps, so concatenating them restores the frame.
pub fn yuv420_split_frame(buffer: &Vec<u8>, width: usize, height: usize) -> (r: Result<
    (Vec<u8>, Vec<u8>, Vec<u8>),
    MediaError,
>)
    ensures
        r is Ok <==> (valid_dims(PixelLayout::Yuv420p, width as int, height as int)
            && buffer@.len() == spec_frame_size(PixelLayout::Yuv420p, width as int, height as int)),
        r is Err ==> r->Err_0 == MediaError::InvalidDimensions,
        r is Ok ==> {
            let (y, u, v) = r->Ok_0;
            let wh = (width * height) as int;
            &&& y@ == buffer@.subrange(0, wh)
            &&& u@ == buffer@.subrange(wh, wh + wh / 4)
            &&& v@ == buffer@.subrange(wh + wh / 4, wh + wh / 4 + wh / 4)
            &&& y@.len() + u@.len() + v@.len() == buffer@.len()
            &&& y@ + u@ + v@ == buffer@
        },
{
    let blen = buffer.len();
    let size = match crate::layout::frame_size(PixelLayout::Yuv420p, width, height) {
        Ok(size) => size,
        Err(e) => {
            return Err(e);
        },
    };
    if blen != size {
        return Err(MediaError::InvalidDimensions);
    }
    let wh = width * height;
    let quarter = wh / 4;
    let y = copy_range(buffer, 0, wh);
    let u = copy_range(buffer, wh, wh + quarter);
    let v = copy_range(buffer, wh + quarter, size);
    proof {
        assert(y@ + u@ + v@ =~= buffer@);
    }
    Ok((y, u, v))
}

/// Splits one YUV444P frame into its Y, U and V planes, each width*height
/// bytes. Concatenating the planes restores the frame.
pub fn yuv444_split_frame(buffer: &Vec<u8>, width: usize, height: usize) -> (r: Result<
    (Vec<u8>, Vec<u8>, Vec<u8>),
    MediaError,
>)
    ensures
        r is Ok <==> (valid_dims(PixelLayout::Yuv444p, width as int, height as int)
            && buffer@.len() == spec_frame_size(PixelLayout::Yuv444p, width as int, height as int)),
        r is Err ==> r->Err_0 == MediaError::InvalidDimensions,
        r is Ok ==> {
            let (y, u, v) = r->Ok_0;
            let wh = (width * height) as int;
            &&& y@ == buffer@.subrange(0, wh)
            &&& u@ == buffer@.subrange(wh, 2 * wh)
            &&& v@ == buffer@.subrange(2 * wh, 3 * wh)
            &&& y@ + u@ + v@ == buffer@
        },
{
    let blen = buffer.len();
    let size = match crate::layout::frame_size(PixelLayout::Yuv444p, width, height) {
        Ok(size) => size,
        Err(e) => {
            return Err(e);
        },
    };
    if blen != size {
        return Err(MediaError::InvalidDimensions);
    }
    let wh = width * height;
    let y = copy_range(buffer, 0, wh);
    let u = copy_range(buffer, wh, wh + wh);
    let v = copy_range(buffer, wh + wh, size);
    proof {
        assert(y@ + u@ + v@ =~= buffer@);
    }
    Ok((y, u, v))
}

/// The red, green or blue channel of a packed RGB24 frame: one byte per
/// pixel, taken from offset `c` of each three-byte pixel.
pub open spec fn rgb_channel(s: Seq<u8>, c: int) -> Seq<u8> {
    Seq::new(s.len() / 3, |p: int| s[3 * p + c])
}

/// Splits one packed RGB24 frame into its R, G and B channels, one byte per
/// pixel each, in pixel order.
pub fn rgb24_split_frame(buffer: &Vec<u8>, width: usize, height: usize) -> (r: Result<
    (Vec<u8>, Vec<u8>, Vec<u8>),
    MediaError,
>)
    ensures
        r is Ok <==> (valid_dims(PixelLayout::Rgb24, width as int, height as int)
            && buffer@.len() == spec_frame_size(PixelLayout::Rgb24, width as int, height as int)),
        r is Err ==> r->Err_0 == MediaError::InvalidDimensions,
        r is Ok ==> {
            let (red, green, blue) = r->Ok_0;
            &&& red@ == rgb_channel(buffer@, 0)
            &&& green@ == rgb_channel(buffer@, 1)
            &&& blue@ == rgb_channel(buffer@, 2)
        },
{
    let blen = buffer.len();
    let size = match crate::layout::frame_size(PixelLayout::Rgb24, width, height) {
        Ok(size) => size,
        Err(e) => {
            return Err(e);
        },
    };
    if blen != size {
        return Err(MediaError::InvalidDimensions);
    }
    let wh = width * height;
    let mut red: Vec<u8> = Vec::new();
    let mut green: Vec<u8> = Vec::new();
    let mut blue: Vec<u8> = Vec::new();
    let mut p: usize = 0;
    while p < wh
        invariant
            0 <= p <= wh,
            buffer@.len() == 3 * (wh as int),
            buffer@.len() <= usize::MAX,
            red@ =~= rgb_channel(buffer@, 0).take(p as int),
            green@ =~= rgb_channel(buffer@, 1).take(p as int),
            blue@ =~= rgb_channel(buffer@, 2).take(p as int),
        decreases wh - p,
    {
        assert(3 * (p as int) + 2 < buffer@.len());
        red.push(buffer[3 * p]);
        green.push(buffer[3 * p + 1]);
        blue.push(buffer[3 * p + 2]);
        p = p + 1;
    }
    proof {
        assert(red@ =~= rgb_channel(buffer@, 0));
        assert(green@ =~= rgb_channel(buffer@, 1));
        assert(blue@ =~= rgb_channel(buffer@, 2));
    }
    Ok((red, green, blue))
}

} // verus!
