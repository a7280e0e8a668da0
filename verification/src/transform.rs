use vstd::prelude::*;
use vstd::pervasive::VecAdditionalExecFns;

use crate::layout::{
    valid_dims, spec_frame_size, lemma_flat_index, lemma_row_step, MediaError, PixelLayout,
};

verus! {

/// A YUV420P frame after grayscale flattening: the first `ylen` bytes (the
/// luma plane) kept, every chroma byte overwritten with the neutral value 128.
pub open spec fn grey_frame(s: Seq<u8>, ylen: int) -> Seq<u8> {
    Seq::new(s.len(), |k: int| if k < ylen { s[k] } else { 128u8 })
}

/// Grayscale flattening is idempotent: flattening a flattened frame changes
/// nothing.
pub proof fn lemma_grey_flatten_idempotent(s: Seq<u8>, ylen: int)
    ensures
        grey_frame(grey_frame(s, ylen), ylen) == grey_frame(s, ylen),
{
    assert(grey_frame(grey_frame(s, ylen), ylen) =~= grey_frame(s, ylen));
}

/// Flattens one YUV420P frame to gray in place: the luma plane is kept and
/// every chroma byte becomes 128.
pub fn yuv420_grey_frame(buffer: &mut Vec<u8>, width: usize, height: usize) -> (r: Result<
    (),
    MediaError,
>)
    ensures
        r is Ok <==> (valid_dims(PixelLayout::Yuv420p, width as int, height as int) && old(
            buffer,
        )@.len() == spec_frame_size(PixelLayout::Yuv420p, width as int, height as int)),
        r is Err ==> final(buffer)@ == old(buffer)@ && r->Err_0 == MediaError::InvalidDimensions,
        r is Ok ==> final(buffer)@ == grey_frame(old(buffer)@, (width * height) as int),
{
    let blen = buffer.len();
    let size = match crate::layout::frame_size(PixelLayout::Yuv420p, width, height) {
        Ok(size) => size,
        Err(e) => {
            return Err(e);
        },
    };
    if blen != size {
        return Err(MediaError::InvalidDimensions);
    }
    let wh = width * height;
    let mut i: usize = wh;
    while i < size
        invariant
            wh <= i <= size,
            buffer@.len() == size,
            old(buffer)@.len() == size,
            forall|k: int| 0 <= k < i ==> buffer@[k] == grey_frame(old(buffer)@, wh as int)[k],
            forall|k: int| i <= k < size ==> buffer@[k] == old(buffer)@[k],
        decreases size - i,
    {
        buffer.set(i, 128);
        i = i + 1;
    }
    proof {
        assert(buffer@ =~= grey_frame(old(buffer)@, (width * height) as int));
    }
    Ok(())
}

/// A YUV420P frame after luma halving: every luma byte floor-divided by two,
/// the chroma planes kept unchanged.
pub open spec fn halve_luma_frame(s: Seq<u8>, ylen: int) -> Seq<u8> {
    Seq::new(s.len(), |k: int| if k < ylen { s[k] / 2 } else { s[k] })
}

/// Luma halving never brightens: every output sample lies between zero and
/// the input sample it came from, and each output sample depends on that
/// input sample alone.
pub proof fn lemma_halve_luma_non_increasing(s: Seq<u8>, ylen: int)
    ensures
        forall|k: int|
            0 <= k < s.len() ==> 0 <= #[trigger] halve_luma_frame(s, ylen)[k] <= s[k],
{
}

/// Halves every luma sample of one YUV420P frame in place, with integer
/// floor division; the chroma planes are kept unchanged.
pub fn yuv420_halfy_frame(buffer: &mut Vec<u8>, width: usize, height: usize) -> (r: Result<
    (),
    MediaError,
>)
    ensures
        r is Ok <==> (valid_dims(PixelLayout::Yuv420p, width as int, height as int) && old(
            buffer,
        )@.len() == spec_frame_size(PixelLayout::Yuv420p, width as int, height as int)),
        r is Err ==> final(buffer)@ == old(buffer)@ && r->Err_0 == MediaError::InvalidDimensions,
        r is Ok ==> final(buffer)@ == halve_luma_frame(old(buffer)@, (width * height) as int),
{
    let blen = buffer.len();
    let size = match crate::layout::frame_size(PixelLayout::Yuv420p, width, height) {
        Ok(size) => size,
        Err(e) => {
            return Err(e);
        },
    };
    if blen != size {
        return Err(MediaError::InvalidDimensions);
    }
    let wh = width * height;
    let mut i: usize = 0;
    while i < wh
        invariant
            0 <= i <= wh <= size,
            buffer@.len() == size,
            old(buffer)@.len() == size,
            forall|k: int|
                0 <= k < i ==> buffer@[k] == halve_luma_frame(old(buffer)@, wh as int)[k],
            forall|k: int| i <= k < size ==> buffer@[k] == old(buffer)@[k],
        decreases wh - i,
    {
        let halved = buffer[i] / 2;
        buffer.set(i, halved);
        i = i + 1;
    }
    proof {
        assert(buffer@ =~= halve_luma_frame(old(buffer)@, (width * height) as int));
    }
    Ok(())
}

/// Whether the luma sample at row `i`, column `j` belongs to the painted
/// border of thickness `b`. The comparisons are exactly these strict ones;
/// in particular `i > h - b` and `j > w - b`, not `>=`.
pub open spec fn border_painted(w: int, h: int, b: int, i: int, j: int) -> bool {
    i < b || i > h - b || j < b || j > w - b
}

/// A YUV420P frame after border painting: every luma sample on the border
/// set to full white (255), the interior and the chroma planes untouched.
pub open spec fn border_frame(s: Seq<u8>, w: int, h: int, b: int) -> Seq<u8> {
    Seq::new(
        s.len(),
        |k: int|
            if k < w * h && border_painted(w, h, b, k / w, k % w) {
                255u8
            } else {
                s[k]
            },
    )
}

/// A border of thickness zero paints nothing: no luma coordinate satisfies
/// the border condition, so the frame is unchanged.
pub proof fn lemma_border_zero_identity(s: Seq<u8>, w: int, h: int)
    requires
        w > 0,
    ensures
        border_frame(s, w, h, 0) == s,
{
    assert forall|k: int| 0 <= k < s.len() implies #[trigger] border_frame(s, w, h, 0)[k]
        == s[k] by {
        if k < w * h {
            vstd::arithmetic::div_mod::lemma_fundamental_div_mod(k, w);
            vstd::arithmetic::div_mod::lemma_mod_bound(k, w);
            let i = k / w;
            let j = k % w;
            assert(0 <= i) by (nonlinear_arith)
                requires
                    k >= 0,
                    w > 0,
                    i == k / w,
            ;
            assert(i < h) by (nonlinear_arith)
                requires
                    k < w * h,
                    w > 0,
                    0 <= j < w,
                    k == i * w + j,
            ;
            assert(!border_painted(w, h, 0, i, j));
        }
    }
    assert(border_frame(s, w, h, 0) =~= s);
}

/// Paints a border of thickness `border` in full white on the luma plane of
/// one YUV420P frame, in place, by the strict boundary comparisons of
/// `border_painted`; the chroma planes are untouched.
pub fn yuv420_border_frame(
    buffer: &mut Vec<u8>,
    width: usize,
    height: usize,
    border: usize,
) -> (r: Result<(), MediaError>)
    ensures
        r is Ok <==> (valid_dims(PixelLayout::Yuv420p, width as int, height as int) && old(
            buffer,
        )@.len() == spec_frame_size(PixelLayout::Yuv420p, width as int, height as int) && border
            <= width && border <= height),
        r is Err ==> final(buffer)@ == old(buffer)@,
        r is Err && !(valid_dims(PixelLayout::Yuv420p, width as int, height as int) && old(
            buffer,
        )@.len() == spec_frame_size(PixelLayout::Yuv420p, width as int, height as int))
            ==> r->Err_0 == MediaError::InvalidDimensions,
        r is Err && valid_dims(PixelLayout::Yuv420p, width as int, height as int) && old(
            buffer,
        )@.len() == spec_frame_size(PixelLayout::Yuv420p, width as int, height as int)
            ==> r->Err_0 == MediaError::InvalidParameter,
        r is Ok ==> final(buffer)@ == border_frame(
            old(buffer)@,
            width as int,
            height as int,
            border as int,
        ),
{
    let blen = buffer.len();
    let size = match crate::layout::frame_size(PixelLayout::Yuv420p, width, height) {
        Ok(size) => size,
        Err(e) => {
            return Err(e);
        },
    };
    if blen != size {
        return Err(MediaError::InvalidDimensions);
    }
    if border > width || border > height {
        return Err(MediaError::InvalidParameter);
    }
    let ghost target = border_frame(old(buffer)@, width as int, height as int, border as int);
    let mut i: usize = 0;
    let mut row_base: usize = 0;
    while i < height
        invariant
            0 <= i <= height,
            row_base == i * width,
            buffer@.len() == size,
            old(buffer)@.len() == size,
            size == spec_frame_size(PixelLayout::Yuv420p, width as int, height as int),
            valid_dims(PixelLayout::Yuv420p, width as int, height as int),
            border <= width && border <= height,
            target == border_frame(old(buffer)@, width as int, height as int, border as int),
            forall|k: int| 0 <= k < i * width ==> buffer@[k] == target[k],
            forall|k: int| i * width <= k < size ==> buffer@[k] == old(buffer)@[k],
        decreases height - i,
    {
        proof {
            lemma_flat_index(i as int, 0, width as int, height as int);
            lemma_flat_index(i as int, width as int - 1, width as int, height as int);
            assert(width * height <= size) by (nonlinear_arith)
                requires
                    size == spec_frame_size(PixelLayout::Yuv420p, width as int, height as int),
                    width >= 1,
                    height >= 1,
            ;
        }
        let mut j: usize = 0;
        while j < width
            invariant
                0 <= i < height,
                0 <= j <= width,
                row_base == i * width,
                row_base + width <= width * height <= size,
                buffer@.len() == size,
                old(buffer)@.len() == size,
                border <= width && border <= height,
                target == border_frame(old(buffer)@, width as int, height as int, border as int),
                forall|k: int| 0 <= k < row_base + j ==> buffer@[k] == target[k],
                forall|k: int| row_base + j <= k < size ==> buffer@[k] == old(buffer)@[k],
            decreases width - j,
        {
            proof {
                lemma_flat_index(i as int, j as int, width as int, height as int);
            }
            if i < border || i > height - border || j < border || j > width - border {
                buffer.set(row_base + j, 255);
            }
            proof {
                assert(buffer@[row_base + j] == target[row_base + j]);
            }
            j = j + 1;
        }
        proof {
            lemma_row_step(i as int, width as int);
        }
        row_base = row_base + width;
        i = i + 1;
    }
    proof {
        assert forall|k: int| 0 <= k < size implies buffer@[k] == target[k] by {
            assert(height * width <= size) by (nonlinear_arith)
                requires
                    size == spec_frame_size(PixelLayout::Yuv420p, width as int, height as int),
                    width >= 1,
                    height >= 1,
            ;
        }
        assert(buffer@ =~= target);
    }
    Ok(())
}

} // verus!
