use vstd::prelude::*;

use crate::layout::{valid_dims, spec_frame_size, MediaError, PixelLayout};

verus! {

/// The sum of the squared differences of the first `n` samples of two
/// buffers, taken over signed differences.
pub open spec fn sq_diff_sum(a: Seq<u8>, b: Seq<u8>, n: int) -> int
    decreases n,
{
    if n <= 0 {
        0
    } else {
        sq_diff_sum(a, b, n - 1) + (a[n - 1] - b[n - 1]) * (a[n - 1] - b[n - 1])
    }
}

/// The luma-plane sum of squared differences between two YUV420P frames of
/// the same shape: the integer core of the mean-squared-error and PSNR
/// metrics, taken over the first width*height bytes only (chroma skipped).
/// The mean squared error is this sum divided by width*height; a zero sum
/// means the two luma planes are identical, the degenerate case whose peak
/// signal-to-noise ratio is infinite.
pub fn yuv420_luma_sse(a: &Vec<u8>, b: &Vec<u8>, width: usize, height: usize) -> (r: Result<
    u128,
    MediaError,
>)
    ensures
        r is Ok <==> (valid_dims(PixelLayout::Yuv420p, width as int, height as int) && a@.len()
            == spec_frame_size(PixelLayout::Yuv420p, width as int, height as int) && b@.len()
            == spec_frame_size(PixelLayout::Yuv420p, width as int, height as int)),
        r is Err ==> r->Err_0 == MediaError::InvalidDimensions,
        r is Ok ==> r->Ok_0 == sq_diff_sum(a@, b@, (width * height) as int),
{
    let alen = a.len();
    let blen = b.len();
    let size = match crate::layout::frame_size(PixelLayout::Yuv420p, width, height) {
        Ok(size) => size,
        Err(e) => {
            return Err(e);
        },
    };
    if alen != size || blen != size {
        return Err(MediaError::InvalidDimensions);
    }
    let wh = width * height;
    let mut sum: u128 = 0;
    let mut i: usize = 0;
    while i < wh
        invariant
            0 <= i <= wh,
            wh <= size == a@.len() == b@.len(),
            sum == sq_diff_sum(a@, b@, i as int),
            sum <= (i as int) * 65025,
        decreases wh - i,
    {
        let av = a[i];
        let bv = b[i];
        let d: u16 = if av >= bv {
            (av - bv) as u16
        } else {
            (bv - av) as u16
        };
        proof {
            assert((d as int) * (d as int) <= 65025) by (nonlinear_arith)
                requires
                    0 <= d as int <= 255,
            ;
            assert((av - bv) * (av - bv) == (d as int) * (d as int)) by (nonlinear_arith)
                requires
                    d as int == av - bv || d as int == bv - av,
            ;
        }
        let d2: u64 = (d as u64) * (d as u64);
        sum = sum + d2 as u128;
        i = i + 1;
    }
    Ok(sum)
}

} // verus!
