use vstd::prelude::*;
use vstd::pervasive::VecAdditionalExecFns;

use crate::layout::{
    valid_dims, spec_frame_size, lemma_flat_index, lemma_row_step, MediaError, PixelLayout,
};

verus! {

/// The luma value of the BT.601-style integer transform:
/// ((66r + 129g + 25b + 128) >> 8) + 16, the shift being a floor division.
pub open spec fn yuv_y(r: u8, g: u8, b: u8) -> u8 {
    (((66 * r + 129 * g + 25 * b + 128) / 256) + 16) as u8
}

/// The blue-difference chroma value of the transform:
/// ((-38r - 74g + 112b + 128) >> 8) + 128, the shift being a floor division.
pub open spec fn yuv_u(r: u8, g: u8, b: u8) -> u8 {
    (((-38 * r - 74 * g + 112 * b + 128) / 256) + 128) as u8
}

/// The red-difference chroma value of the transform:
/// ((112r - 94g - 18b + 128) >> 8) + 128, the shift being a floor division.
pub open spec fn yuv_v(r: u8, g: u8, b: u8) -> u8 {
    (((112 * r - 94 * g - 18 * b + 128) / 256) + 128) as u8
}

/// One channel byte of the pixel at row `i`, column `j` of a packed RGB24
/// frame; `c` is 0 for red, 1 for green, 2 for blue.
pub open spec fn rgb_at(s: Seq<u8>, w: int, i: int, j: int, c: int) -> u8 {
    s[3 * (i * w + j) + c]
}

/// The YUV420P frame that the conversion produces from a packed RGB24 frame:
/// a luma byte for every pixel, and one U and one V byte per 2x2 block,
/// sampled at the block's top-left pixel (even row, even column).
pub open spec fn yuv420_of_rgb(s: Seq<u8>, w: int, h: int) -> Seq<u8> {
    Seq::new(
        spec_frame_size(PixelLayout::Yuv420p, w, h) as nat,
        |k: int|
            if k < w * h {
                let i = k / w;
                let j = k % w;
                yuv_y(rgb_at(s, w, i, j, 0), rgb_at(s, w, i, j, 1), rgb_at(s, w, i, j, 2))
            } else if k < w * h + (w * h) / 4 {
                let q = k - w * h;
                let i = 2 * (q / (w / 2));
                let j = 2 * (q % (w / 2));
                yuv_u(rgb_at(s, w, i, j, 0), rgb_at(s, w, i, j, 1), rgb_at(s, w, i, j, 2))
            } else {
                let q = k - w * h - (w * h) / 4;
                let i = 2 * (q / (w / 2));
                let j = 2 * (q % (w / 2));
                yuv_v(rgb_at(s, w, i, j, 0), rgb_at(s, w, i, j, 1), rgb_at(s, w, i, j, 2))
            },
    )
}

/// Converts one packed RGB24 frame into the YUV420P frame held in
/// `yuv_buffer`, overwriting it in place; `rgb_buffer` is left unchanged.
/// Chroma is subsampled by taking the transform of the top-left pixel of
/// each 2x2 block; every narrowing of a transform value stays in range, so
/// no sample is distorted by truncation.
pub fn rgb_to_yuv_conventer(
    rgb_buffer: &mut Vec<u8>,
    width: usize,
    height: usize,
    yuv_buffer: &mut Vec<u8>,
) -> (r: Result<(), MediaError>)
    ensures
        final(rgb_buffer)@ == old(rgb_buffer)@,
        r is Ok <==> (valid_dims(PixelLayout::Yuv420p, width as int, height as int) && old(
            rgb_buffer,
        )@.len() == spec_frame_size(PixelLayout::Rgb24, width as int, height as int) && old(
            yuv_buffer,
        )@.len() == spec_frame_size(PixelLayout::Yuv420p, width as int, height as int)),
        r is Err ==> final(yuv_buffer)@ == old(yuv_buffer)@ && r->Err_0
            == MediaError::InvalidDimensions,
        r is Ok ==> final(yuv_buffer)@ == yuv420_of_rgb(
            old(rgb_buffer)@,
            width as int,
            height as int,
        ),
{
    let rgb_len = rgb_buffer.len();
    let yuv_len = yuv_buffer.len();
    let yuv_size = match crate::layout::frame_size(PixelLayout::Yuv420p, width, height) {
        Ok(size) => size,
        Err(e) => {
            return Err(e);
        },
    };
    let rgb_size = match crate::layout::frame_size(PixelLayout::Rgb24, width, height) {
        Ok(size) => size,
        Err(e) => {
            return Err(e);
        },
    };
    if rgb_len != rgb_size || yuv_len != yuv_size {
        return Err(MediaError::InvalidDimensions);
    }
    let wh = width * height;
    let w2 = width / 2;
    let h2 = height / 2;
    proof {
        vstd::arithmetic::div_mod::lemma_fundamental_div_mod(width as int, 2);
        vstd::arithmetic::div_mod::lemma_fundamental_div_mod(height as int, 2);
        assert((2 * w2 as int) * (2 * h2 as int) == 4 * (w2 as int * h2 as int))
            by (nonlinear_arith);
        vstd::arithmetic::div_mod::lemma_fundamental_div_mod_converse_div(
            wh as int,
            4,
            w2 as int * h2 as int,
            0,
        );
    }
    let quarter = wh / 4;
    let ghost target = yuv420_of_rgb(old(rgb_buffer)@, width as int, height as int);
    let mut y_idx: usize = 0;
    let mut u_idx: usize = wh;
    let mut v_idx: usize = wh + quarter;
    let mut i: usize = 0;
    proof {
        // Loop entry: with i == 0 no chroma has been written yet.
        assert((0int / 2) * (w2 as int) == 0);
    }
    while i < height
        invariant
            0 <= i <= height,
            i % 2 == 0,
            2 <= width,
            2 <= height,
            width % 2 == 0,
            height % 2 == 0,
            w2 == width as int / 2,
            h2 == height as int / 2,
            width == 2 * w2,
            height == 2 * h2,
            wh == width * height,
            quarter == wh as int / 4,
            quarter == w2 as int * h2 as int,
            yuv_size == wh + quarter + quarter,
            rgb_buffer@.len() == 3 * (wh as int),
            rgb_buffer@.len() <= usize::MAX,
            rgb_buffer@ == old(rgb_buffer)@,
            yuv_buffer@.len() == yuv_size,
            old(yuv_buffer)@.len() == yuv_size,
            y_idx == i * width,
            u_idx == wh + (i as int / 2) * w2,
            v_idx == u_idx + quarter,
            u_idx <= wh + quarter,
            target == yuv420_of_rgb(old(rgb_buffer)@, width as int, height as int),
            target.len() == yuv_size,
            forall|k: int| 0 <= k < y_idx ==> yuv_buffer@[k] == target[k],
            forall|k: int| y_idx <= k < wh ==> yuv_buffer@[k] == old(yuv_buffer)@[k],
            forall|k: int| wh <= k < u_idx ==> yuv_buffer@[k] == target[k],
            forall|k: int| u_idx <= k < wh + quarter ==> yuv_buffer@[k] == old(yuv_buffer)@[k],
            forall|k: int| wh + quarter <= k < v_idx ==> yuv_buffer@[k] == target[k],
            forall|k: int| v_idx <= k < yuv_size ==> yuv_buffer@[k] == old(yuv_buffer)@[k],
        decreases height - i,
    {
        proof {
            lemma_flat_index(i as int, width as int - 1, width as int, height as int);
            assert((i as int / 2) * w2 + w2 <= quarter) by (nonlinear_arith)
                requires
                    0 <= i as int / 2 < h2 as int,
                    quarter == w2 as int * h2 as int,
                    w2 >= 1,
            ;
        }
        let mut j: usize = 0;
        while j < width
            invariant
                0 <= i < height,
                i % 2 == 0,
                0 <= j <= width,
                2 <= width,
                2 <= height,
                width % 2 == 0,
                height % 2 == 0,
                w2 == width as int / 2,
                h2 == height as int / 2,
                width == 2 * w2,
                height == 2 * h2,
                wh == width * height,
                quarter == wh as int / 4,
                quarter == w2 as int * h2 as int,
                yuv_size == wh + quarter + quarter,
                rgb_buffer@.len() == 3 * (wh as int),
                rgb_buffer@.len() <= usize::MAX,
                rgb_buffer@ == old(rgb_buffer)@,
                yuv_buffer@.len() == yuv_size,
                old(yuv_buffer)@.len() == yuv_size,
                y_idx == i * width + j,
                i * width + width <= wh,
                u_idx == wh + (i as int / 2) * w2 + (j as int + 1) / 2,
                v_idx == u_idx + quarter,
                (i as int / 2) * w2 + w2 <= quarter,
                target == yuv420_of_rgb(old(rgb_buffer)@, width as int, height as int),
                target.len() == yuv_size,
                forall|k: int| 0 <= k < y_idx ==> yuv_buffer@[k] == target[k],
                forall|k: int| y_idx <= k < wh ==> yuv_buffer@[k] == old(yuv_buffer)@[k],
                forall|k: int| wh <= k < u_idx ==> yuv_buffer@[k] == target[k],
                forall|k: int| u_idx <= k < wh + quarter ==> yuv_buffer@[k] == old(yuv_buffer)@[k],
                forall|k: int| wh + quarter <= k < v_idx ==> yuv_buffer@[k] == target[k],
                forall|k: int| v_idx <= k < yuv_size ==> yuv_buffer@[k] == old(yuv_buffer)@[k],
            decreases width - j,
        {
            proof {
                lemma_flat_index(i as int, j as int, width as int, height as int);
            }
            let base = 3 * y_idx;
            let r = rgb_buffer[base] as u32;
            let g = rgb_buffer[base + 1] as u32;
            let b = rgb_buffer[base + 2] as u32;
            let ty: u32 = (66 * r + 129 * g + 25 * b + 128) / 256 + 16;
            let tu: u32 = (112 * b + 65664 - 38 * r - 74 * g) / 256 - 128;
            let tv: u32 = (112 * r + 65664 - 94 * g - 18 * b) / 256 - 128;
            proof {
                let ri = r as int;
                let gi = g as int;
                let bi = b as int;
                let xu = -38 * ri - 74 * gi + 112 * bi + 128;
                vstd::arithmetic::div_mod::lemma_hoist_over_denominator(xu, 256, 256nat);
                vstd::arithmetic::div_mod::lemma_div_is_ordered(-28432, xu, 256);
                vstd::arithmetic::div_mod::lemma_div_is_ordered(xu, 28688, 256);
                let xv = 112 * ri - 94 * gi - 18 * bi + 128;
                vstd::arithmetic::div_mod::lemma_hoist_over_denominator(xv, 256, 256nat);
                vstd::arithmetic::div_mod::lemma_div_is_ordered(-28432, xv, 256);
                vstd::arithmetic::div_mod::lemma_div_is_ordered(xv, 28688, 256);
                assert(ty == yuv_y(r as u8, g as u8, b as u8));
                assert(tu == yuv_u(r as u8, g as u8, b as u8));
                assert(tv == yuv_v(r as u8, g as u8, b as u8));
            }
            yuv_buffer.set(y_idx, ty as u8);
            y_idx = y_idx + 1;
            if j % 2 == 0 {
                proof {
                    let cc = (i as int / 2) * w2 + j as int / 2;
                    assert(u_idx == wh + cc);
                    assert(0 <= j as int / 2 < w2);
                    assert(cc < quarter);
                    vstd::arithmetic::div_mod::lemma_fundamental_div_mod_converse_div(
                        cc,
                        w2 as int,
                        i as int / 2,
                        j as int / 2,
                    );
                    vstd::arithmetic::div_mod::lemma_fundamental_div_mod_converse_mod(
                        cc,
                        w2 as int,
                        i as int / 2,
                        j as int / 2,
                    );
                    assert(2 * (cc / (w2 as int)) == i as int);
                    assert(2 * (cc % (w2 as int)) == j as int);
                    assert(target[wh + cc] == tu as u8);
                    assert(target[wh + quarter + cc] == tv as u8);
                }
                yuv_buffer.set(u_idx, tu as u8);
                yuv_buffer.set(v_idx, tv as u8);
                u_idx = u_idx + 1;
                v_idx = v_idx + 1;
            }
            j = j + 1;
        }
        proof {
            lemma_row_step(i as int, width as int);
            lemma_flat_index(i as int + 1, width as int - 1, width as int, height as int);
            assert((i as int / 2 + 1) * w2 == (i as int / 2) * w2 + w2) by (nonlinear_arith);
        }
        let mut j: usize = 0;
        while j < width
            invariant
                0 <= i < height,
                i % 2 == 0,
                0 <= j <= width,
                2 <= width,
                2 <= height,
                width % 2 == 0,
                height % 2 == 0,
                w2 == width as int / 2,
                h2 == height as int / 2,
                width == 2 * w2,
                height == 2 * h2,
                wh == width * height,
                quarter == wh as int / 4,
                quarter == w2 as int * h2 as int,
                yuv_size == wh + quarter + quarter,
                rgb_buffer@.len() == 3 * (wh as int),
                rgb_buffer@.len() <= usize::MAX,
                rgb_buffer@ == old(rgb_buffer)@,
                yuv_buffer@.len() == yuv_size,
                old(yuv_buffer)@.len() == yuv_size,
                i as int + 1 < height as int,
                y_idx == (i as int + 1) * width + j,
                (i as int + 1) * width + width <= wh,
                u_idx == wh + (i as int / 2) * w2 + w2,
                v_idx == u_idx + quarter,
                u_idx <= wh + quarter,
                target == yuv420_of_rgb(old(rgb_buffer)@, width as int, height as int),
                target.len() == yuv_size,
                forall|k: int| 0 <= k < y_idx ==> yuv_buffer@[k] == target[k],
                forall|k: int| y_idx <= k < wh ==> yuv_buffer@[k] == old(yuv_buffer)@[k],
                forall|k: int| wh <= k < u_idx ==> yuv_buffer@[k] == target[k],
                forall|k: int| u_idx <= k < wh + quarter ==> yuv_buffer@[k] == old(yuv_buffer)@[k],
                forall|k: int| wh + quarter <= k < v_idx ==> yuv_buffer@[k] == target[k],
                forall|k: int| v_idx <= k < yuv_size ==> yuv_buffer@[k] == old(yuv_buffer)@[k],
            decreases width - j,
        {
            proof {
                lemma_flat_index(i as int + 1, j as int, width as int, height as int);
            }
            let base = 3 * y_idx;
            let r = rgb_buffer[base] as u32;
            let g = rgb_buffer[base + 1] as u32;
            let b = rgb_buffer[base + 2] as u32;
            let ty: u32 = (66 * r + 129 * g + 25 * b + 128) / 256 + 16;
            proof {
                assert(ty == yuv_y(r as u8, g as u8, b as u8));
            }
            yuv_buffer.set(y_idx, ty as u8);
            y_idx = y_idx + 1;
            j = j + 1;
        }
        proof {
            lemma_row_step(i as int + 1, width as int);
        }
        i = i + 2;
    }
    proof {
        assert(height as int * width as int == width as int * height as int) by (nonlinear_arith);
        assert((height as int / 2) * w2 as int == w2 as int * h2 as int) by (nonlinear_arith)
            requires
                h2 == height as int / 2,
        ;
        assert(yuv_buffer@ =~= target);
    }
    Ok(())
}

} // verus!
