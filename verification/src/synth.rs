use vstd::prelude::*;

use crate::layout::{
    valid_dims, spec_frame_size, lemma_flat_index, lemma_row_step, MediaError, PixelLayout,
};

verus! {

/// The luma value of column `j` of a gray ramp: the bar index `j / barwidth`
/// times the exact rational step `(ymax - ymin) / (barnum - 1)`, floored,
/// offset by `ymin`, and saturated at 255 for the spill-over columns whose
/// bar index runs past the last bar.
pub open spec fn greybar_value(j: int, barwidth: int, ymin: int, ymax: int, barnum: int) -> u8 {
    let v = ymin + ((j / barwidth) * (ymax - ymin)) / (barnum - 1);
    if v > 255 {
        255u8
    } else {
        v as u8
    }
}

/// A synthesized YUV420P gray-bar frame: every row of the luma plane carries
/// the same ramp of `barnum` vertical bars, and both chroma planes are
/// filled with the neutral value 128.
pub open spec fn greybar_frame(w: int, h: int, ymin: u8, ymax: u8, barnum: int) -> Seq<u8> {
    Seq::new(
        spec_frame_size(PixelLayout::Yuv420p, w, h) as nat,
        |k: int|
            if k < w * h {
                greybar_value(k % w, w / barnum, ymin as int, ymax as int, barnum)
            } else {
                128u8
            },
    )
}

/// Synthesizes one YUV420P frame of `barnum` vertical gray bars ramping from
/// `ymin` to `ymax` across the width, identical in every row, with neutral
/// chroma planes.
pub fn yuv420_greybar_frame(
    width: usize,
    height: usize,
    ymin: u8,
    ymax: u8,
    barnum: usize,
) -> (r: Result<Vec<u8>, MediaError>)
    ensures
        r is Ok <==> (valid_dims(PixelLayout::Yuv420p, width as int, height as int)
            && spec_frame_size(PixelLayout::Yuv420p, width as int, height as int) <= usize::MAX
            && barnum >= 2 && width as int / barnum as int >= 1 && ymin <= ymax),
        r is Err && !(valid_dims(PixelLayout::Yuv420p, width as int, height as int)
            && spec_frame_size(PixelLayout::Yuv420p, width as int, height as int) <= usize::MAX)
            ==> r->Err_0 == MediaError::InvalidDimensions,
        r is Err && valid_dims(PixelLayout::Yuv420p, width as int, height as int)
            && spec_frame_size(PixelLayout::Yuv420p, width as int, height as int) <= usize::MAX
            ==> r->Err_0 == MediaError::InvalidParameter,
        r is Ok ==> r->Ok_0@ == greybar_frame(
            width as int,
            height as int,
            ymin,
            ymax,
            barnum as int,
        ),
{
    let size = match crate::layout::frame_size(PixelLayout::Yuv420p, width, height) {
        Ok(size) => size,
        Err(e) => {
            return Err(e);
        },
    };
    if barnum < 2 {
        return Err(MediaError::InvalidParameter);
    }
    let barwidth = width / barnum;
    if barwidth == 0 {
        return Err(MediaError::InvalidParameter);
    }
    if ymin > ymax {
        return Err(MediaError::InvalidParameter);
    }
    proof {
        assert(width * height <= size) by (nonlinear_arith)
            requires
                size == spec_frame_size(PixelLayout::Yuv420p, width as int, height as int),
                width >= 1,
                height >= 1,
        ;
    }
    let wh = width * height;
    let ghost target = greybar_frame(width as int, height as int, ymin, ymax, barnum as int);
    let mut out: Vec<u8> = Vec::new();
    let mut i: usize = 0;
    while i < height
        invariant
            0 <= i <= height,
            1 <= width,
            out@.len() == i * width,
            i * width <= width * height == wh <= size,
            barwidth == width as int / barnum as int,
            2 <= barnum,
            1 <= barwidth,
            ymin <= ymax,
            target == greybar_frame(width as int, height as int, ymin, ymax, barnum as int),
            target.len() == size,
            forall|k: int| 0 <= k < out@.len() ==> out@[k] == target[k],
        decreases height - i,
    {
        let mut j: usize = 0;
        proof {
            lemma_flat_index(i as int, width as int - 1, width as int, height as int);
        }
        while j < width
            invariant
                0 <= i < height,
                0 <= j <= width,
                1 <= width,
                out@.len() == i * width + j,
                i * width + width <= width * height == wh <= size,
                barwidth == width as int / barnum as int,
                2 <= barnum,
                1 <= barwidth,
                ymin <= ymax,
                target == greybar_frame(width as int, height as int, ymin, ymax, barnum as int),
                target.len() == size,
                forall|k: int| 0 <= k < out@.len() ==> out@[k] == target[k],
            decreases width - j,
        {
            proof {
                lemma_flat_index(i as int, j as int, width as int, height as int);
            }
            let bar: usize = j / barwidth;
            let d: u8 = ymax - ymin;
            proof {
                assert((bar as u128) * (d as u128) < 0x100_0000_0000_0000_0000u128)
                    by (nonlinear_arith)
                    requires
                        (bar as u128) < 0x1_0000_0000_0000_0000u128,
                        (d as u128) < 0x100u128,
                ;
            }
            let step_num: u128 = (bar as u128) * (d as u128);
            let ramp: u128 = step_num / ((barnum - 1) as u128);
            proof {
                assert(ramp <= step_num) by (nonlinear_arith)
                    requires
                        step_num >= 0,
                        barnum >= 2,
                        ramp == step_num as int / (barnum - 1) as int,
                ;
            }
            let tot: u128 = (ymin as u128) + ramp;
            let val: u8 = if tot > 255 {
                255
            } else {
                tot as u8
            };
            proof {
                let k = i as int * width as int + j as int;
                assert(k % width as int == j as int);
                assert(val == greybar_value(
                    j as int,
                    barwidth as int,
                    ymin as int,
                    ymax as int,
                    barnum as int,
                ));
            }
            out.push(val);
            j = j + 1;
        }
        proof {
            lemma_row_step(i as int, width as int);
        }
        i = i + 1;
    }
    proof {
        assert(height as int * width as int == width as int * height as int)
            by (nonlinear_arith);
    }
    while out.len() < size
        invariant
            wh <= out@.len() <= size,
            target == greybar_frame(width as int, height as int, ymin, ymax, barnum as int),
            target.len() == size,
            wh == width * height,
            forall|k: int| 0 <= k < out@.len() ==> out@[k] == target[k],
        decreases size - out@.len(),
    {
        out.push(128);
    }
    proof {
        assert(out@ =~= target);
    }
    Ok(out)
}

/// The fixed palette of the color-bar pattern, in bar order: white, yellow,
/// cyan, green, magenta, red, blue, black. Bar indices past the last bar
/// give black, the last color.
pub open spec fn colorbar_rgb(band: int) -> (u8, u8, u8) {
    if band <= 0 {
        (255u8, 255u8, 255u8)
    } else if band == 1 {
        (255u8, 255u8, 0u8)
    } else if band == 2 {
        (0u8, 255u8, 255u8)
    } else if band == 3 {
        (0u8, 255u8, 0u8)
    } else if band == 4 {
        (255u8, 0u8, 255u8)
    } else if band == 5 {
        (255u8, 0u8, 0u8)
    } else if band == 6 {
        (0u8, 0u8, 255u8)
    } else {
        (0u8, 0u8, 0u8)
    }
}

/// A synthesized packed RGB24 frame of eight equal-width vertical color
/// bars; any remainder columns at the right edge belong to the last band.
pub open spec fn colorbar_frame(w: int, h: int) -> Seq<u8> {
    Seq::new(
        (3 * (w * h)) as nat,
        |k: int|
            {
                let p = k / 3;
                let j = p % w;
                let band = j / (w / 8);
                let rgb = colorbar_rgb(
                    if band > 7 {
                        7
                    } else {
                        band
                    },
                );
                if k % 3 == 0 {
                    rgb.0
                } else if k % 3 == 1 {
                    rgb.1
                } else {
                    rgb.2
                }
            },
    )
}

/// One palette entry of the color-bar pattern.
fn colorbar_color(band: usize) -> (c: (u8, u8, u8))
    ensures
        c == colorbar_rgb(band as int),
{
    if band == 0 {
        (255, 255, 255)
    } else if band == 1 {
        (255, 255, 0)
    } else if band == 2 {
        (0, 255, 255)
    } else if band == 3 {
        (0, 255, 0)
    } else if band == 4 {
        (255, 0, 255)
    } else if band == 5 {
        (255, 0, 0)
    } else if band == 6 {
        (0, 0, 255)
    } else {
        (0, 0, 0)
    }
}

/// Synthesizes one packed RGB24 frame of eight equal-width fully saturated
/// vertical color bars spanning the image.
pub fn rgb24_colorbar_frame(width: usize, height: usize) -> (r: Result<Vec<u8>, MediaError>)
    ensures
        r is Ok <==> (valid_dims(PixelLayout::Rgb24, width as int, height as int)
            && spec_frame_size(PixelLayout::Rgb24, width as int, height as int) <= usize::MAX
            && width >= 8),
        r is Err && !(valid_dims(PixelLayout::Rgb24, width as int, height as int)
            && spec_frame_size(PixelLayout::Rgb24, width as int, height as int) <= usize::MAX)
            ==> r->Err_0 == MediaError::InvalidDimensions,
        r is Err && valid_dims(PixelLayout::Rgb24, width as int, height as int) && spec_frame_size(
            PixelLayout::Rgb24,
            width as int,
            height as int,
        ) <= usize::MAX ==> r->Err_0 == MediaError::InvalidParameter,
        r is Ok ==> r->Ok_0@ == colorbar_frame(width as int, height as int),
{
    let size = match crate::layout::frame_size(PixelLayout::Rgb24, width, height) {
        Ok(size) => size,
        Err(e) => {
            return Err(e);
        },
    };
    let barwidth = width / 8;
    if barwidth == 0 {
        return Err(MediaError::InvalidParameter);
    }
    let ghost target = colorbar_frame(width as int, height as int);
    let mut out: Vec<u8> = Vec::new();
    let mut i: usize = 0;
    while i < height
        invariant
            0 <= i <= height,
            1 <= width,
            barwidth == width as int / 8,
            1 <= barwidth,
            out@.len() == 3 * (i * width),
            i * width <= width * height,
            size == 3 * (width * height),
            target == colorbar_frame(width as int, height as int),
            target.len() == size,
            forall|k: int| 0 <= k < out@.len() ==> out@[k] == target[k],
        decreases height - i,
    {
        let mut j: usize = 0;
        proof {
            lemma_flat_index(i as int, width as int - 1, width as int, height as int);
        }
        while j < width
            invariant
                0 <= i < height,
                0 <= j <= width,
                1 <= width,
                barwidth == width as int / 8,
                1 <= barwidth,
                out@.len() == 3 * (i * width + j),
                i * width + width <= width * height,
                size == 3 * (width * height),
                target == colorbar_frame(width as int, height as int),
                target.len() == size,
                forall|k: int| 0 <= k < out@.len() ==> out@[k] == target[k],
            decreases width - j,
        {
            let band = j / barwidth;
            let capped = if band > 7 {
                7
            } else {
                band
            };
            let (cr, cg, cb) = colorbar_color(capped);
            proof {
                lemma_flat_index(i as int, j as int, width as int, height as int);
                let p = i as int * width as int + j as int;
                vstd::arithmetic::div_mod::lemma_fundamental_div_mod_converse_div(3 * p, 3, p, 0);
                vstd::arithmetic::div_mod::lemma_fundamental_div_mod_converse_mod(3 * p, 3, p, 0);
                vstd::arithmetic::div_mod::lemma_fundamental_div_mod_converse_div(
                    3 * p + 1,
                    3,
                    p,
                    1,
                );
                vstd::arithmetic::div_mod::lemma_fundamental_div_mod_converse_mod(
                    3 * p + 1,
                    3,
                    p,
                    1,
                );
                vstd::arithmetic::div_mod::lemma_fundamental_div_mod_converse_div(
                    3 * p + 2,
                    3,
                    p,
                    2,
                );
                vstd::arithmetic::div_mod::lemma_fundamental_div_mod_converse_mod(
                    3 * p + 2,
                    3,
                    p,
                    2,
                );
                assert(target[3 * p] == cr);
                assert(target[3 * p + 1] == cg);
                assert(target[3 * p + 2] == cb);
            }
            out.push(cr);
            out.push(cg);
            out.push(cb);
            j = j + 1;
        }
        proof {
            lemma_row_step(i as int, width as int);
        }
        i = i + 1;
    }
    proof {
        assert(height as int * width as int == width as int * height as int)
            by (nonlinear_arith);
        assert(out@ =~= target);
    }
    Ok(out)
}

} // verus!
