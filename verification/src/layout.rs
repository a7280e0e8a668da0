use vstd::prelude::*;

verus! {

/// The failure kinds that the frame operations report. Validation happens
/// before any buffer is indexed, so none of the operations panics on
/// malformed-but-well-typed input.
#[derive(Clone, Copy, Debug, PartialEq, Eq, Structural)]
pub enum MediaError {
    /// Zero or layout-incompatible width/height, or a buffer whose length
    /// does not match the frame size of the chosen layout.
    InvalidDimensions,
    /// A parameter outside its meaningful range, such as a bar count below
    /// two or a border thicker than the frame.
    InvalidParameter,
    /// A source ran out of bytes before a whole frame was available.
    ShortRead,
    /// A zero-difference input to the quality metric, whose ratio is infinite.
    DegenerateInput,
}

/// The pixel layouts the library understands.
#[derive(Clone, Copy, Debug, PartialEq, Eq, Structural)]
pub enum PixelLayout {
    /// Planar luma plus quarter-resolution chroma: Y (width*height bytes),
    /// then U and V (width*height/4 bytes each).
    Yuv420p,
    /// Planar full-resolution chroma: Y, U and V, width*height bytes each.
    Yuv444p,
    /// Packed red, green, blue: three bytes per pixel, row-major.
    Rgb24,
}

/// Dimensions a layout accepts: both must be positive, and the 4:2:0 layout
/// needs even width and height so that each chroma plane is exactly
/// (width/2) x (height/2) bytes.
pub open spec fn valid_dims(layout: PixelLayout, w: int, h: int) -> bool {
    &&& w > 0
    &&& h > 0
    &&& (layout is Yuv420p ==> w % 2 == 0 && h % 2 == 0)
}

/// Total bytes of one frame: the plane sizes added, with no gaps in between.
pub open spec fn spec_frame_size(layout: PixelLayout, w: int, h: int) -> int {
    match layout {
        PixelLayout::Yuv420p => w * h + (w * h) / 4 + (w * h) / 4,
        PixelLayout::Yuv444p => w * h + w * h + w * h,
        PixelLayout::Rgb24 => 3 * (w * h),
    }
}

/// Row-major indexing: for row `i` and column `j` of a `w`-by-`h` grid, the
/// flat index `i*w + j` lies inside the grid and decomposes back into the
/// same row and column.
pub proof fn lemma_flat_index(i: int, j: int, w: int, h: int)
    requires
        0 <= i < h,
        0 <= j < w,
    ensures
        0 <= i * w + j < w * h,
        (i * w + j) / w == i,
        (i * w + j) % w == j,
{
    assert(0 <= i * w + j < w * h) by (nonlinear_arith)
        requires
            0 <= i < h,
            0 <= j < w,
    ;
    vstd::arithmetic::div_mod::lemma_fundamental_div_mod_converse_div(i * w + j, w, i, j);
    vstd::arithmetic::div_mod::lemma_fundamental_div_mod_converse_mod(i * w + j, w, i, j);
}

/// Stepping one row down in a row-major grid advances the flat index by `w`.
pub proof fn lemma_row_step(i: int, w: int)
    ensures
        (i + 1) * w == i * w + w,
{
    assert((i + 1) * w == i * w + w) by (nonlinear_arith);
}

/// Computes the byte length of one frame, rejecting dimensions that the
/// layout does not accept and sizes beyond what a buffer can hold.
pub fn frame_size(layout: PixelLayout, width: usize, height: usize) -> (r: Result<
    usize,
    MediaError,
>)
    ensures
        r is Ok <==> (valid_dims(layout, width as int, height as int) && spec_frame_size(
            layout,
            width as int,
            height as int,
        ) <= usize::MAX),
        r is Ok ==> r->Ok_0 == spec_frame_size(layout, width as int, height as int),
        r is Err ==> r->Err_0 == MediaError::InvalidDimensions,
{
    if width == 0 || height == 0 {
        return Err(MediaError::InvalidDimensions);
    }
    match layout {
        PixelLayout::Yuv420p => {
            if width % 2 != 0 || height % 2 != 0 {
                return Err(MediaError::InvalidDimensions);
            }
            let wh = match width.checked_mul(height) {
                Some(wh) => wh,
                None => {
                    return Err(MediaError::InvalidDimensions);
                },
            };
            let quarter = wh / 4;
            let part = match wh.checked_add(quarter) {
                Some(part) => part,
                None => {
                    return Err(MediaError::InvalidDimensions);
                },
            };
            match part.checked_add(quarter) {
                Some(size) => Ok(size),
                None => Err(MediaError::InvalidDimensions),
            }
        },
        PixelLayout::Yuv444p | PixelLayout::Rgb24 => {
            let wh = match width.checked_mul(height) {
                Some(wh) => wh,
                None => {
                    return Err(MediaError::InvalidDimensions);
                },
            };
            let part = match wh.checked_add(wh) {
                Some(part) => part,
                None => {
                    return Err(MediaError::InvalidDimensions);
                },
            };
            match part.checked_add(wh) {
                Some(size) => Ok(size),
                None => Err(MediaError::InvalidDimensions),
            }
        },
    }
}

} // verus!
