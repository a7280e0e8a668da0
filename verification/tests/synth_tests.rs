use mini_media_handler::layout::MediaError;
use mini_media_handler::synth::{rgb24_colorbar_frame, yuv420_greybar_frame};

#[test]
fn greybar_ramp_endpoints() {
    // Ten bars over 640 columns: bar width 64, column 0 carries the minimum
    // and column 639 (bar index 9) carries 0 + (9 * 255) / 9 = 255.
    let frame = yuv420_greybar_frame(640, 2, 0, 255, 10).unwrap();
    assert_eq!(frame.len(), 640 * 2 * 3 / 2);
    assert_eq!(frame[0], 0);
    assert_eq!(frame[639], 255);
    // Every row carries the same ramp.
    assert_eq!(frame[640], 0);
    assert_eq!(frame[640 + 639], 255);
    // Bar boundaries: column 63 is still bar 0, column 64 starts bar 1 with
    // value (1 * 255) / 9 = 28.
    assert_eq!(frame[63], 0);
    assert_eq!(frame[64], 28);
    // Both chroma planes are neutral.
    for k in (640 * 2)..frame.len() {
        assert_eq!(frame[k], 128);
    }
}

#[test]
fn greybar_respects_minimum_luma() {
    let frame = yuv420_greybar_frame(8, 2, 16, 235, 2).unwrap();
    // Bar width 4: columns 0..3 carry 16, columns 4..7 carry 16 + 219 = 235.
    assert_eq!(&frame[..8], &[16, 16, 16, 16, 235, 235, 235, 235][..]);
}

#[test]
fn greybar_rejects_bad_parameters() {
    assert_eq!(yuv420_greybar_frame(640, 2, 0, 255, 1), Err(MediaError::InvalidParameter));
    assert_eq!(yuv420_greybar_frame(4, 2, 0, 255, 10), Err(MediaError::InvalidParameter));
    assert_eq!(yuv420_greybar_frame(640, 2, 200, 100, 10), Err(MediaError::InvalidParameter));
}

#[test]
fn greybar_rejects_bad_dimensions() {
    assert_eq!(yuv420_greybar_frame(0, 2, 0, 255, 10), Err(MediaError::InvalidDimensions));
    assert_eq!(yuv420_greybar_frame(641, 2, 0, 255, 10), Err(MediaError::InvalidDimensions));
}

#[test]
fn colorbar_palette_order() {
    // Width 16: bar width 2, eight bars of two columns each, one row.
    let frame = rgb24_colorbar_frame(16, 1).unwrap();
    assert_eq!(frame.len(), 48);
    let palette: [(u8, u8, u8); 8] = [
        (255, 255, 255),
        (255, 255, 0),
        (0, 255, 255),
        (0, 255, 0),
        (255, 0, 255),
        (255, 0, 0),
        (0, 0, 255),
        (0, 0, 0),
    ];
    for j in 0..16 {
        let (r, g, b) = palette[j / 2];
        assert_eq!(frame[3 * j], r);
        assert_eq!(frame[3 * j + 1], g);
        assert_eq!(frame[3 * j + 2], b);
    }
}

#[test]
fn colorbar_remainder_columns_take_the_last_color() {
    // Width 20: bar width 2, columns 16..19 map to bands 8 and 9, which
    // belong to the last color band (black).
    let frame = rgb24_colorbar_frame(20, 1).unwrap();
    for j in 16..20 {
        assert_eq!(frame[3 * j], 0);
        assert_eq!(frame[3 * j + 1], 0);
        assert_eq!(frame[3 * j + 2], 0);
    }
}

#[test]
fn colorbar_rejects_narrow_or_empty_frames() {
    assert_eq!(rgb24_colorbar_frame(7, 2), Err(MediaError::InvalidParameter));
    assert_eq!(rgb24_colorbar_frame(0, 2), Err(MediaError::InvalidDimensions));
    assert_eq!(rgb24_colorbar_frame(16, 0), Err(MediaError::InvalidDimensions));
}
