use mini_media_handler::layout::MediaError;
use mini_media_handler::transform::{yuv420_border_frame, yuv420_grey_frame, yuv420_halfy_frame};

#[test]
fn grey_flatten_keeps_luma_and_neutralizes_chroma() {
    let mut buffer: Vec<u8> = vec![1, 2, 3, 4, 5, 6, 7, 8, 20, 21, 30, 31];
    yuv420_grey_frame(&mut buffer, 4, 2).unwrap();
    assert_eq!(buffer, vec![1, 2, 3, 4, 5, 6, 7, 8, 128, 128, 128, 128]);
}

#[test]
fn grey_flatten_is_idempotent() {
    let mut once: Vec<u8> = vec![9, 8, 7, 6, 5, 4, 3, 2, 1, 0, 200, 100];
    yuv420_grey_frame(&mut once, 4, 2).unwrap();
    let mut twice = once.clone();
    yuv420_grey_frame(&mut twice, 4, 2).unwrap();
    assert_eq!(twice, once);
}

#[test]
fn grey_flatten_rejects_wrong_buffer_length() {
    let mut buffer: Vec<u8> = vec![0; 13];
    assert_eq!(yuv420_grey_frame(&mut buffer, 4, 2), Err(MediaError::InvalidDimensions));
    assert_eq!(buffer, vec![0; 13]);
}

#[test]
fn halfy_floors_each_luma_sample() {
    // 5 / 2 must floor to 2, not round to 3; chroma bytes stay untouched.
    let mut buffer: Vec<u8> = vec![5, 4, 255, 0, 7, 1, 100, 101, 90, 91, 92, 93];
    yuv420_halfy_frame(&mut buffer, 4, 2).unwrap();
    assert_eq!(buffer, vec![2, 2, 127, 0, 3, 0, 50, 50, 90, 91, 92, 93]);
}

#[test]
fn halfy_never_brightens() {
    let original: Vec<u8> = vec![255, 254, 3, 2, 1, 0, 17, 33, 128, 128, 128, 128];
    let mut halved = original.clone();
    yuv420_halfy_frame(&mut halved, 4, 2).unwrap();
    for (new, old) in halved.iter().zip(original.iter()) {
        assert!(*new <= *old);
    }
}

#[test]
fn border_zero_leaves_frame_unchanged() {
    let original: Vec<u8> = vec![1, 2, 3, 4, 5, 6, 7, 8, 9, 10, 11, 12];
    let mut painted = original.clone();
    yuv420_border_frame(&mut painted, 4, 2, 0).unwrap();
    assert_eq!(painted, original);
}

#[test]
fn border_paints_by_the_strict_boundary_formula() {
    // 4x4 luma, border 1: the condition i < 1 || i > 3 || j < 1 || j > 3
    // paints row 0 and column 0 only; the far row and column stay, because
    // the comparison at the far edge is strict.
    let mut buffer: Vec<u8> = vec![0; 24];
    yuv420_border_frame(&mut buffer, 4, 4, 1).unwrap();
    let expected_luma: Vec<u8> = vec![
        255, 255, 255, 255,
        255, 0, 0, 0,
        255, 0, 0, 0,
        255, 0, 0, 0,
    ];
    assert_eq!(&buffer[..16], &expected_luma[..]);
    assert_eq!(&buffer[16..], &[0u8; 8][..]);
}

#[test]
fn border_two_paints_far_edge_row_and_column() {
    // 4x4 luma, border 2: i < 2 || i > 2 || j < 2 || j > 2 spares only the
    // single sample at row 2, column 2.
    let mut buffer: Vec<u8> = vec![0; 24];
    yuv420_border_frame(&mut buffer, 4, 4, 2).unwrap();
    for i in 0..4 {
        for j in 0..4 {
            let expected = if i == 2 && j == 2 { 0 } else { 255 };
            assert_eq!(buffer[i * 4 + j], expected);
        }
    }
}

#[test]
fn border_thicker_than_frame_is_rejected() {
    let mut buffer: Vec<u8> = vec![0; 24];
    assert_eq!(yuv420_border_frame(&mut buffer, 4, 4, 5), Err(MediaError::InvalidParameter));
    assert_eq!(buffer, vec![0; 24]);
}

#[test]
fn border_rejects_wrong_buffer_length() {
    let mut buffer: Vec<u8> = vec![0; 23];
    assert_eq!(yuv420_border_frame(&mut buffer, 4, 4, 1), Err(MediaError::InvalidDimensions));
}
