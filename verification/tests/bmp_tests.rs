use mini_media_handler::bmp::{
    encode_bmp_header, encode_info_header, rgb24_to_bmp_frame, BmpHeader, InfoHeader,
};
use mini_media_handler::layout::MediaError;

#[test]
fn bmp_header_encodes_little_endian() {
    let header = BmpHeader { image_size: 66, blank: 0, start_position: 54 };
    let bytes = encode_bmp_header(&header);
    assert_eq!(bytes, vec![66, 0, 0, 0, 0, 0, 0, 0, 54, 0, 0, 0]);
}

#[test]
fn info_header_encodes_negative_height_in_twos_complement() {
    let header = InfoHeader {
        length: 40,
        width: 2,
        height: -2,
        color_plane: 1,
        bit_color: 24,
        zip_format: 0,
        real_size: 12,
        x_pels: 0,
        y_pels: 0,
        color_use: 0,
        color_important: 0,
    };
    let bytes = encode_info_header(&header);
    assert_eq!(bytes.len(), 40);
    assert_eq!(&bytes[..4], &[40, 0, 0, 0][..]);
    assert_eq!(&bytes[4..8], &[2, 0, 0, 0][..]);
    assert_eq!(&bytes[8..12], &[0xFE, 0xFF, 0xFF, 0xFF][..]);
    assert_eq!(&bytes[12..14], &[1, 0][..]);
    assert_eq!(&bytes[14..16], &[24, 0][..]);
}

#[test]
fn bmp_file_for_all_red_frame() {
    // A 2x2 frame of pure red (255, 0, 0). The pixel data starts at byte
    // 2 + 12 + 40 = 54, the stored height is -2 (top-down), and every
    // emitted pixel is (0, 0, 255): B,G,R order with red moved to the end.
    let mut pixels: Vec<u8> = Vec::new();
    for _ in 0..4 {
        pixels.extend_from_slice(&[255, 0, 0]);
    }
    let file = rgb24_to_bmp_frame(&pixels, 2, 2).unwrap();
    assert_eq!(file.len(), 54 + 12);
    // Signature.
    assert_eq!(&file[..2], &[b'B', b'M'][..]);
    // File header: whole size 66, reserved zero, pixel data offset 54.
    assert_eq!(&file[2..6], &[66, 0, 0, 0][..]);
    assert_eq!(&file[6..10], &[0, 0, 0, 0][..]);
    assert_eq!(&file[10..14], &[54, 0, 0, 0][..]);
    // Info header: length 40, width 2, height -2.
    assert_eq!(&file[14..18], &[40, 0, 0, 0][..]);
    assert_eq!(&file[18..22], &[2, 0, 0, 0][..]);
    assert_eq!(&file[22..26], &[0xFE, 0xFF, 0xFF, 0xFF][..]);
    // One color plane, 24 bits per pixel, no compression, 12 pixel bytes.
    assert_eq!(&file[26..28], &[1, 0][..]);
    assert_eq!(&file[28..30], &[24, 0][..]);
    assert_eq!(&file[30..34], &[0, 0, 0, 0][..]);
    assert_eq!(&file[34..38], &[12, 0, 0, 0][..]);
    assert_eq!(&file[38..54], &[0u8; 16][..]);
    // Pixel data, red and blue swapped.
    for p in 0..4 {
        assert_eq!(&file[54 + 3 * p..54 + 3 * p + 3], &[0, 0, 255][..]);
    }
    // The caller's buffer is untouched by the swap.
    assert_eq!(pixels[0], 255);
}

#[test]
fn bmp_swap_is_per_pixel_not_global() {
    // Two distinct pixels: (1, 2, 3) then (4, 5, 6) come out as (3, 2, 1)
    // then (6, 5, 4).
    let pixels: Vec<u8> = vec![1, 2, 3, 4, 5, 6];
    let file = rgb24_to_bmp_frame(&pixels, 2, 1).unwrap();
    assert_eq!(&file[54..], &[3, 2, 1, 6, 5, 4][..]);
}

#[test]
fn bmp_rejects_wrong_buffer_length() {
    let pixels: Vec<u8> = vec![0; 11];
    assert_eq!(rgb24_to_bmp_frame(&pixels, 2, 2), Err(MediaError::InvalidDimensions));
    let pixels: Vec<u8> = vec![0; 12];
    assert_eq!(rgb24_to_bmp_frame(&pixels, 0, 2), Err(MediaError::InvalidDimensions));
}
