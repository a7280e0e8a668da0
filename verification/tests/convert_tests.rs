use mini_media_handler::convert::rgb_to_yuv_conventer;
use mini_media_handler::layout::MediaError;
use mini_media_handler::psnr::yuv420_luma_sse;

#[test]
fn pure_white_converts_to_peak_luma_and_neutral_chroma() {
    // A 2x2 frame of (255, 255, 255): Y = ((66+129+25)*255+128 >> 8) + 16
    // = 235 for every pixel, and both chroma samples are exactly neutral.
    let mut rgb: Vec<u8> = vec![255; 12];
    let mut yuv: Vec<u8> = vec![0; 6];
    rgb_to_yuv_conventer(&mut rgb, 2, 2, &mut yuv).unwrap();
    assert_eq!(yuv, vec![235, 235, 235, 235, 128, 128]);
    assert_eq!(rgb, vec![255; 12]);
}

#[test]
fn black_converts_to_floor_luma() {
    let mut rgb: Vec<u8> = vec![0; 12];
    let mut yuv: Vec<u8> = vec![0; 6];
    rgb_to_yuv_conventer(&mut rgb, 2, 2, &mut yuv).unwrap();
    assert_eq!(yuv, vec![16, 16, 16, 16, 128, 128]);
}

#[test]
fn chroma_takes_the_top_left_sample_of_each_block() {
    // A 4x2 frame: the left 2x2 block is pure red, the right pure blue.
    // Red (255,0,0): Y = 82, U = 90, V = 240. Blue (0,0,255): Y = 41,
    // U = 240, V = 110. Each block's chroma comes from its top-left pixel.
    let mut rgb: Vec<u8> = Vec::new();
    for _ in 0..2 {
        rgb.extend_from_slice(&[255, 0, 0, 255, 0, 0, 0, 0, 255, 0, 0, 255]);
    }
    let mut yuv: Vec<u8> = vec![0; 12];
    rgb_to_yuv_conventer(&mut rgb, 4, 2, &mut yuv).unwrap();
    assert_eq!(&yuv[..8], &[82, 82, 41, 41, 82, 82, 41, 41][..]);
    assert_eq!(&yuv[8..10], &[90, 240][..]);
    assert_eq!(&yuv[10..12], &[240, 110][..]);
}

#[test]
fn conventer_rejects_mismatched_buffers() {
    let mut rgb: Vec<u8> = vec![0; 11];
    let mut yuv: Vec<u8> = vec![0; 6];
    assert_eq!(
        rgb_to_yuv_conventer(&mut rgb, 2, 2, &mut yuv),
        Err(MediaError::InvalidDimensions)
    );
    let mut rgb: Vec<u8> = vec![0; 12];
    let mut yuv: Vec<u8> = vec![0; 7];
    assert_eq!(
        rgb_to_yuv_conventer(&mut rgb, 2, 2, &mut yuv),
        Err(MediaError::InvalidDimensions)
    );
    let mut rgb: Vec<u8> = vec![0; 9];
    let mut yuv: Vec<u8> = vec![0; 4];
    assert_eq!(
        rgb_to_yuv_conventer(&mut rgb, 3, 1, &mut yuv),
        Err(MediaError::InvalidDimensions)
    );
}

#[test]
fn identical_frames_have_zero_error_and_infinite_psnr() {
    let a: Vec<u8> = vec![0; 6];
    let b: Vec<u8> = vec![0; 6];
    let sse = yuv420_luma_sse(&a, &b, 2, 2).unwrap();
    assert_eq!(sse, 0);
    let mse = sse as f64 / 4.0;
    let psnr_db = 10.0 * f64::log10(255.0 * 255.0 / mse);
    assert_eq!(mse, 0.0);
    assert!(psnr_db.is_infinite() && psnr_db > 0.0);
}

#[test]
fn opposite_frames_have_peak_error_and_zero_psnr() {
    // All-zero against all-255 luma on 2x2: every squared difference is
    // 255 * 255 = 65025, the mean squared error is 65025, and the PSNR is
    // 10 * log10(65025 / 65025) = 0 dB.
    let a: Vec<u8> = vec![0; 6];
    let mut b: Vec<u8> = vec![255; 6];
    b[4] = 0;
    b[5] = 0;
    let sse = yuv420_luma_sse(&a, &b, 2, 2).unwrap();
    assert_eq!(sse, 4 * 65025);
    let mse = sse as f64 / 4.0;
    assert_eq!(mse, 65025.0);
    let psnr_db = 10.0 * f64::log10(255.0 * 255.0 / mse);
    assert_eq!(psnr_db, 0.0);
}

#[test]
fn luma_sse_skips_chroma() {
    let a: Vec<u8> = vec![1, 2, 3, 4, 100, 200];
    let b: Vec<u8> = vec![1, 2, 3, 4, 0, 0];
    assert_eq!(yuv420_luma_sse(&a, &b, 2, 2).unwrap(), 0);
}

#[test]
fn luma_sse_rejects_mismatched_buffers() {
    let a: Vec<u8> = vec![0; 6];
    let b: Vec<u8> = vec![0; 5];
    assert_eq!(yuv420_luma_sse(&a, &b, 2, 2), Err(MediaError::InvalidDimensions));
    assert_eq!(yuv420_luma_sse(&a, &a, 3, 3), Err(MediaError::InvalidDimensions));
}
