use captcha_ocr::errors::CaptchaError;
use captcha_ocr::transform::{de_flatten, saturate};

#[test]
fn saturation_of_gray_is_zero_for_every_level() {
    for c in 0u8..=255 {
        let pixels = vec![c, c, c, 77];
        let sat = saturate(&pixels).unwrap();
        assert_eq!(sat, vec![0u8]);
    }
}

#[test]
fn saturation_of_pure_red_is_full() {
    let pixels = vec![255, 0, 0, 1];
    assert_eq!(saturate(&pixels).unwrap(), vec![255u8]);
}

#[test]
fn saturation_of_black_avoids_zero_division() {
    let pixels = vec![0, 0, 0, 200];
    assert_eq!(saturate(&pixels).unwrap(), vec![0u8]);
}

#[test]
fn saturation_truncates_toward_zero() {
    // max 200, min 50: (150 * 255) / 200 = 38250 / 200 = 191.25 -> 191
    let pixels = vec![100, 50, 200, 0];
    assert_eq!(saturate(&pixels).unwrap(), vec![191u8]);
}

#[test]
fn saturation_handles_several_pixels_in_order() {
    let pixels = vec![255, 0, 0, 9, 10, 10, 10, 9, 0, 255, 0, 9];
    assert_eq!(saturate(&pixels).unwrap(), vec![255u8, 0, 255]);
}

#[test]
fn saturation_rejects_length_not_multiple_of_four() {
    let pixels = vec![1u8, 2, 3];
    assert_eq!(saturate(&pixels), Err(CaptchaError::ShapeError));
    let pixels = vec![1u8, 2, 3, 4, 5];
    assert_eq!(saturate(&pixels), Err(CaptchaError::ShapeError));
}

#[test]
fn reshape_places_every_cell_row_major() {
    let buffer: Vec<u8> = (0..8000usize).map(|k| (k % 251) as u8).collect();
    let grid = de_flatten(&buffer).unwrap();
    assert_eq!(grid.len(), 40);
    for i in 0..40 {
        assert_eq!(grid[i].len(), 200);
        for j in 0..200 {
            assert_eq!(grid[i][j], buffer[i * 200 + j]);
        }
    }
}

#[test]
fn reshape_rejects_short_and_long_buffers() {
    let short: Vec<u8> = vec![0u8; 7999];
    assert_eq!(de_flatten(&short), Err(CaptchaError::ShapeError));
    let long: Vec<u8> = vec![0u8; 8001];
    assert_eq!(de_flatten(&long), Err(CaptchaError::ShapeError));
    let empty: Vec<u8> = Vec::new();
    assert_eq!(de_flatten(&empty), Err(CaptchaError::ShapeError));
}
