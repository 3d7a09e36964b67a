use std::io::Cursor;

use captcha_ocr::decode::{decode_base64, process_bytes};
use captcha_ocr::errors::CaptchaError;
use captcha_ocr::pipeline::prepare_blocks;

#[test]
fn base64_decoding_recovers_the_bytes() {
    assert_eq!(decode_base64("aGVsbG8=").unwrap(), b"hello".to_vec());
    assert_eq!(decode_base64("").unwrap(), Vec::<u8>::new());
    assert_eq!(decode_base64("AAEC").unwrap(), vec![0u8, 1, 2]);
}

#[test]
fn base64_decoding_rejects_invalid_input() {
    assert_eq!(decode_base64("!!!"), Err(CaptchaError::InputError));
    assert_eq!(decode_base64("aGVsbG8"), Err(CaptchaError::InputError));
}

#[test]
fn prepare_blocks_accepts_only_a_200_by_40_buffer() {
    let pixels = vec![0u8; 32000];
    let blocks = prepare_blocks(&pixels).unwrap();
    assert_eq!(blocks.len(), 6);
    for block in &blocks {
        assert_eq!(block.len(), 528);
        assert!(block.iter().all(|&v| v == 0 || v == 1));
    }
    let short = vec![0u8; 31996];
    assert_eq!(prepare_blocks(&short), Err(CaptchaError::ShapeError));
    let odd = vec![0u8; 31999];
    assert_eq!(prepare_blocks(&odd), Err(CaptchaError::ShapeError));
}

#[test]
fn prepare_blocks_binarizes_a_synthetic_image() {
    // A buffer whose left 100 columns are saturated red and whose
    // right 100 columns are gray: within each block, red cells sit
    // above the block's mean saturation and gray cells below, except
    // in blocks that are all one color, which binarize to all zero.
    let mut pixels: Vec<u8> = Vec::with_capacity(32000);
    for _i in 0..40 {
        for j in 0..200 {
            if j < 100 {
                pixels.extend_from_slice(&[255, 0, 0, 255]);
            } else {
                pixels.extend_from_slice(&[128, 128, 128, 255]);
            }
        }
    }
    let blocks = prepare_blocks(&pixels).unwrap();
    // Block 2 spans columns 77..101: columns 77..100 are red (24th
    // column gray), so its cells are mostly 1 with a 0 fringe.
    let block2 = &blocks[2];
    for i in 0..22 {
        for j in 0..24 {
            let expected = if j < 23 { 1 } else { 0 };
            assert_eq!(block2[i * 24 + j], expected);
        }
    }
    // Block 0 (columns 27..51) is uniformly red: all zero.
    assert!(blocks[0].iter().all(|&v| v == 0));
    // Block 5 (columns 152..176) is uniformly gray: all zero.
    assert!(blocks[5].iter().all(|&v| v == 0));
}

#[test]
fn malformed_bytes_are_a_decode_error() {
    let garbage = vec![1u8, 2, 3, 4, 5, 6, 7, 8];
    assert_eq!(process_bytes(&garbage), Err(CaptchaError::DecodeError));
    let empty: Vec<u8> = Vec::new();
    assert_eq!(process_bytes(&empty), Err(CaptchaError::DecodeError));
}

fn encode_jpeg(width: u32, height: u32) -> Vec<u8> {
    let img = image::RgbImage::from_fn(width, height, |x, y| {
        let v = ((x * 7 + y * 13) % 256) as u8;
        image::Rgb([v, 255 - v, 128])
    });
    let dynimg = image::DynamicImage::ImageRgb8(img);
    let mut bytes: Vec<u8> = Vec::new();
    dynimg
        .write_to(&mut Cursor::new(&mut bytes), image::ImageFormat::Jpeg)
        .unwrap();
    bytes
}

#[test]
fn a_jpeg_of_the_wrong_geometry_is_a_shape_error() {
    let bytes = encode_jpeg(10, 10);
    assert_eq!(process_bytes(&bytes), Err(CaptchaError::ShapeError));
    let bytes = encode_jpeg(200, 41);
    assert_eq!(process_bytes(&bytes), Err(CaptchaError::ShapeError));
    let bytes = encode_jpeg(199, 40);
    assert_eq!(process_bytes(&bytes), Err(CaptchaError::ShapeError));
    // These two decode to exactly 32000 RGBA bytes, so only the
    // decoded dimensions tell them from a 200x40 image.
    let bytes = encode_jpeg(40, 200);
    assert_eq!(process_bytes(&bytes), Err(CaptchaError::ShapeError));
    let bytes = encode_jpeg(100, 80);
    assert_eq!(process_bytes(&bytes), Err(CaptchaError::ShapeError));
}

#[test]
fn a_200_by_40_jpeg_runs_the_whole_pipeline() {
    let bytes = encode_jpeg(200, 40);
    let blocks = process_bytes(&bytes).unwrap();
    assert_eq!(blocks.len(), 6);
    for block in &blocks {
        assert_eq!(block.len(), 528);
        assert!(block.iter().all(|&v| v == 0 || v == 1));
    }
    // The same blocks must come out of the pipeline run on the
    // decoder's own RGBA buffer: the library's decode step is the
    // real JPEG decode, not a pass-through of the input bytes.
    let decoded = image::load_from_memory_with_format(&bytes, image::ImageFormat::Jpeg)
        .unwrap()
        .to_rgba8()
        .into_raw();
    assert_eq!(decoded.len(), 32000);
    let expected = prepare_blocks(&decoded).unwrap();
    assert_eq!(blocks, expected);
}
