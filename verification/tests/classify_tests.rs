use captcha_ocr::classify::{class_char, classes_to_text};
use captcha_ocr::errors::CaptchaError;

#[test]
fn class_char_maps_the_alphabet_ends() {
    assert_eq!(class_char(0), Ok('A'));
    assert_eq!(class_char(7), Ok('H'));
    assert_eq!(class_char(8), Ok('J'));
    assert_eq!(class_char(23), Ok('Z'));
    assert_eq!(class_char(24), Ok('2'));
    assert_eq!(class_char(31), Ok('9'));
}

#[test]
fn class_char_rejects_an_index_past_the_alphabet() {
    assert_eq!(class_char(32), Err(CaptchaError::ShapeError));
    assert_eq!(class_char(1000), Err(CaptchaError::ShapeError));
}

#[test]
fn the_alphabet_skips_the_confusable_symbols() {
    let mut letters = String::new();
    for index in 0..32 {
        letters.push(class_char(index).unwrap());
    }
    assert_eq!(letters, "ABCDEFGHJKLMNPQRSTUVWXYZ23456789");
    assert!(!letters.contains('I'));
    assert!(!letters.contains('O'));
    assert!(!letters.contains('0'));
    assert!(!letters.contains('1'));
}

#[test]
fn classes_concatenate_left_to_right() {
    let classes: Vec<usize> = vec![0, 1, 2, 3, 4, 5];
    assert_eq!(classes_to_text(&classes).unwrap(), "ABCDEF");
    let classes: Vec<usize> = vec![31, 24, 8, 23, 0, 13];
    assert_eq!(classes_to_text(&classes).unwrap(), "92JZAP");
}

#[test]
fn classes_to_text_rejects_the_wrong_count() {
    let classes: Vec<usize> = vec![0, 1, 2, 3, 4];
    assert_eq!(classes_to_text(&classes), Err(CaptchaError::ShapeError));
    let classes: Vec<usize> = vec![0, 1, 2, 3, 4, 5, 6];
    assert_eq!(classes_to_text(&classes), Err(CaptchaError::ShapeError));
}

#[test]
fn classes_to_text_rejects_an_out_of_range_class() {
    let classes: Vec<usize> = vec![0, 1, 2, 3, 4, 32];
    assert_eq!(classes_to_text(&classes), Err(CaptchaError::ShapeError));
}
