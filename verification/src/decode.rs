//! The trusted boundary to the outside decoders, and the verified
//! entry points that run the pipeline on raw or base64-encoded bytes.

use vstd::prelude::*;

use crate::errors::CaptchaError;
use crate::pipeline::{binary_blocks_of, prepare_blocks};

verus! {

#[verifier::external_type_specification]
#[verifier::external_body]
pub struct ExDecodeError(base64::DecodeError);

#[verifier::external_type_specification]
#[verifier::external_body]
pub struct ExImageError(image::ImageError);

/// Whether standard base64 decoding accepts a given input string: a
/// function of the characters alone.
pub uninterp spec fn base64_ok_of(s: Seq<char>) -> bool;

/// The bytes that standard base64 decoding yields for a given input
/// string: a function of the characters alone.
pub uninterp spec fn base64_bytes_of(s: Seq<char>) -> Seq<u8>;

/// Whether the JPEG decoder accepts a given byte input: a function of
/// the bytes alone.
pub uninterp spec fn jpeg_ok_of(bytes: Seq<u8>) -> bool;

/// The RGBA pixel buffer that the JPEG decoder yields for a given
/// byte input: a function of the bytes alone.
pub uninterp spec fn jpeg_rgba_of(bytes: Seq<u8>) -> Seq<u8>;

/// The width, in pixels, of the image the JPEG decoder yields for a
/// given byte input: a function of the bytes alone.
pub uninterp spec fn jpeg_width_of(bytes: Seq<u8>) -> u32;

/// The height, in pixels, of the image the JPEG decoder yields for a
/// given byte input: a function of the bytes alone.
pub uninterp spec fn jpeg_height_of(bytes: Seq<u8>) -> u32;

/// Relies on base64's standard-alphabet `decode`: whether the input
/// is accepted, and what bytes come back, are deterministic functions
/// of the input characters.
#[verifier::external_body]
fn base64_decode_raw(data: &str) -> (r: Result<Vec<u8>, base64::DecodeError>)
    ensures
        r is Ok <==> base64_ok_of(data@),
        r matches Ok(v) ==> v@ == base64_bytes_of(data@),
{
    base64::Engine::decode(&base64::engine::general_purpose::STANDARD, data)
}

/// Relies on image's `load_from_memory_with_format` with the JPEG
/// format, `to_rgba8`, `width`, `height` and `into_raw`: whether the
/// bytes decode, the decoded dimensions, and the raw RGBA buffer are
/// deterministic functions of the input bytes, and the buffer holds
/// four bytes for each of the width times height pixels.
#[verifier::external_body]
fn jpeg_decode_rgba(bytes: &Vec<u8>) -> (r: Result<(Vec<u8>, u32, u32), image::ImageError>)
    ensures
        r is Ok <==> jpeg_ok_of(bytes@),
        r matches Ok(v) ==> v.0@ == jpeg_rgba_of(bytes@) && v.1 == jpeg_width_of(bytes@) && v.2
            == jpeg_height_of(bytes@) && v.0@.len() == 4 * v.1 * v.2,
{
    match image::load_from_memory_with_format(bytes.as_slice(), image::ImageFormat::Jpeg) {
        Ok(img) => {
            let rgba = img.to_rgba8();
            let width = rgba.width();
            let height = rgba.height();
            Ok((rgba.into_raw(), width, height))
        },
        Err(e) => Err(e),
    }
}

/// Decodes a base64 string to raw bytes; exactly the strings the
/// standard base64 alphabet accepts succeed, and any other string is
/// an input error.
pub fn decode_base64(data: &str) -> (r: Result<Vec<u8>, CaptchaError>)
    ensures
        r is Ok <==> base64_ok_of(data@),
        r matches Ok(v) ==> v@ == base64_bytes_of(data@),
        r matches Err(e) ==> e == CaptchaError::InputError,
{
    match base64_decode_raw(data) {
        Ok(v) => Ok(v),
        Err(_) => Err(CaptchaError::InputError),
    }
}

/// Decodes JPEG bytes and runs the integer pipeline on the decoded
/// RGBA buffer.  Bytes the decoder rejects are a decode error; a
/// decoded image of any geometry but 200x40 is a shape error; on
/// exactly a 200x40 image the result is the six flattened binary
/// blocks of the decoded buffer.
pub fn process_bytes(byte_array: &Vec<u8>) -> (r: Result<Vec<Vec<u8>>, CaptchaError>)
    ensures
        r is Ok <==> (jpeg_ok_of(byte_array@) && jpeg_width_of(byte_array@) == 200
            && jpeg_height_of(byte_array@) == 40),
        r matches Ok(bl) ==> bl@.len() == 6 && forall|a: int|
            0 <= a < 6 ==> #[trigger] bl@[a]@ == binary_blocks_of(jpeg_rgba_of(byte_array@))[a],
        r == Err::<Vec<Vec<u8>>, CaptchaError>(CaptchaError::DecodeError) <==> !jpeg_ok_of(
            byte_array@,
        ),
        r == Err::<Vec<Vec<u8>>, CaptchaError>(CaptchaError::ShapeError) <==> (jpeg_ok_of(
            byte_array@,
        ) && !(jpeg_width_of(byte_array@) == 200 && jpeg_height_of(byte_array@) == 40)),
{
    let decoded = match jpeg_decode_rgba(byte_array) {
        Ok(v) => v,
        Err(_) => {
            return Err(CaptchaError::DecodeError);
        },
    };
    let (pixels, width, height) = decoded;
    if width != 200 || height != 40 {
        return Err(CaptchaError::ShapeError);
    }
    assert(pixels@.len() == 32000);
    match prepare_blocks(&pixels) {
        Ok(bl) => Ok(bl),
        Err(e) => {
            proof {
                assert(false);
            }
            Err(e)
        },
    }
}

} // verus!
