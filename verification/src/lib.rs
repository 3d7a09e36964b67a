//! Reads a fixed-geometry CAPTCHA image and recovers its six-character
//! answer.  The verified core covers the per-pixel saturation transform,
//! the reshape of the flat saturation buffer into a 40x200 grid, the
//! fixed-offset segmentation into six 22x24 character blocks, the
//! per-block mean binarization, and the mapping of classifier class
//! indices to characters of the fixed 32-symbol alphabet.  The linear
//! classifier itself works in floating point and lives outside the
//! verified library, as do file reading and the raw JPEG and base64
//! decoders, which are called through trusted declarations.

pub mod blocks;
pub mod classify;
pub mod decode;
pub mod errors;
pub mod pipeline;
pub mod transform;
