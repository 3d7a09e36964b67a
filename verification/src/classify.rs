//! Mapping of classifier class indices to characters of the fixed
//! 32-symbol alphabet, and assembly of the six-character answer.

use vstd::prelude::*;

use crate::errors::CaptchaError;

verus! {

/// The fixed output alphabet, one character per classifier class:
/// upper-case letters and digits, excluding the confusable I, O, 0
/// and 1.
pub open spec fn alphabet() -> Seq<char> {
    "ABCDEFGHJKLMNPQRSTUVWXYZ23456789"@
}

/// The alphabet as an executable string slice.
pub fn alphabet_str() -> (s: &'static str)
    ensures
        s@ == alphabet(),
        s@.len() == 32,
        s.is_ascii(),
{
    let s = "ABCDEFGHJKLMNPQRSTUVWXYZ23456789";
    proof {
        reveal_strlit("ABCDEFGHJKLMNPQRSTUVWXYZ23456789");
        assert(s@.len() == 32);
    }
    s
}

/// The character of one classifier class: index `i` names
/// `alphabet()[i]`.  An index at or past 32 is a geometry error.
pub fn class_char(index: usize) -> (r: Result<char, CaptchaError>)
    ensures
        r is Ok <==> index < 32,
        r matches Ok(c) ==> c == alphabet()[index as int],
        r matches Err(e) ==> e == CaptchaError::ShapeError,
{
    if index < 32 {
        let s = alphabet_str();
        Ok(s.get_char(index))
    } else {
        Err(CaptchaError::ShapeError)
    }
}

/// The answer text of a sequence of classifier classes.
pub open spec fn text_of_classes(classes: Seq<usize>) -> Seq<char> {
    Seq::new(classes.len(), |p: int| alphabet()[classes[p] as int])
}

/// Concatenates the characters of six classifier classes, in order,
/// into the six-character answer.  Anything but exactly six in-range
/// class indices is a geometry error.
pub fn classes_to_text(classes: &Vec<usize>) -> (r: Result<String, CaptchaError>)
    ensures
        r is Ok <==> (classes@.len() == 6 && forall|p: int|
            0 <= p < 6 ==> #[trigger] classes@[p] < 32),
        r matches Ok(t) ==> t@ == text_of_classes(classes@),
        r matches Err(e) ==> e == CaptchaError::ShapeError,
{
    if classes.len() != 6 {
        return Err(CaptchaError::ShapeError);
    }
    let s = alphabet_str();
    let mut text = String::new();
    for p in 0..6usize
        invariant
            classes@.len() == 6,
            s@ == alphabet(),
            s@.len() == 32,
            s.is_ascii(),
            text@.len() == p,
            forall|q: int| 0 <= q < p ==> #[trigger] classes@[q] < 32,
            forall|q: int| 0 <= q < p ==> #[trigger] text@[q] == alphabet()[classes@[q] as int],
    {
        let index = classes[p];
        if index >= 32 {
            proof {
                assert(classes@[p as int] >= 32);
            }
            return Err(CaptchaError::ShapeError);
        }
        let piece = s.substring_ascii(index, index + 1);
        proof {
            assert(piece@ =~= alphabet().subrange(index as int, index as int + 1));
            assert(piece@[0] == alphabet()[index as int]);
        }
        text.append(piece);
    }
    proof {
        assert(text@ =~= text_of_classes(classes@));
    }
    Ok(text)
}

} // verus!
