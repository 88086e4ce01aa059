//! What surrounds the OCR engine call: where its data lives, the pixels it
//! is handed, the text it gives back, and how its failure reads.
use vstd::prelude::*;
use crate::date::decimal_chars;
use crate::date::decimal;
use crate::path::{join_path, joined};
use crate::text::{push_str, str_chars, string_from_chars, trim, trim_str};

verus! {

/// A failure of the OCR engine, with the engine's message.
#[derive(Debug, PartialEq, Eq)]
pub enum OcrError {
    Engine(String),
}

/// The text an OCR error is shown with.
pub open spec fn ocr_error_message(e: OcrError) -> Seq<char> {
    match e {
        OcrError::Engine(m) => "tesseract failed: "@ + m@,
    }
}

impl OcrError {
    /// The text this error is shown with.
    pub fn message(&self) -> (r: String)
        ensures
            r@ == ocr_error_message(*self),
    {
        match self {
            OcrError::Engine(m) => {
                let mut s = "tesseract failed: ".to_owned();
                s.append(m.as_str());
                s
            },
        }
    }
}

/// The folder the engine reads language data from: `tessdata` under the prefix.
pub fn tessdata_path_for(tessdata_prefix: &str) -> (r: String)
    ensures
        r@ == joined(tessdata_prefix@, "tessdata"@),
{
    join_path(tessdata_prefix, "tessdata")
}

/// The RGB bytes of the first `pixels` RGBA pixels: each pixel's alpha dropped.
pub open spec fn rgb_of(rgba: Seq<u8>, pixels: int) -> Seq<u8> {
    Seq::new((3 * pixels) as nat, |i: int| rgba[(i / 3) * 4 + i % 3])
}

/// The message when the buffer holds fewer bytes than the image needs.
pub open spec fn buffer_too_small_message(got: nat, expected: nat) -> Seq<char> {
    "RGBA buffer too small: got "@ + decimal(got) + ", expected "@ + decimal(expected)
}

/// The pixels the engine is handed: the RGB bytes of a `width` by `height`
/// RGBA image, or an error when the buffer is too short for it.
pub fn rgba_to_rgb(rgba: &[u8], width: u32, height: u32) -> (r: Result<Vec<u8>, OcrError>)
    requires
        width as int * height as int * 4 <= usize::MAX,
    ensures
        r is Ok <==> rgba@.len() >= width as int * height as int * 4,
        r matches Ok(rgb) ==> rgb@ == rgb_of(rgba@, width as int * height as int),
        r matches Err(e) ==> ocr_error_message(e) == "tesseract failed: "@
            + buffer_too_small_message(rgba@.len(), (width as int * height as int * 4) as nat),
{
    assert(0 <= width as int * height as int) by (nonlinear_arith);
    let pixel_count: usize = (width as usize) * (height as usize);
    let expected_len: usize = pixel_count * 4;
    if rgba.len() < expected_len {
        let mut msg: Vec<char> = Vec::new();
        push_str(&mut msg, "RGBA buffer too small: got ");
        let mut got = decimal_chars(rgba.len() as u64);
        msg.append(&mut got);
        push_str(&mut msg, ", expected ");
        let mut exp = decimal_chars(expected_len as u64);
        msg.append(&mut exp);
        let m = string_from_chars(msg.as_slice());
        return Err(OcrError::Engine(m));
    }
    let ghost target = rgb_of(rgba@, pixel_count as int);
    let mut rgb: Vec<u8> = Vec::new();
    let mut p: usize = 0;
    while p < pixel_count
        invariant
            pixel_count * 4 == expected_len,
            expected_len <= rgba@.len(),
            0 <= p <= pixel_count,
            target == rgb_of(rgba@, pixel_count as int),
            rgb@.len() == 3 * p,
            forall|i: int| 0 <= i < 3 * p ==> rgb@[i] == #[trigger] target[i],
        decreases pixel_count - p,
    {
        let base = p * 4;
        rgb.push(rgba[base]);
        rgb.push(rgba[base + 1]);
        rgb.push(rgba[base + 2]);
        proof {
            assert forall|i: int| 0 <= i < 3 * (p + 1) implies rgb@[i] == #[trigger] target[i] by {
                if i >= 3 * p {
                    let k = i - 3 * p;
                    assert(i / 3 == p as int) by (nonlinear_arith)
                        requires i == 3 * p + k, 0 <= k < 3;
                    assert(i % 3 == k) by (nonlinear_arith)
                        requires i == 3 * p + k, 0 <= k < 3;
                }
            }
        }
        p = p + 1;
    }
    assert(rgb@ =~= target);
    Ok(rgb)
}

/// The recognized text as it is kept: without leading and trailing white space.
pub fn recognized_text(raw: &str) -> (r: String)
    ensures
        r@ == trim(raw@),
{
    trim_str(raw)
}

} // verus!
