//! What the clipboard holds when a clip is taken.
use vstd::prelude::*;
use crate::text::{trim, trim_str};

verus! {

/// The clipboard's content: text, an RGBA image, or nothing usable.
#[derive(Debug)]
pub enum ClipboardContent {
    Text(String),
    Image { rgba: Vec<u8>, width: u32, height: u32 },
    Empty,
}

/// The content a clip takes, given what reading the clipboard as an image
/// and as text gave: an image wins; text counts unless it is only white space.
pub fn classify_clipboard(image: Option<(Vec<u8>, u32, u32)>, text: Option<String>) -> (r: ClipboardContent)
    ensures
        image matches Some((rgba, w, h)) ==> (r matches ClipboardContent::Image { rgba: r2, width: w2, height: h2 } && r2@ == rgba@ && w2 == w && h2 == h),
        image is None ==> match text {
            Some(t) => if trim(t@).len() == 0 {
                r is Empty
            } else {
                r matches ClipboardContent::Text(t2) && t2@ == t@
            },
            None => r is Empty,
        },
{
    if let Some((rgba, width, height)) = image {
        return ClipboardContent::Image { rgba, width, height };
    }
    if let Some(t) = text {
        if trim_str(t.as_str()).as_str().is_empty() {
            return ClipboardContent::Empty;
        }
        return ClipboardContent::Text(t);
    }
    ClipboardContent::Empty
}

} // verus!
