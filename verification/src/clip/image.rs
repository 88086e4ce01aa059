//! Names and places of saved clipboard images.
use vstd::prelude::*;
use crate::path::{join_path, joined};
use crate::text::{push_str, string_from_chars};

verus! {

/// `clip-{date}-{time}.png`.
pub open spec fn image_filename(date: Seq<char>, time_hms: Seq<char>) -> Seq<char> {
    "clip-"@ + date + "-"@ + time_hms + ".png"@
}

/// The file name of an image clipped on `date` (`YYYY-MM-DD`) at `time_hms` (`HHmmss`).
pub fn clip_image_filename(date: &str, time_hms: &str) -> (r: String)
    ensures
        r@ == image_filename(date@, time_hms@),
{
    let mut out: Vec<char> = Vec::new();
    push_str(&mut out, "clip-");
    push_str(&mut out, date);
    push_str(&mut out, "-");
    push_str(&mut out, time_hms);
    push_str(&mut out, ".png");
    string_from_chars(out.as_slice())
}

/// The attachment folder of a vault: `folder` under `vault`.
pub fn attachment_dir(vault: &str, folder: &str) -> (r: String)
    ensures
        r@ == joined(vault@, folder@),
{
    join_path(vault, folder)
}

} // verus!
