//! Presentation rules the screens share.

use vstd::prelude::*;

use crate::graphics::{contains_text, has_infix, EncodedImage};
use crate::help::{centered, centered_fits, centered_rect, Rect};
use crate::text::chars_of;

verus! {

/// A status message reads as an error when it says something failed, an
/// error, or that something cannot be done.
pub open spec fn is_error_text(msg: Seq<char>) -> bool {
    has_infix(msg, "failed"@) || has_infix(msg, "error"@) || has_infix(msg, "cannot"@)
}

/// Whether the status line shows the message in the danger color.
pub fn status_is_error(msg: &str) -> (r: bool)
    ensures
        r == is_error_text(msg@),
{
    let m = chars_of(msg);
    let failed = chars_of("failed");
    let error = chars_of("error");
    let cannot = chars_of("cannot");
    contains_text(&m, &failed) || contains_text(&m, &error) || contains_text(&m, &cannot)
}

/// The modal box for a protocol-drawn image: its interior is the image's
/// cell box.
pub fn image_modal_area(img: &EncodedImage, area: Rect) -> (r: Rect)
    requires
        img.cols + 2 <= u16::MAX,
        img.rows + 2 <= u16::MAX,
        centered_fits((img.cols + 2) as u16, (img.rows + 2) as u16, area),
    ensures
        r == centered((img.cols + 2) as u16, (img.rows + 2) as u16, area),
{
    centered_rect(img.cols + 2, img.rows + 2, area)
}

} // verus!
