//! The notification payload built from one record.
//!
//! The payload's shape is conditional on one field of the record: a record
//! with an image reference carries a single image attachment whose URL is
//! the configured prefix, the reference and a fixed extension; a record
//! without one carries no attachment at all.

use crate::numeral::{dec_int, i32_to_dec};
use crate::record::{line_of, Res};
use vstd::prelude::*;

verus! {

/// The payload sent to the webhook for one record: either a bare text
/// message, or a text message with one image attachment.
#[derive(Debug)]
pub enum Payload {
    TextOnly { content: String },
    WithImage { content: String, image_url: String },
}

/// The image attachment URL: prefix, decimal image reference, fixed
/// extension.
pub open spec fn image_url_of(prefix: Seq<char>, oekaki: int) -> Seq<char> {
    prefix + dec_int(oekaki) + ".png"@
}

/// Whether a payload is exactly what the record and the configured image
/// URL prefix call for: the fixed textual template as content, and an
/// image attachment if and only if the record carries an image reference.
pub open spec fn payload_matches(p: Payload, r: Res, prefix: Seq<char>) -> bool {
    match p {
        Payload::TextOnly { content } => r.oekaki_id is None && content@ == line_of(r),
        Payload::WithImage { content, image_url } => {
            &&& r.oekaki_id is Some
            &&& content@ == line_of(r)
            &&& image_url@ == image_url_of(prefix, r.oekaki_id->0 as int)
        },
    }
}

/// Builds the image attachment URL for one image reference.
pub fn image_url(prefix: &str, oekaki_id: i32) -> (s: String)
    ensures
        s@ == image_url_of(prefix@, oekaki_id as int),
{
    let mut s = String::from_str(prefix);
    let num = i32_to_dec(oekaki_id);
    s.append(num.as_str());
    s.append(".png");
    proof {
        assert(s@ =~= image_url_of(prefix@, oekaki_id as int));
    }
    s
}

/// Builds the payload for one record: the formatted text, and an image
/// attachment exactly when the record has an image reference.
pub fn build_payload(r: &Res, image_url_prefix: &str) -> (p: Payload)
    ensures
        payload_matches(p, *r, image_url_prefix@),
{
    let content = r.display_line();
    match r.oekaki_id {
        None => Payload::TextOnly { content },
        Some(oekaki) => Payload::WithImage {
            content,
            image_url: image_url(image_url_prefix, oekaki),
        },
    }
}

} // verus!
