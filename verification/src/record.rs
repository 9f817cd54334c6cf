//! The message record read from the source table.

use crate::numeral::{dec_int, i32_to_dec};
use vstd::prelude::*;

verus! {

/// One row of the source table: a single posted message.
///
/// `no` is the strictly increasing sequence number assigned at insertion
/// time; it is the ordering key and the value the cursor tracks.  The
/// timestamp is carried as microseconds since the epoch, beside its
/// pre-formatted text rendering, which is the form the notification uses.
/// `oekaki_id` optionally names an associated image asset.
#[derive(Debug)]
pub struct Res {
    pub no: i32,
    pub name_and_trip: String,
    pub datetime: i64,
    pub datetime_text: String,
    pub id: String,
    pub main_text: String,
    pub main_text_html: String,
    pub oekaki_id: Option<i32>,
}

/// The one-message text built from a record's fields: sequence number,
/// display identity, formatted timestamp, opaque id and body, in a fixed
/// template.
pub open spec fn line_of(r: Res) -> Seq<char> {
    "### __"@ + dec_int(r.no as int) + " "@ + r.name_and_trip@ + " "@ + r.datetime_text@
        + " ID: "@ + r.id@ + "__\n"@ + r.main_text@ + "\n"@
}

impl Res {
    /// Renders the record as the notification's textual body.
    pub fn display_line(&self) -> (s: String)
        ensures
            s@ == line_of(*self),
    {
        let mut s = String::from_str("### __");
        let no_text = i32_to_dec(self.no);
        s.append(no_text.as_str());
        s.append(" ");
        s.append(self.name_and_trip.as_str());
        s.append(" ");
        s.append(self.datetime_text.as_str());
        s.append(" ID: ");
        s.append(self.id.as_str());
        s.append("__\n");
        s.append(self.main_text.as_str());
        s.append("\n");
        proof {
            assert(s@ =~= line_of(*self));
        }
        s
    }
}

} // verus!
