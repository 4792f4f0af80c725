//! The notice that the owner of an order is mailed when someone makes an
//! offer on it.

use vstd::prelude::*;
use vstd::string::*;

verus! {

/// The subject of the notice.
pub const OFFER_NOTICE_SUBJECT: &'static str = "Ktos odpowiedzial na twoje ogloszenie";

/// The text of the notice: `who` made an offer on the order named `what`.
pub open spec fn offer_notice_text(who: Seq<char>, what: Seq<char>) -> Seq<char> {
    who + " odpowiedzial na twoje zgloszenie: "@ + what
}

/// Writes the text of the notice.
pub fn offer_notice(who: &str, what: &str) -> (r: String)
    ensures
        r@ == offer_notice_text(who@, what@),
{
    String::from_str(who).concat(" odpowiedzial na twoje zgloszenie: ").concat(what)
}

} // verus!
