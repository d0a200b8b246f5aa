//! The text that makes the passive listener answer.

use vstd::prelude::*;

use crate::text::same_text;

verus! {

/// The one message text that the passive listener answers to.
pub open spec fn trigger_text() -> Seq<char> {
    "!drink"@
}

/// Whether a message with this text asks for a drink. The whole text has
/// to be the trigger, character for character; for any other text the
/// listener fetches nothing and sends nothing.
pub fn is_trigger(text: &str) -> (fires: bool)
    ensures
        fires == (text@ == trigger_text()),
{
    same_text(text, "!drink")
}

} // verus!
