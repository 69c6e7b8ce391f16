//! The text of the bot's web page.

use vstd::prelude::*;

verus! {

/// The text that the web page's root shows.
pub fn index() -> (r: &'static str)
    ensures
        r@ == "This is a twitch bot made by Nertsal (https://github.com/Nertsal/jambo)\n"@,
{
    "This is a twitch bot made by Nertsal (https://github.com/Nertsal/jambo)\n"
}

} // verus!
