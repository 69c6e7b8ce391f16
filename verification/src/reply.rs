//! The reply bot: it answers a message that holds, for each group of
//! keywords of a rule, one keyword of that group.

use vstd::prelude::*;
use crate::text::{contains_text, has_infix};

verus! {

/// A rule: the groups of keywords and the answer.
pub struct Response {
    pub keywords: Vec<Vec<String>>,
    pub response: String,
}

/// The reply bot.
pub struct ReplyBot {
    pub responses: Vec<Response>,
    pub channel_login: String,
}

/// Whether `msg` holds one of the keywords of `group`.
pub open spec fn hits(group: Seq<Seq<char>>, msg: Seq<char>) -> bool {
    exists|k: int| 0 <= k < group.len() && has_infix(msg, #[trigger] group[k])
}

/// Whether `msg` holds a keyword of every group.
pub open spec fn fits(keywords: Seq<Seq<Seq<char>>>, msg: Seq<char>) -> bool {
    forall|g: int| 0 <= g < keywords.len() ==> hits(#[trigger] keywords[g], msg)
}

/// The keyword groups of a rule as a model.
pub open spec fn groups(r: Response) -> Seq<Seq<Seq<char>>> {
    r.keywords@.map_values(|g: Vec<String>| g.deep_view())
}

/// The index of the first rule from the `i`-th on that `msg` fits.
pub open spec fn first_fit(rs: Seq<Response>, msg: Seq<char>, i: int) -> Option<int>
    decreases rs.len() - i,
{
    if 0 <= i < rs.len() {
        if fits(groups(rs[i]), msg) {
            Some(i)
        } else {
            first_fit(rs, msg, i + 1)
        }
    } else {
        None
    }
}

/// Whether `msg` holds one of `keywords`.
fn holds_any(msg: &str, keywords: &Vec<String>) -> (b: bool)
    ensures
        b == hits(keywords.deep_view(), msg@),
{
    let mut i: usize = 0;
    while i < keywords.len()
        invariant
            i <= keywords@.len(),
            forall|k: int| 0 <= k < i ==> !has_infix(msg@, #[trigger] keywords.deep_view()[k]),
        decreases keywords@.len() - i,
    {
        if contains_text(msg, keywords[i].as_str()) {
            assert(keywords.deep_view()[i as int] == keywords@[i as int]@);
            return true;
        }
        i = i + 1;
    }
    false
}

/// Whether `msg` fits `rule`.
fn fits_rule(msg: &str, rule: &Response) -> (b: bool)
    ensures
        b == fits(groups(*rule), msg@),
{
    let mut g: usize = 0;
    while g < rule.keywords.len()
        invariant
            g <= rule.keywords@.len(),
            forall|j: int| 0 <= j < g ==> hits(#[trigger] groups(*rule)[j], msg@),
        decreases rule.keywords@.len() - g,
    {
        if !holds_any(msg, &rule.keywords[g]) {
            assert(groups(*rule)[g as int] == rule.keywords@[g as int].deep_view());
            return false;
        }
        assert(groups(*rule)[g as int] == rule.keywords@[g as int].deep_view());
        g = g + 1;
    }
    true
}

impl ReplyBot {
    /// The bot's name.
    pub fn name() -> (r: &'static str)
        ensures
            r@ == "ReplyBot"@,
    {
        "ReplyBot"
    }

    /// The answer of the first rule that `message_text` fits.
    pub fn check_response(&self, message_text: &str) -> (r: Option<String>)
        ensures
            match first_fit(self.responses@, message_text@, 0) {
                Some(i) => r matches Some(x) && x@ == self.responses@[i].response@,
                None => r is None,
            },
    {
        let mut i: usize = 0;
        while i < self.responses.len()
            invariant
                i <= self.responses@.len(),
                first_fit(self.responses@, message_text@, 0) == first_fit(
                    self.responses@,
                    message_text@,
                    i as int,
                ),
            decreases self.responses@.len() - i,
        {
            if fits_rule(message_text, &self.responses[i]) {
                return Some(self.responses[i].response.clone());
            }
            i = i + 1;
        }
        None
    }
}

} // verus!
