//! A submitted game and the filters that pick games out of the lists.

use vstd::prelude::*;
use crate::text::{concat_text, has_prefix, starts_with, str_eq};
use vstd::string::StrSliceExecFns;
use vstd::string::StringExecFns;

verus! {

/// Where a game stands.
#[derive(Clone, Copy, PartialEq, Eq, Debug, Structural)]
pub enum GameType {
    Queued,
    Current,
    Skipped,
    Played,
}

/// A game submitted by its authors; the first author is the main one.
pub struct Submission {
    pub authors: Vec<String>,
    pub link: String,
    pub name: Option<String>,
}

/// The model of a submission.
#[verifier::ext_equal]
pub struct GameView {
    pub authors: Seq<Seq<char>>,
    pub link: Seq<char>,
    pub name: Option<Seq<char>>,
}

impl View for Submission {
    type V = GameView;

    open spec fn view(&self) -> GameView {
        GameView {
            authors: self.authors.deep_view(),
            link: self.link@,
            name: match self.name {
                Some(n) => Some(n@),
                None => None,
            },
        }
    }
}

/// The models of a list of submissions.
pub open spec fn games_view(v: Seq<Submission>) -> Seq<GameView> {
    v.map_values(|g: Submission| g@)
}

/// The first index at or after `i` where `c` occurs in `s`, or `s.len()`.
pub open spec fn find_char(s: Seq<char>, c: char, i: int) -> int
    decreases s.len() - i,
{
    if 0 <= i < s.len() && s[i] != c {
        find_char(s, c, i + 1)
    } else if i < 0 {
        0
    } else {
        i
    }
}

/// The address under which Ludum Dare lists its games.
pub open spec fn ludum_dare_prefix() -> Seq<char> {
    "https://ldjam.com/events/ludum-dare/"@
}

/// The game's name in a Ludum Dare link
/// `https://ldjam.com/events/ludum-dare/<number>/<name>[/...]`.
pub open spec fn name_from_link_spec(link: Seq<char>) -> Option<Seq<char>> {
    if has_prefix(link, ludum_dare_prefix()) {
        let rest = link.subrange(ludum_dare_prefix().len() as int, link.len() as int);
        let i = find_char(rest, '/', 0);
        if i >= rest.len() {
            None
        } else {
            Some(rest.subrange(i + 1, find_char(rest, '/', i + 1)))
        }
    } else {
        None
    }
}

/// The name under which a game is shown: its own name, else its link.
pub open spec fn display_name(g: GameView) -> Seq<char> {
    match g.name {
        Some(n) => n,
        None => g.link,
    }
}

/// `" from "`, or `" from @"` where the author is pinged.
pub open spec fn from_text(ping: bool) -> Seq<char> {
    if ping {
        " from @"@
    } else {
        " from "@
    }
}

/// `<name> from [@]<main author>`.
pub open spec fn name_text(g: GameView, ping: bool) -> Seq<char> {
    display_name(g) + from_text(ping) + g.authors[0]
}

/// `<link> from [@]<main author>`.
pub open spec fn link_text(g: GameView, ping: bool) -> Seq<char> {
    g.link + from_text(ping) + g.authors[0]
}

/// Whether `name` is among the authors of `g`.
pub open spec fn has_author(g: GameView, name: Seq<char>) -> bool {
    g.authors.contains(name)
}

/// Whether `name` is among `authors`.
pub fn contains_author(authors: &Vec<String>, name: &str) -> (b: bool)
    ensures
        b == authors.deep_view().contains(name@),
{
    let mut i: usize = 0;
    while i < authors.len()
        invariant
            i <= authors.len(),
            forall|j: int| 0 <= j < i ==> authors.deep_view()[j] != name@,
        decreases authors.len() - i,
    {
        if str_eq(authors[i].as_str(), name) {
            proof {
                assert(authors.deep_view()[i as int] == name@);
            }
            return true;
        }
        i = i + 1;
    }
    false
}

/// The position of `name` among `authors`.
pub fn author_position(authors: &Vec<String>, name: &str) -> (r: Option<usize>)
    ensures
        match r {
            Some(i) => i < authors.len() && authors.deep_view()[i as int] == name@ && forall|j: int|
                0 <= j < i ==> authors.deep_view()[j] != name@,
            None => !authors.deep_view().contains(name@),
        },
{
    let mut i: usize = 0;
    while i < authors.len()
        invariant
            i <= authors.len(),
            forall|j: int| 0 <= j < i ==> authors.deep_view()[j] != name@,
        decreases authors.len() - i,
    {
        if str_eq(authors[i].as_str(), name) {
            return Some(i);
        }
        i = i + 1;
    }
    None
}

/// The index of the first `c` at or after `i` in `s`, or `s.len()`.
fn find_char_in(s: &str, c: char, i: usize) -> (r: usize)
    requires
        i <= s@.len(),
    ensures
        r == find_char(s@, c, i as int),
{
    let len = s.unicode_len();
    let mut j = i;
    while j < len && s.get_char(j) != c
        invariant
            len == s@.len(),
            i <= j <= len,
            find_char(s@, c, j as int) == find_char(s@, c, i as int),
        decreases len - j,
    {
        j = j + 1;
    }
    j
}

pub proof fn lemma_find_char_bounds(s: Seq<char>, c: char, i: int)
    requires
        0 <= i <= s.len(),
    ensures
        i <= find_char(s, c, i) <= s.len(),
    decreases s.len() - i,
{
    if i < s.len() && s[i] != c {
        lemma_find_char_bounds(s, c, i + 1);
    }
}

impl Submission {
    /// A new submission; a Ludum Dare link gives the game its name.
    pub fn new(authors: Vec<String>, link: String) -> (r: Submission)
        ensures
            r@.authors == authors.deep_view(),
            r@.link == link@,
            r@.name == name_from_link_spec(link@),
    {
        let name = Self::name_from_link(link.as_str());
        Submission { authors, name, link }
    }

    /// The name under which the game is shown.
    pub fn name(&self) -> (r: &str)
        ensures
            r@ == display_name(self@),
    {
        match &self.name {
            Some(n) => n.as_str(),
            None => self.link.as_str(),
        }
    }

    /// `<name> from <main author>`, with an `@` before the author where
    /// `ping` is set.
    pub fn to_string_name(&self, ping: bool) -> (r: String)
        requires
            self.authors@.len() > 0,
        ensures
            r@ == name_text(self@, ping),
    {
        let from = if ping {
            " from @"
        } else {
            " from "
        };
        let mut r = concat_text(self.name(), from);
        r.append(self.authors[0].as_str());
        r
    }

    /// `<link> from <main author>`, with an `@` before the author where
    /// `ping` is set.
    pub fn to_string_link(&self, ping: bool) -> (r: String)
        requires
            self.authors@.len() > 0,
        ensures
            r@ == link_text(self@, ping),
    {
        let from = if ping {
            " from @"
        } else {
            " from "
        };
        let mut r = concat_text(self.link.as_str(), from);
        r.append(self.authors[0].as_str());
        r
    }

    /// The game's name in a Ludum Dare link, if `link` is one.
    pub fn name_from_link(link: &str) -> (r: Option<String>)
        ensures
            match name_from_link_spec(link@) {
                Some(n) => r matches Some(s) && s@ == n,
                None => r is None,
            },
    {
        let ludumdare = "https://ldjam.com/events/ludum-dare/";
        if starts_with(link, ludumdare) {
            let len = link.unicode_len();
            let plen = ludumdare.unicode_len();
            let rest = link.substring_char(plen, len);
            let i = find_char_in(rest, '/', 0);
            proof {
                lemma_find_char_bounds(rest@, '/', 0);
            }
            if i >= rest.unicode_len() {
                return None;
            }
            let j = find_char_in(rest, '/', i + 1);
            proof {
                lemma_find_char_bounds(rest@, '/', i + 1);
            }
            Some(rest.substring_char(i + 1, j).to_owned())
        } else {
            None
        }
    }

    /// A copy of this submission.
    pub fn duplicate(&self) -> (r: Submission)
        ensures
            r@ == self@,
    {
        let name = match &self.name {
            Some(n) => Some(n.clone()),
            None => None,
        };
        Submission { authors: crate::text::copy_strings(&self.authors), link: self.link.clone(), name }
    }
}

/// Which games a search or removal picks.
pub enum GameFilter {
    /// Every game.
    Any,
    /// Games whose main (first) author is the given one.
    MainAuthor(String),
    /// Games among whose authors the given one is.
    Author(String),
    /// Games with the given link.
    Link(String),
}

/// The model of a filter.
pub enum FilterView {
    Any,
    MainAuthor(Seq<char>),
    Author(Seq<char>),
    Link(Seq<char>),
}

impl View for GameFilter {
    type V = FilterView;

    open spec fn view(&self) -> FilterView {
        match self {
            GameFilter::Any => FilterView::Any,
            GameFilter::MainAuthor(a) => FilterView::MainAuthor(a@),
            GameFilter::Author(a) => FilterView::Author(a@),
            GameFilter::Link(l) => FilterView::Link(l@),
        }
    }
}

/// Whether `g` passes the filter.
pub open spec fn passes(f: FilterView, g: GameView) -> bool {
    match f {
        FilterView::Any => true,
        FilterView::MainAuthor(a) => g.authors.len() > 0 && g.authors[0] == a,
        FilterView::Author(a) => has_author(g, a),
        FilterView::Link(l) => g.link == l,
    }
}

/// The index of the first game from the `i`-th on that passes `f`.
pub open spec fn first_match(s: Seq<GameView>, f: FilterView, i: int) -> Option<int>
    decreases s.len() - i,
{
    if 0 <= i < s.len() {
        if passes(f, s[i]) {
            Some(i)
        } else {
            first_match(s, f, i + 1)
        }
    } else {
        None
    }
}

pub proof fn lemma_first_match(s: Seq<GameView>, f: FilterView, i: int)
    requires
        0 <= i,
    ensures
        match first_match(s, f, i) {
            Some(j) => i <= j < s.len() && passes(f, s[j]) && forall|k: int|
                i <= k < j ==> !passes(f, #[trigger] s[k]),
            None => forall|k: int| i <= k < s.len() ==> !passes(f, #[trigger] s[k]),
        },
    decreases s.len() - i,
{
    if 0 <= i < s.len() && !passes(f, s[i]) {
        lemma_first_match(s, f, i + 1);
    }
}

impl GameFilter {
    /// Whether `game` passes this filter.
    pub fn test(&self, game: &Submission) -> (b: bool)
        ensures
            b == passes(self@, game@),
    {
        match self {
            GameFilter::Any => true,
            GameFilter::MainAuthor(a) => {
                if game.authors.len() == 0 {
                    false
                } else {
                    str_eq(game.authors[0].as_str(), a.as_str())
                }
            },
            GameFilter::Author(a) => contains_author(&game.authors, a.as_str()),
            GameFilter::Link(l) => str_eq(game.link.as_str(), l.as_str()),
        }
    }
}

/// The index of the first game in `games` that passes `filter`.
pub fn position(games: &Vec<Submission>, filter: &GameFilter) -> (r: Option<usize>)
    ensures
        match first_match(games_view(games@), filter@, 0) {
            Some(i) => r matches Some(j) && j == i,
            None => r is None,
        },
{
    let ghost s = games_view(games@);
    let mut i: usize = 0;
    while i < games.len()
        invariant
            i <= games.len(),
            s == games_view(games@),
            first_match(s, filter@, 0) == first_match(s, filter@, i as int),
        decreases games.len() - i,
    {
        if filter.test(&games[i]) {
            return Some(i);
        }
        i = i + 1;
    }
    None
}

} // verus!
